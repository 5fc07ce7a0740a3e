//! Codec profiles and the registry that looks them up by identifier.

use vstd::prelude::*;
use crate::codecs::audio::{CbrAudio, FlacAudio, FLAC_ID, FLAC_LABEL};
use crate::codecs::video::VideoCodec;
use crate::estimated::Estimated;
use crate::media::{Track, TrackKind};
use crate::note::{notes_view, Level, Note, NoteTarget};
use crate::plan::Opts;
use crate::text::{lemma_seq_less_total, lemma_seq_less_transitive, seq_less, str_eq, str_less, views};
use crate::units::Seconds;

verus! {

/// What an encoder needs to know about one output stream.
pub struct EncodeCtx<'a> {
    pub src: &'a Track,
    pub opts: &'a Opts,
    /// Length of the result after trimming.
    pub duration_s: Seconds,
}

/// A way of encoding one track.
#[derive(Debug, Clone, Copy, PartialEq, Eq)]
pub enum CodecProfile {
    CbrAudio(CbrAudio),
    FlacAudio,
    Video(VideoCodec),
}

impl CodecProfile {
    pub open spec fn spec_id(self) -> Seq<char> {
        match self {
            CodecProfile::CbrAudio(c) => c.id@,
            CodecProfile::FlacAudio => FLAC_ID@,
            CodecProfile::Video(v) => v.id@,
        }
    }

    pub open spec fn spec_kind(self) -> TrackKind {
        match self {
            CodecProfile::Video(_) => TrackKind::Video,
            _ => TrackKind::Audio,
        }
    }

    pub open spec fn spec_label(self) -> Seq<char> {
        match self {
            CodecProfile::CbrAudio(c) => c.label@,
            CodecProfile::FlacAudio => FLAC_LABEL@,
            CodecProfile::Video(v) => v.label@,
        }
    }

    /// Parameters within which the profile's arithmetic and wording make sense.
    pub open spec fn wf(self) -> bool {
        match self {
            CodecProfile::CbrAudio(c) => c.wf(),
            CodecProfile::FlacAudio => true,
            CodecProfile::Video(v) => v.efficiency_permille <= 2000,
        }
    }

    pub open spec fn spec_preserves_dolby_vision(self) -> bool {
        match self {
            CodecProfile::Video(v) => v.preserves_dv,
            _ => false,
        }
    }

    pub open spec fn spec_default_opts(self, src: Track) -> Opts {
        match self {
            CodecProfile::CbrAudio(c) => c.spec_default_opts(src),
            CodecProfile::FlacAudio => FlacAudio::spec_default_opts(src),
            CodecProfile::Video(v) => v.spec_default_opts(src),
        }
    }

    pub open spec fn spec_estimate_bps(self, src: Track, opts: Opts) -> Estimated<u64> {
        match self {
            CodecProfile::CbrAudio(c) => c.spec_estimate_bps(opts),
            CodecProfile::FlacAudio => FlacAudio::spec_estimate_bps(src),
            CodecProfile::Video(v) => v.spec_estimate_bps(src, opts),
        }
    }

    pub open spec fn spec_args(self, src: Track, opts: Opts, out_idx: nat) -> Seq<Seq<char>> {
        match self {
            CodecProfile::CbrAudio(c) => c.spec_args(src, opts, out_idx),
            CodecProfile::FlacAudio => FlacAudio::spec_args(out_idx),
            CodecProfile::Video(v) => v.spec_args(src, opts, out_idx),
        }
    }

    pub open spec fn spec_notes(self, src: Track, opts: Opts, duration: Seconds) -> Seq<
        (Level, NoteTarget, Seq<char>),
    > {
        match self {
            CodecProfile::CbrAudio(c) => c.spec_notes(src),
            CodecProfile::FlacAudio => FlacAudio::spec_notes(src),
            CodecProfile::Video(v) => v.spec_notes(src, opts, duration),
        }
    }

    pub fn id(&self) -> (s: &'static str)
        ensures
            s@ == self.spec_id(),
    {
        match self {
            CodecProfile::CbrAudio(c) => c.id,
            CodecProfile::FlacAudio => FLAC_ID,
            CodecProfile::Video(v) => v.id,
        }
    }

    pub fn kind(&self) -> (k: TrackKind)
        ensures
            k == self.spec_kind(),
    {
        match self {
            CodecProfile::Video(_) => TrackKind::Video,
            _ => TrackKind::Audio,
        }
    }

    /// Caption for the drop-down list.
    pub fn label(&self) -> (s: &'static str)
        ensures
            s@ == self.spec_label(),
    {
        match self {
            CodecProfile::CbrAudio(c) => c.label,
            CodecProfile::FlacAudio => FLAC_LABEL,
            CodecProfile::Video(v) => v.label,
        }
    }

    /// Reasonable settings when this profile is chosen for `src`.
    pub fn default_opts(&self, src: &Track) -> (o: Opts)
        requires
            self.wf(),
        ensures
            o == self.spec_default_opts(*src),
    {
        match self {
            CodecProfile::CbrAudio(c) => c.default_opts(src),
            CodecProfile::FlacAudio => FlacAudio::default_opts(src),
            CodecProfile::Video(v) => v.default_opts(src),
        }
    }

    pub fn estimate_bps(&self, ctx: &EncodeCtx) -> (e: Estimated<u64>)
        ensures
            e == self.spec_estimate_bps(*ctx.src, *ctx.opts),
    {
        match self {
            CodecProfile::CbrAudio(c) => c.estimate_bps(ctx.opts),
            CodecProfile::FlacAudio => FlacAudio::estimate_bps(ctx.src),
            CodecProfile::Video(v) => v.estimate_bps(ctx.src, ctx.opts),
        }
    }

    /// ffmpeg arguments for output stream number `out_idx` within its type.
    pub fn args(&self, ctx: &EncodeCtx, out_idx: usize) -> (v: Vec<String>)
        ensures
            views(v@) == self.spec_args(*ctx.src, *ctx.opts, out_idx as nat),
    {
        match self {
            CodecProfile::CbrAudio(c) => c.args(ctx.src, ctx.opts, out_idx),
            CodecProfile::FlacAudio => FlacAudio::args(out_idx),
            CodecProfile::Video(v) => v.args(ctx.src, ctx.opts, out_idx),
        }
    }

    pub fn notes(&self, ctx: &EncodeCtx) -> (v: Vec<Note>)
        requires
            self.wf(),
        ensures
            notes_view(v@) == self.spec_notes(*ctx.src, *ctx.opts, ctx.duration_s),
    {
        match self {
            CodecProfile::CbrAudio(c) => c.notes(ctx.src),
            CodecProfile::FlacAudio => FlacAudio::notes(ctx.src),
            CodecProfile::Video(v) => v.notes(ctx.src, ctx.opts, ctx.duration_s),
        }
    }

    /// Whether the profile keeps the Dolby Vision layer.
    pub fn preserves_dolby_vision(&self) -> (b: bool)
        ensures
            b == self.spec_preserves_dolby_vision(),
    {
        match self {
            CodecProfile::Video(v) => v.preserves_dv,
            _ => false,
        }
    }
}

/// Profiles kept in strictly increasing order of identifier.
pub open spec fn ids_sorted(s: Seq<CodecProfile>) -> bool {
    forall|i: int, j: int| 0 <= i < j < s.len() ==> seq_less(s[i].spec_id(), s[j].spec_id())
}

/// The map from identifier to profile that a sequence of profiles describes.
pub open spec fn id_map(s: Seq<CodecProfile>) -> Map<Seq<char>, CodecProfile> {
    Map::new(
        |k: Seq<char>| exists|i: int| 0 <= i < s.len() && s[i].spec_id() == k,
        |k: Seq<char>| s[choose|i: int| 0 <= i < s.len() && s[i].spec_id() == k],
    )
}

pub proof fn lemma_id_map_at(s: Seq<CodecProfile>, i: int)
    requires
        ids_sorted(s),
        0 <= i < s.len(),
    ensures
        id_map(s).dom().contains(s[i].spec_id()),
        id_map(s)[s[i].spec_id()] == s[i],
{
    let k = s[i].spec_id();
    assert(exists|j: int| 0 <= j < s.len() && s[j].spec_id() == k);
    let j = choose|j: int| 0 <= j < s.len() && s[j].spec_id() == k;
    lemma_seq_less_total(k, k);
    if j < i {
        assert(seq_less(s[j].spec_id(), s[i].spec_id()));
    }
    if j > i {
        assert(seq_less(s[i].spec_id(), s[j].spec_id()));
    }
}

/// The profiles of one track kind, in registry order.
pub open spec fn of_kind(s: Seq<CodecProfile>, kind: TrackKind) -> Seq<CodecProfile>
    decreases s.len(),
{
    if s.len() == 0 {
        Seq::empty()
    } else {
        let r = of_kind(s.drop_last(), kind);
        if s.last().spec_kind() == kind {
            r.push(s.last())
        } else {
            r
        }
    }
}

/// All known codec profiles, ordered by identifier.
pub struct CodecRegistry {
    profiles: Vec<CodecProfile>,
}

impl CodecRegistry {
    pub closed spec fn entries(self) -> Seq<CodecProfile> {
        self.profiles@
    }

    pub open spec fn wf(self) -> bool {
        &&& ids_sorted(self.entries())
        &&& forall|i: int| 0 <= i < self.entries().len() ==> #[trigger] self.entries()[i].wf()
    }

    pub open spec fn as_map(self) -> Map<Seq<char>, CodecProfile> {
        id_map(self.entries())
    }

    pub open spec fn spec_get(self, id: Seq<char>) -> Option<CodecProfile> {
        if self.as_map().dom().contains(id) {
            Some(self.as_map()[id])
        } else {
            None
        }
    }

    pub fn new() -> (r: Self)
        ensures
            r.wf(),
            r.entries().len() == 0,
            r.as_map() == Map::<Seq<char>, CodecProfile>::empty(),
    {
        let r = CodecRegistry { profiles: Vec::new() };
        assert(r.as_map() =~= Map::<Seq<char>, CodecProfile>::empty());
        r
    }

    /// Adds a profile, replacing one with the same identifier.
    pub fn register(&mut self, profile: CodecProfile)
        requires
            old(self).wf(),
            profile.wf(),
        ensures
            final(self).wf(),
            final(self).as_map() == old(self).as_map().insert(profile.spec_id(), profile),
    {
        let ghost s = self.profiles@;
        let id = profile.id();
        let mut i: usize = 0;
        while i < self.profiles.len() && str_less(self.profiles[i].id(), id)
            invariant
                self.profiles@ == s,
                ids_sorted(s),
                i <= s.len(),
                forall|j: int| 0 <= j < i ==> seq_less(#[trigger] s[j].spec_id(), id@),
            decreases s.len() - i,
        {
            i = i + 1;
        }
        let replace = i < self.profiles.len() && str_eq(self.profiles[i].id(), id);
        if replace {
            self.profiles.set(i, profile);
        } else {
            self.profiles.insert(i, profile);
        }
        proof {
            let t = self.profiles@;
            let k = profile.spec_id();
            lemma_seq_less_total(k, k);
            if !replace {
                assert(t == s.insert(i as int, profile));
                assert forall|j: int| i <= j < s.len() implies seq_less(k, #[trigger] s[j].spec_id()) by {
                    lemma_seq_less_total(s[i as int].spec_id(), k);
                    if j > i {
                        lemma_seq_less_transitive(k, s[i as int].spec_id(), s[j].spec_id());
                    }
                }
            } else {
                assert(t == s.update(i as int, profile));
            }
            assert(ids_sorted(t)) by {
                assert forall|x: int, y: int| 0 <= x < y < t.len() implies seq_less(
                    t[x].spec_id(),
                    t[y].spec_id(),
                ) by {
                    if !replace {
                        if x < i && y > i {
                            assert(t[y] == s[y - 1]);
                        } else if x > i {
                            assert(t[x] == s[x - 1] && t[y] == s[y - 1]);
                        } else if y > i {
                            assert(t[y] == s[y - 1]);
                        }
                    }
                }
            }
            assert forall|x: int| 0 <= x < t.len() implies #[trigger] t[x].wf() by {
                if !replace && x > i {
                    assert(t[x] == s[x - 1]);
                }
            }
            let m0 = id_map(s);
            let m1 = id_map(t);
            assert forall|key: Seq<char>| m1.dom().contains(key) <==> m0.insert(k, profile).dom().contains(key) by {
                if m1.dom().contains(key) {
                    let x = choose|x: int| 0 <= x < t.len() && t[x].spec_id() == key;
                    if key != k {
                        if replace {
                            assert(s[x].spec_id() == key);
                        } else if x < i {
                            assert(s[x].spec_id() == key);
                        } else {
                            assert(t[x] == s[x - 1]);
                        }
                    }
                }
                if m0.insert(k, profile).dom().contains(key) {
                    if key == k {
                        assert(t[i as int].spec_id() == key);
                    } else {
                        let x = choose|x: int| 0 <= x < s.len() && s[x].spec_id() == key;
                        if replace {
                            assert(t[x].spec_id() == key);
                        } else if x < i {
                            assert(t[x].spec_id() == key);
                        } else {
                            assert(t[x + 1].spec_id() == key);
                        }
                    }
                }
            }
            assert forall|key: Seq<char>| #[trigger] m1.dom().contains(key) implies m1[key] == m0.insert(k, profile)[key] by {
                if key == k {
                    lemma_id_map_at(t, i as int);
                } else {
                    let x = choose|x: int| 0 <= x < s.len() && s[x].spec_id() == key;
                    lemma_id_map_at(s, x);
                    if replace {
                        lemma_id_map_at(t, x);
                    } else if x < i {
                        lemma_id_map_at(t, x);
                    } else {
                        assert(t[x + 1] == s[x]);
                        lemma_id_map_at(t, x + 1);
                    }
                }
            }
            assert(m1 =~= m0.insert(k, profile));
        }
    }

    /// The profile with the given identifier.
    pub fn get(&self, id: &str) -> (r: Option<&CodecProfile>)
        requires
            self.wf(),
        ensures
            match r {
                Some(p) => self.spec_get(id@) == Some(*p),
                None => self.spec_get(id@) is None,
            },
            r matches Some(p) ==> p.wf(),
    {
        let ghost s = self.profiles@;
        let mut i: usize = 0;
        while i < self.profiles.len()
            invariant
                self.profiles@ == s,
                self.wf(),
                ids_sorted(s),
                i <= s.len(),
                forall|j: int| 0 <= j < i ==> #[trigger] s[j].spec_id() != id@,
            decreases s.len() - i,
        {
            if str_eq(self.profiles[i].id(), id) {
                proof {
                    lemma_id_map_at(s, i as int);
                }
                return Some(&self.profiles[i]);
            }
            i = i + 1;
        }
        proof {
            if id_map(s).dom().contains(id@) {
                let j = choose|j: int| 0 <= j < s.len() && s[j].spec_id() == id@;
                assert(s[j].spec_id() != id@);
            }
        }
        None
    }

    /// The profiles that encode tracks of the given kind, ordered by identifier.
    pub fn for_kind(&self, kind: TrackKind) -> (v: Vec<&CodecProfile>)
        ensures
            v@.map_values(|p: &CodecProfile| *p) == of_kind(self.entries(), kind),
    {
        let ghost s = self.profiles@;
        let mut v: Vec<&CodecProfile> = Vec::new();
        let mut i: usize = 0;
        while i < self.profiles.len()
            invariant
                self.profiles@ == s,
                i <= s.len(),
                v@.map_values(|p: &CodecProfile| *p) == of_kind(s.subrange(0, i as int), kind),
            decreases s.len() - i,
        {
            assert(s.subrange(0, i + 1).drop_last() =~= s.subrange(0, i as int));
            if self.profiles[i].kind() == kind {
                v.push(&self.profiles[i]);
            }
            assert(v@.map_values(|p: &CodecProfile| *p) =~= of_kind(s.subrange(0, i + 1), kind));
            i = i + 1;
        }
        assert(s.subrange(0, i as int) =~= s);
        v
    }

    /// A registry holding every built-in profile.
    pub fn with_builtins() -> (r: Self)
        ensures
            r.wf(),
            r.as_map() == crate::codecs::builtin_profiles(),
    {
        let mut reg = Self::new();
        crate::codecs::register_builtins(&mut reg);
        reg
    }
}

/// After registering a profile the registry hands out exactly that profile
/// for its identifier, and any other identifier is looked up as before.
pub proof fn law_register_then_get(before: CodecRegistry, after: CodecRegistry, profile: CodecProfile, other: Seq<char>)
    requires
        after.as_map() == before.as_map().insert(profile.spec_id(), profile),
        other != profile.spec_id(),
    ensures
        after.spec_get(profile.spec_id()) == Some(profile),
        after.spec_get(other) == before.spec_get(other),
{
}

} // verus!
