//! The user's decisions: what happens to each track, which stretch of the
//! film is kept and which disc it has to fit on.

use vstd::prelude::*;
use crate::media::MediaInfo;
use crate::units::Seconds;

verus! {

/// Space the UDF file system takes for itself.
pub const UDF_METADATA_BYTES: u64 = 8 * 1024 * 1024;

/// A fiftieth (2%) of the capacity is kept free as a safety margin.
pub const SAFETY_MARGIN_DIVISOR: u64 = 50;

pub const SECTOR_BYTES: u64 = 2048;

/// A stretch of the timeline, from `start_s` to `end_s`.
#[derive(Debug, Clone, Copy, PartialEq, Eq, Structural)]
pub struct TimeRange {
    pub start_s: Seconds,
    pub end_s: Seconds,
}

impl TimeRange {
    /// Length of the range in milliseconds; an inverted range is empty.
    pub open spec fn spec_duration_ms(self) -> nat {
        if self.end_s.ms > self.start_s.ms {
            (self.end_s.ms - self.start_s.ms) as nat
        } else {
            0
        }
    }

    /// Whether the range covers a whole film of the given length.
    pub open spec fn spec_is_full(self, duration_s: Seconds) -> bool {
        self.start_s.ms == 0 && self.end_s.ms >= duration_s.ms
    }

    /// The whole film.
    pub fn full(duration_s: Seconds) -> (r: Self)
        ensures
            r.start_s.ms == 0,
            r.end_s == duration_s,
    {
        TimeRange { start_s: Seconds::zero(), end_s: duration_s }
    }

    pub fn duration_s(&self) -> (d: Seconds)
        ensures
            d.ms == self.spec_duration_ms(),
    {
        if self.end_s.ms > self.start_s.ms {
            Seconds::from_ms(self.end_s.ms - self.start_s.ms)
        } else {
            Seconds::zero()
        }
    }

    pub fn is_full(&self, duration_s: Seconds) -> (b: bool)
        ensures
            b == self.spec_is_full(duration_s),
    {
        self.start_s.ms == 0 && self.end_s.ms >= duration_s.ms
    }
}

/// Settings of a transcode; `None` leaves a setting to the codec profile.
#[derive(Debug, Clone, Copy, PartialEq, Eq, Structural)]
pub struct Opts {
    pub bitrate_bps: Option<u64>,
    pub channels: Option<u32>,
    pub height: Option<u32>,
}

impl Default for Opts {
    fn default() -> (o: Self)
        ensures
            o.bitrate_bps is None,
            o.channels is None,
            o.height is None,
    {
        Opts { bitrate_bps: None, channels: None, height: None }
    }
}

#[derive(Debug, Clone, PartialEq, Eq)]
pub enum TrackAction {
    Copy,
    Transcode { codec_id: String, opts: Opts },
    Drop,
}

#[derive(Debug, Clone, PartialEq, Eq)]
pub enum TargetSource {
    /// The capacity was read from the drive.
    Drive(String),
    Preset(String),
    Manual,
}

#[derive(Debug, Clone, PartialEq, Eq)]
pub struct Target {
    pub capacity_bytes: u64,
    pub source: TargetSource,
}

/// Bytes that can really be given to the file: the capacity less the UDF
/// metadata and less the safety margin, never below zero.
pub open spec fn usable_of(capacity: u64) -> nat {
    let a = if capacity >= UDF_METADATA_BYTES {
        capacity - UDF_METADATA_BYTES
    } else {
        0
    };
    let m = capacity / SAFETY_MARGIN_DIVISOR;
    if a >= m {
        (a - m) as nat
    } else {
        0
    }
}

impl Target {
    pub fn preset(name: String, capacity_bytes: u64) -> (t: Self)
        ensures
            t.capacity_bytes == capacity_bytes,
            t.source == TargetSource::Preset(name),
    {
        Target { capacity_bytes, source: TargetSource::Preset(name) }
    }

    pub fn drive(node: String, capacity_bytes: u64) -> (t: Self)
        ensures
            t.capacity_bytes == capacity_bytes,
            t.source == TargetSource::Drive(node),
    {
        Target { capacity_bytes, source: TargetSource::Drive(node) }
    }

    /// How many bytes can really be given to the file.
    pub fn usable_bytes(&self) -> (u: u64)
        ensures
            u == usable_of(self.capacity_bytes),
    {
        self.capacity_bytes.saturating_sub(UDF_METADATA_BYTES).saturating_sub(
            self.capacity_bytes / SAFETY_MARGIN_DIVISOR,
        )
    }

    /// A copy of the target.
    pub fn duplicate(&self) -> (t: Self)
        ensures
            t == *self,
    {
        let source = match &self.source {
            TargetSource::Drive(d) => TargetSource::Drive(d.clone()),
            TargetSource::Preset(p) => TargetSource::Preset(p.clone()),
            TargetSource::Manual => TargetSource::Manual,
        };
        Target { capacity_bytes: self.capacity_bytes, source }
    }
}

/// The usable space never exceeds the capacity.
pub proof fn law_usable_within_capacity(capacity: u64)
    ensures
        usable_of(capacity) <= capacity,
        capacity >= UDF_METADATA_BYTES + capacity / SAFETY_MARGIN_DIVISOR ==> usable_of(capacity)
            == capacity - UDF_METADATA_BYTES - capacity / SAFETY_MARGIN_DIVISOR,
{
}

/// Nominal capacities for when no drive is at hand.
pub const PRESETS: [(&'static str, u64); 5] = [
    ("BD-R XL 100 ГБ", 100_103_356_416),
    ("BD-R DL 50 ГБ", 50_050_629_632),
    ("BD-R 25 ГБ", 25_025_314_816),
    ("DVD+R DL 8.5 ГБ", 8_547_991_552),
    ("DVD 4.7 ГБ", 4_700_372_992),
];

/// Entries kept in strictly increasing order of track index.
pub open spec fn sorted_keys(s: Seq<(usize, TrackAction)>) -> bool {
    forall|i: int, j: int| 0 <= i < j < s.len() ==> s[i].0 < s[j].0
}

/// The map from track index to action that a sequence of entries describes.
pub open spec fn entries_map(s: Seq<(usize, TrackAction)>) -> Map<usize, TrackAction> {
    Map::new(
        |k: usize| exists|i: int| 0 <= i < s.len() && s[i].0 == k,
        |k: usize| s[choose|i: int| 0 <= i < s.len() && s[i].0 == k].1,
    )
}

pub proof fn lemma_entries_map_at(s: Seq<(usize, TrackAction)>, i: int)
    requires
        sorted_keys(s),
        0 <= i < s.len(),
    ensures
        entries_map(s).dom().contains(s[i].0),
        entries_map(s)[s[i].0] == s[i].1,
{
    let k = s[i].0;
    assert(exists|j: int| 0 <= j < s.len() && s[j].0 == k);
    let j = choose|j: int| 0 <= j < s.len() && s[j].0 == k;
    if j < i {
        assert(s[j].0 < s[i].0);
    }
    if j > i {
        assert(s[i].0 < s[j].0);
    }
}

/// The whole set of decisions.
#[derive(Debug, Clone, PartialEq)]
pub struct Plan {
    /// Action per track index, kept sorted by index with no index twice.
    pub actions: Vec<(usize, TrackAction)>,
    pub range: TimeRange,
    pub target: Target,
}

/// The action that an action map gives a track; unknown tracks are dropped.
pub open spec fn action_in(m: Map<usize, TrackAction>, index: usize) -> TrackAction {
    if m.dom().contains(index) {
        m[index]
    } else {
        TrackAction::Drop
    }
}

impl Plan {
    /// The entries are kept sorted by track index.
    pub open spec fn wf(self) -> bool {
        sorted_keys(self.actions@)
    }

    /// Which action each track index is given.
    pub open spec fn action_map(self) -> Map<usize, TrackAction> {
        entries_map(self.actions@)
    }

    pub open spec fn spec_action(self, index: usize) -> TrackAction {
        action_in(self.action_map(), index)
    }

    /// The starting decision: nothing is touched, everything is copied whole.
    pub fn from_media(media: &MediaInfo, target: Target) -> (p: Self)
        ensures
            p.wf(),
            p.range.start_s.ms == 0,
            p.range.end_s == media.duration_s,
            p.target == target,
            forall|k: usize|
                p.action_map().dom().contains(k) <==> exists|i: int|
                    0 <= i < media.tracks@.len() && media.tracks@[i].index == k,
            forall|k: usize| #[trigger]
                p.action_map().dom().contains(k) ==> p.action_map()[k] == TrackAction::Copy,
    {
        let mut p = Plan { actions: Vec::new(), range: TimeRange::full(media.duration_s), target };
        let mut i: usize = 0;
        while i < media.tracks.len()
            invariant
                i <= media.tracks@.len(),
                p.wf(),
                p.range.start_s.ms == 0,
                p.range.end_s == media.duration_s,
                p.target == target,
                forall|k: usize|
                    p.action_map().dom().contains(k) <==> exists|j: int|
                        0 <= j < i && media.tracks@[j].index == k,
                forall|k: usize| #[trigger]
                    p.action_map().dom().contains(k) ==> p.action_map()[k] == TrackAction::Copy,
            decreases media.tracks@.len() - i,
        {
            let ghost before = p.action_map();
            p.set_action(media.tracks[i].index, TrackAction::Copy);
            proof {
                assert forall|k: usize|
                    p.action_map().dom().contains(k) <==> exists|j: int|
                        0 <= j < i + 1 && media.tracks@[j].index == k by {
                    if k == media.tracks@[i as int].index {
                        assert(media.tracks@[i as int].index == k);
                    }
                    if exists|j: int| 0 <= j < i + 1 && media.tracks@[j].index == k {
                        let j = choose|j: int| 0 <= j < i + 1 && media.tracks@[j].index == k;
                        if j < i {
                            assert(before.dom().contains(k));
                        }
                    }
                }
            }
            i = i + 1;
        }
        p
    }

    /// What happens to the track with the given index; tracks the plan does
    /// not know are dropped.
    pub fn action(&self, index: usize) -> (a: &TrackAction)
        requires
            self.wf(),
        ensures
            *a == self.spec_action(index),
    {
        let mut i: usize = 0;
        while i < self.actions.len()
            invariant
                sorted_keys(self.actions@),
                i <= self.actions@.len(),
                forall|j: int| 0 <= j < i ==> #[trigger] self.actions@[j].0 != index,
            decreases self.actions@.len() - i,
        {
            if self.actions[i].0 == index {
                proof {
                    lemma_entries_map_at(self.actions@, i as int);
                }
                return &self.actions[i].1;
            }
            i = i + 1;
        }
        proof {
            if self.action_map().dom().contains(index) {
                let j = choose|j: int| 0 <= j < self.actions@.len() && self.actions@[j].0 == index;
                assert(self.actions@[j].0 != index);
            }
        }
        &TrackAction::Drop
    }

    /// Decide what happens to the track with the given index.
    pub fn set_action(&mut self, index: usize, action: TrackAction)
        requires
            old(self).wf(),
        ensures
            final(self).wf(),
            final(self).action_map() == old(self).action_map().insert(index, action),
            final(self).range == old(self).range,
            final(self).target == old(self).target,
    {
        let ghost s = self.actions@;
        let mut i: usize = 0;
        while i < self.actions.len() && self.actions[i].0 < index
            invariant
                self.actions@ == s,
                sorted_keys(s),
                i <= s.len(),
                forall|j: int| 0 <= j < i ==> #[trigger] s[j].0 < index,
            decreases s.len() - i,
        {
            i = i + 1;
        }
        let replace = i < self.actions.len() && self.actions[i].0 == index;
        if replace {
            self.actions.set(i, (index, action));
        } else {
            self.actions.insert(i, (index, action));
        }
        proof {
            let t = self.actions@;
            let ghost a = (index, action);
            if replace {
                assert(t == s.update(i as int, a));
            } else {
                assert(t == s.insert(i as int, a));
                assert forall|j: int| i <= j < s.len() implies index < #[trigger] s[j].0 by {
                    if j > i {
                        assert(s[i as int].0 < s[j].0);
                    }
                }
            }
            assert(sorted_keys(t)) by {
                assert forall|x: int, y: int| 0 <= x < y < t.len() implies t[x].0 < t[y].0 by {
                    if !replace {
                        if x < i && y > i {
                            assert(t[y] == s[y - 1]);
                        } else if x > i {
                            assert(t[x] == s[x - 1] && t[y] == s[y - 1]);
                        } else if y > i {
                            assert(t[y] == s[y - 1]);
                        }
                    }
                }
            }
            let m0 = entries_map(s);
            let m1 = entries_map(t);
            // Every entry of the new sequence is the new pair or an old entry.
            assert forall|k: usize| m1.dom().contains(k) <==> m0.insert(index, action).dom().contains(k) by {
                if m1.dom().contains(k) {
                    let x = choose|x: int| 0 <= x < t.len() && t[x].0 == k;
                    if k != index {
                        if replace {
                            assert(s[x].0 == k);
                        } else if x < i {
                            assert(s[x].0 == k);
                        } else {
                            assert(t[x] == s[x - 1]);
                        }
                    }
                }
                if m0.insert(index, action).dom().contains(k) {
                    if k == index {
                        assert(t[i as int].0 == k);
                    } else {
                        let x = choose|x: int| 0 <= x < s.len() && s[x].0 == k;
                        if replace {
                            assert(t[x].0 == k);
                        } else if x < i {
                            assert(t[x].0 == k);
                        } else {
                            assert(t[x + 1].0 == k);
                        }
                    }
                }
            }
            assert forall|k: usize| #[trigger] m1.dom().contains(k) implies m1[k] == m0.insert(index, action)[k] by {
                if k == index {
                    lemma_entries_map_at(t, i as int);
                } else {
                    let x = choose|x: int| 0 <= x < s.len() && s[x].0 == k;
                    lemma_entries_map_at(s, x);
                    if replace {
                        lemma_entries_map_at(t, x);
                    } else if x < i {
                        lemma_entries_map_at(t, x);
                    } else {
                        assert(t[x + 1] == s[x]);
                        lemma_entries_map_at(t, x + 1);
                    }
                }
            }
            assert(m1 =~= m0.insert(index, action));
        }
    }

    /// Indices of the tracks that stay in the result, in increasing order.
    pub fn kept_indices(&self) -> (v: Vec<usize>)
        requires
            self.wf(),
        ensures
            forall|x: int, y: int| 0 <= x < y < v@.len() ==> v@[x] < v@[y],
            forall|k: usize|
                v@.contains(k) <==> (self.action_map().dom().contains(k) && !(
                self.action_map()[k] is Drop)),
    {
        let mut v: Vec<usize> = Vec::new();
        let mut i: usize = 0;
        while i < self.actions.len()
            invariant
                sorted_keys(self.actions@),
                i <= self.actions@.len(),
                forall|x: int, y: int| 0 <= x < y < v@.len() ==> v@[x] < v@[y],
                forall|x: int| #![trigger v@[x]] 0 <= x < v@.len() ==> exists|j: int| #![trigger self.actions@[j]] 0 <= j < i && self.actions@[j].0 == v@[x],
                forall|k: usize|
                    v@.contains(k) <==> exists|j: int|
                        0 <= j < i && self.actions@[j].0 == k && !(self.actions@[j].1 is Drop),
            decreases self.actions@.len() - i,
        {
            if !matches!(self.actions[i].1, TrackAction::Drop) {
                proof {
                    assert forall|x: int| 0 <= x < v@.len() implies v@[x] < self.actions@[i as int].0 by {
                        let j = choose|j: int| 0 <= j < i && #[trigger] self.actions@[j].0 == v@[x];
                    }
                }
                let ghost old_v = v@;
                v.push(self.actions[i].0);
                proof {
                    assert forall|k: usize|
                        v@.contains(k) <==> exists|j: int|
                            0 <= j < i + 1 && self.actions@[j].0 == k && !(self.actions@[j].1 is Drop) by {
                        if v@.contains(k) {
                            let x = choose|x: int| 0 <= x < v@.len() && v@[x] == k;
                            if x == old_v.len() {
                                assert(self.actions@[i as int].0 == k);
                            } else {
                                assert(old_v[x] == k);
                                assert(old_v.contains(k));
                            }
                        }
                        if exists|j: int| 0 <= j < i + 1 && self.actions@[j].0 == k && !(self.actions@[j].1 is Drop) {
                            let j = choose|j: int| 0 <= j < i + 1 && self.actions@[j].0 == k && !(self.actions@[j].1 is Drop);
                            if j == i {
                                assert(v@[old_v.len() as int] == k);
                            } else {
                                assert(old_v.contains(k));
                                let x = choose|x: int| 0 <= x < old_v.len() && old_v[x] == k;
                                assert(v@[x] == k);
                            }
                        }
                    }
                    assert forall|x: int| #![trigger v@[x]] 0 <= x < v@.len() implies exists|j: int| #![trigger self.actions@[j]] 0 <= j < i + 1 && self.actions@[j].0 == v@[x] by {
                        if x < old_v.len() {
                            assert(old_v[x] == v@[x]);
                            let j = choose|j: int| #![trigger self.actions@[j]] 0 <= j < i && self.actions@[j].0 == old_v[x];
                        } else {
                            assert(self.actions@[i as int].0 == v@[x]);
                        }
                    }
                }
            } else {
                proof {
                    assert forall|k: usize|
                        v@.contains(k) <==> exists|j: int|
                            0 <= j < i + 1 && self.actions@[j].0 == k && !(self.actions@[j].1 is Drop) by {
                        if exists|j: int| 0 <= j < i + 1 && self.actions@[j].0 == k && !(self.actions@[j].1 is Drop) {
                            let j = choose|j: int| 0 <= j < i + 1 && self.actions@[j].0 == k && !(self.actions@[j].1 is Drop);
                            assert(j != i);
                        }
                    }
                }
            }
            i = i + 1;
        }
        proof {
            assert forall|k: usize|
                v@.contains(k) <==> (self.action_map().dom().contains(k) && !(
                self.action_map()[k] is Drop)) by {
                if v@.contains(k) {
                    let j = choose|j: int| 0 <= j < i && self.actions@[j].0 == k && !(self.actions@[j].1 is Drop);
                    lemma_entries_map_at(self.actions@, j);
                }
                if self.action_map().dom().contains(k) && !(self.action_map()[k] is Drop) {
                    let j = choose|j: int| 0 <= j < self.actions@.len() && self.actions@[j].0 == k;
                    lemma_entries_map_at(self.actions@, j);
                }
            }
        }
        v
    }
}

/// A decision, once taken, is what the plan reports for that track, and
/// decisions about other tracks are left as they were.
pub proof fn law_set_action_then_action(p: Plan, q: Plan, index: usize, action: TrackAction, other: usize)
    requires
        p.wf(),
        q.action_map() == p.action_map().insert(index, action),
        other != index,
    ensures
        q.spec_action(index) == action,
        q.spec_action(other) == p.spec_action(other),
{
}

} // verus!
