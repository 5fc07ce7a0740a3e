//! Diagnostics about the plan: consequences of codec choices, Dolby Vision,
//! missing tracks and trimming.

use vstd::prelude::*;
use crate::codec::{CodecRegistry, EncodeCtx};
use crate::media::{first_track_where, is_video, ColorInfo, MediaInfo, TrackKind};
use crate::note::{notes_view, Level, Note, NoteTarget};
use crate::plan::{Plan, TrackAction};
use crate::text::owned;
use crate::units::Seconds;

verus! {

pub const DV_LOST_WARNING: &'static str = "Dolby Vision будет потерян, останется HDR10. \
                         На телевизоре без поддержки DV разницы не будет, \
                         на телевизоре с DV тёмные сцены станут чуть менее детальными.";

pub const DV_PROFILE5_BLOCKER: &'static str = "Dolby Vision Profile 5 нельзя перекодировать без сохранения RPU: \
                         без него цвет развалится в зелёно-фиолетовую кашу. \
                         Выберите профиль с сохранением DV или копируйте видео как есть.";

pub const HDR10_CARRIED_INFO: &'static str = "Метаданные HDR10 будут перенесены в результат — \
                     без них картинка на HDR-телевизоре стала бы блёклой.";

pub const NO_AUDIO_BLOCKER: &'static str = "Не осталось ни одной звуковой дорожки — фильм будет немым";

pub const NO_VIDEO_BLOCKER: &'static str = "Не осталось видеодорожки";

pub const KEYFRAME_CUT_WARNING: &'static str = "При копировании видео рез возможен только по ключевым кадрам — \
                     фактическая точка сдвинется на несколько секунд, она будет показана рядом";

pub const CREDITS_SAVING_INFO: &'static str = "Титры весят меньше среднего кадра, поэтому экономия от обрезки \
             обычно в разы ниже, чем доля отрезанного времени";

pub const EMPTY_TRIM_BLOCKER: &'static str = "Пустой диапазон обрезки";

pub type NoteView = (Level, NoteTarget, Seq<char>);

/// Whether any note is a blocker.
pub open spec fn spec_has_blockers(notes: Seq<NoteView>) -> bool {
    exists|i: int| 0 <= i < notes.len() && (#[trigger] notes[i]).0 == Level::Blocker
}

/// Whether any of the notes forbids building.
pub fn has_blockers(notes: &[Note]) -> (b: bool)
    ensures
        b == spec_has_blockers(notes_view(notes@)),
{
    let mut i: usize = 0;
    while i < notes.len()
        invariant
            i <= notes@.len(),
            forall|j: int| 0 <= j < i ==> (#[trigger] notes@[j]).level != Level::Blocker,
        decreases notes@.len() - i,
    {
        if notes[i].level == Level::Blocker {
            assert(notes_view(notes@)[i as int].0 == Level::Blocker);
            return true;
        }
        i = i + 1;
    }
    proof {
        if spec_has_blockers(notes_view(notes@)) {
            let j = choose|j: int| 0 <= j < notes_view(notes@).len() && (#[trigger] notes_view(notes@)[j]).0 == Level::Blocker;
            assert(notes@[j].level == Level::Blocker);
        }
    }
    false
}

/// The notes the codecs themselves give for the first `n` tracks: the codec
/// is the source of truth about the consequences of its use.
pub open spec fn codec_notes_upto(media: MediaInfo, plan: Plan, registry: CodecRegistry, n: int) -> Seq<
    NoteView,
>
    decreases n,
{
    if n <= 0 {
        Seq::empty()
    } else {
        let r = codec_notes_upto(media, plan, registry, n - 1);
        let t = media.tracks@[n - 1];
        match plan.spec_action(t.index) {
            TrackAction::Transcode { codec_id, opts } => match registry.spec_get(codec_id@) {
                Some(p) => r + p.spec_notes(
                    t,
                    opts,
                    Seconds { ms: plan.range.spec_duration_ms() as u64 },
                ),
                None => r,
            },
            _ => r,
        }
    }
}

/// Notes about Dolby Vision and HDR10 when the video is transcoded.
pub open spec fn colour_notes(media: MediaInfo, plan: Plan, registry: CodecRegistry) -> Seq<NoteView> {
    match first_track_where(media.tracks@, is_video()) {
        Some(v) => match plan.spec_action(v.index) {
            TrackAction::Transcode { codec_id, .. } => {
                let preserves = registry.spec_get(codec_id@) matches Some(p)
                    && p.spec_preserves_dolby_vision();
                let t = NoteTarget::Track(v.index);
                (if (media.color is DolbyVision) && !preserves {
                    if media.color.spec_survives_reencode_without_rpu() {
                        seq![(Level::Warning, t, DV_LOST_WARNING@)]
                    } else {
                        seq![(Level::Blocker, t, DV_PROFILE5_BLOCKER@)]
                    }
                } else {
                    Seq::empty()
                }) + (if !(media.color is DolbyVision) && media.color == ColorInfo::Hdr10 {
                    seq![(Level::Info, t, HDR10_CARRIED_INFO@)]
                } else {
                    Seq::empty()
                })
            },
            _ => Seq::empty(),
        },
        None => Seq::empty(),
    }
}

/// Whether a track of the kind is kept.
pub open spec fn keeps_kind(media: MediaInfo, plan: Plan, kind: TrackKind) -> bool {
    exists|i: int|
        0 <= i < media.tracks@.len() && (#[trigger] media.tracks@[i]).kind == kind && !(
        plan.spec_action(media.tracks@[i].index) is Drop)
}

/// Notes about trimming.
pub open spec fn trim_notes(media: MediaInfo, plan: Plan) -> Seq<NoteView> {
    if !plan.range.spec_is_full(media.duration_s) {
        (match first_track_where(media.tracks@, is_video()) {
            Some(v) => if plan.spec_action(v.index) is Copy {
                seq![(Level::Warning, NoteTarget::Trim, KEYFRAME_CUT_WARNING@)]
            } else {
                Seq::empty()
            },
            None => Seq::empty(),
        }) + seq![(Level::Info, NoteTarget::Trim, CREDITS_SAVING_INFO@)] + if plan.range.spec_duration_ms()
            == 0 {
            seq![(Level::Blocker, NoteTarget::Trim, EMPTY_TRIM_BLOCKER@)]
        } else {
            Seq::empty()
        }
    } else {
        Seq::empty()
    }
}

/// Everything `explain` says about a plan, in order.
pub open spec fn spec_explain(media: MediaInfo, plan: Plan, registry: CodecRegistry) -> Seq<NoteView> {
    codec_notes_upto(media, plan, registry, media.tracks@.len() as int) + colour_notes(
        media,
        plan,
        registry,
    ) + (if !keeps_kind(media, plan, TrackKind::Audio) {
        seq![(Level::Blocker, NoteTarget::Whole, NO_AUDIO_BLOCKER@)]
    } else {
        Seq::empty()
    }) + (if !keeps_kind(media, plan, TrackKind::Video) {
        seq![(Level::Blocker, NoteTarget::Whole, NO_VIDEO_BLOCKER@)]
    } else {
        Seq::empty()
    }) + trim_notes(media, plan)
}

fn keeps(media: &MediaInfo, plan: &Plan, kind: TrackKind) -> (b: bool)
    requires
        plan.wf(),
    ensures
        b == keeps_kind(*media, *plan, kind),
{
    let mut i: usize = 0;
    while i < media.tracks.len()
        invariant
            plan.wf(),
            i <= media.tracks@.len(),
            forall|j: int|
                0 <= j < i ==> !((#[trigger] media.tracks@[j]).kind == kind && !(plan.spec_action(
                    media.tracks@[j].index,
                ) is Drop)),
        decreases media.tracks@.len() - i,
    {
        let t = &media.tracks[i];
        if t.kind == kind && !matches!(plan.action(t.index), TrackAction::Drop) {
            return true;
        }
        i = i + 1;
    }
    false
}

fn codec_notes(media: &MediaInfo, plan: &Plan, registry: &CodecRegistry) -> (notes: Vec<Note>)
    requires
        plan.wf(),
        registry.wf(),
    ensures
        notes_view(notes@) == codec_notes_upto(*media, *plan, *registry, media.tracks@.len() as int),
{
    let mut notes: Vec<Note> = Vec::new();
    let duration = plan.range.duration_s();
    let mut i: usize = 0;
    while i < media.tracks.len()
        invariant
            plan.wf(),
            registry.wf(),
            duration.ms == plan.range.spec_duration_ms(),
            i <= media.tracks@.len(),
            notes_view(notes@) == codec_notes_upto(*media, *plan, *registry, i as int),
        decreases media.tracks@.len() - i,
    {
        let track = &media.tracks[i];
        if let TrackAction::Transcode { codec_id, opts } = plan.action(track.index) {
            if let Some(profile) = registry.get(codec_id.as_str()) {
                let ctx = EncodeCtx { src: track, opts, duration_s: duration };
                let mut more = profile.notes(&ctx);
                let ghost before = notes@;
                notes.append(&mut more);
                assert(notes_view(notes@) =~= notes_view(before) + profile.spec_notes(
                    *track,
                    *opts,
                    duration,
                ));
            }
        }
        i = i + 1;
    }
    notes
}

fn colour(media: &MediaInfo, plan: &Plan, registry: &CodecRegistry) -> (notes: Vec<Note>)
    requires
        plan.wf(),
        registry.wf(),
    ensures
        notes_view(notes@) == colour_notes(*media, *plan, *registry),
{
    let mut notes: Vec<Note> = Vec::new();
    if let Some(video) = media.video() {
        if let TrackAction::Transcode { codec_id, .. } = plan.action(video.index) {
            let preserves = match registry.get(codec_id.as_str()) {
                Some(p) => p.preserves_dolby_vision(),
                None => false,
            };
            if media.color.is_dolby_vision() && !preserves {
                if media.color.survives_reencode_without_rpu() {
                    notes.push(Note::warning(NoteTarget::Track(video.index), owned(DV_LOST_WARNING)));
                } else {
                    notes.push(
                        Note::blocker(NoteTarget::Track(video.index), owned(DV_PROFILE5_BLOCKER)),
                    );
                }
            }
            if !media.color.is_dolby_vision() && media.color == ColorInfo::Hdr10 {
                notes.push(Note::info(NoteTarget::Track(video.index), owned(HDR10_CARRIED_INFO)));
            }
        }
    }
    assert(notes_view(notes@) =~= colour_notes(*media, *plan, *registry));
    notes
}

fn trimming(media: &MediaInfo, plan: &Plan) -> (notes: Vec<Note>)
    requires
        plan.wf(),
    ensures
        notes_view(notes@) == trim_notes(*media, *plan),
{
    let mut notes: Vec<Note> = Vec::new();
    if !plan.range.is_full(media.duration_s) {
        if let Some(video) = media.video() {
            if matches!(plan.action(video.index), TrackAction::Copy) {
                notes.push(Note::warning(NoteTarget::Trim, owned(KEYFRAME_CUT_WARNING)));
            }
        }
        notes.push(Note::info(NoteTarget::Trim, owned(CREDITS_SAVING_INFO)));
        if plan.range.duration_s().ms == 0 {
            notes.push(Note::blocker(NoteTarget::Trim, owned(EMPTY_TRIM_BLOCKER)));
        }
    }
    assert(notes_view(notes@) =~= trim_notes(*media, *plan));
    notes
}

/// Blockers for a film left without audio or without video.
pub open spec fn missing_notes(media: MediaInfo, plan: Plan) -> Seq<NoteView> {
    (if !keeps_kind(media, plan, TrackKind::Audio) {
        seq![(Level::Blocker, NoteTarget::Whole, NO_AUDIO_BLOCKER@)]
    } else {
        Seq::empty()
    }) + (if !keeps_kind(media, plan, TrackKind::Video) {
        seq![(Level::Blocker, NoteTarget::Whole, NO_VIDEO_BLOCKER@)]
    } else {
        Seq::empty()
    })
}

fn missing(media: &MediaInfo, plan: &Plan) -> (notes: Vec<Note>)
    requires
        plan.wf(),
    ensures
        notes_view(notes@) == missing_notes(*media, *plan),
{
    let mut notes: Vec<Note> = Vec::new();
    if !keeps(media, plan, TrackKind::Audio) {
        notes.push(Note::blocker(NoteTarget::Whole, owned(NO_AUDIO_BLOCKER)));
    }
    if !keeps(media, plan, TrackKind::Video) {
        notes.push(Note::blocker(NoteTarget::Whole, owned(NO_VIDEO_BLOCKER)));
    }
    assert(notes_view(notes@) =~= missing_notes(*media, *plan));
    notes
}

proof fn lemma_notes_view_append(a: Seq<Note>, b: Seq<Note>)
    ensures
        notes_view(a + b) == notes_view(a) + notes_view(b),
{
    assert(notes_view(a + b) =~= notes_view(a) + notes_view(b));
}

/// All notes about the plan: codec consequences, colour, missing audio or
/// video, trimming.
#[verifier::rlimit(30)]
pub fn explain(media: &MediaInfo, plan: &Plan, registry: &CodecRegistry) -> (notes: Vec<Note>)
    requires
        plan.wf(),
        registry.wf(),
    ensures
        notes_view(notes@) == spec_explain(*media, *plan, *registry),
{
    let mut notes = codec_notes(media, plan, registry);
    let ghost n0 = notes@;
    let mut more = colour(media, plan, registry);
    let ghost m0 = more@;
    notes.append(&mut more);
    proof {
        lemma_notes_view_append(n0, m0);
    }
    let ghost n1 = notes@;
    let mut gone = missing(media, plan);
    let ghost m1 = gone@;
    notes.append(&mut gone);
    proof {
        lemma_notes_view_append(n1, m1);
    }
    let ghost n2 = notes@;
    let mut last = trimming(media, plan);
    let ghost m2 = last@;
    notes.append(&mut last);
    proof {
        lemma_notes_view_append(n2, m2);
        assert(spec_explain(*media, *plan, *registry) =~= codec_notes_upto(
            *media,
            *plan,
            *registry,
            media.tracks@.len() as int,
        ) + colour_notes(*media, *plan, *registry) + missing_notes(*media, *plan) + trim_notes(
            *media,
            *plan,
        ));
    }
    notes
}

/// A film must keep at least one audio track and its video: a plan that
/// drops all audio, or the video, can never be built.
pub proof fn law_missing_audio_or_video_blocks(media: MediaInfo, plan: Plan, registry: CodecRegistry)
    ensures
        !keeps_kind(media, plan, TrackKind::Audio) || !keeps_kind(media, plan, TrackKind::Video)
            ==> spec_has_blockers(spec_explain(media, plan, registry)),
{
    let a = codec_notes_upto(media, plan, registry, media.tracks@.len() as int) + colour_notes(
        media,
        plan,
        registry,
    );
    let notes = spec_explain(media, plan, registry);
    if !keeps_kind(media, plan, TrackKind::Audio) {
        assert(notes[a.len() as int].0 == Level::Blocker);
    } else if !keeps_kind(media, plan, TrackKind::Video) {
        assert(notes[a.len() as int].0 == Level::Blocker);
    }
}

/// Re-encoding Dolby Vision profile 5 video with a profile that drops the
/// RPU is forbidden.
pub proof fn law_profile_five_reencode_blocks(media: MediaInfo, plan: Plan, registry: CodecRegistry)
    requires
        first_track_where(media.tracks@, is_video()) matches Some(v) && plan.spec_action(v.index) matches TrackAction::Transcode { codec_id, .. }
            && !(registry.spec_get(codec_id@) matches Some(p) && p.spec_preserves_dolby_vision()),
        media.color is DolbyVision,
        !media.color.spec_survives_reencode_without_rpu(),
    ensures
        spec_has_blockers(spec_explain(media, plan, registry)),
{
    let c = codec_notes_upto(media, plan, registry, media.tracks@.len() as int);
    let notes = spec_explain(media, plan, registry);
    assert(notes[c.len() as int].0 == Level::Blocker);
}

/// Every note a codec gives is about its own track, and none is a blocker.
proof fn lemma_codec_notes_target_tracks(media: MediaInfo, plan: Plan, registry: CodecRegistry, n: int)
    ensures
        forall|i: int|
            0 <= i < codec_notes_upto(media, plan, registry, n).len() ==> (#[trigger] codec_notes_upto(
                media,
                plan,
                registry,
                n,
            )[i]).1 is Track && codec_notes_upto(media, plan, registry, n)[i].0 != Level::Blocker,
    decreases n,
{
    if n > 0 {
        lemma_codec_notes_target_tracks(media, plan, registry, n - 1);
        let r = codec_notes_upto(media, plan, registry, n - 1);
        let s = codec_notes_upto(media, plan, registry, n);
        let t = media.tracks@[n - 1];
        if let TrackAction::Transcode { codec_id, opts } = plan.spec_action(t.index) {
            if let Some(p) = registry.spec_get(codec_id@) {
                let more = p.spec_notes(t, opts, Seconds { ms: plan.range.spec_duration_ms() as u64 });
                assert(forall|j: int| 0 <= j < more.len() ==> (#[trigger] more[j]).1 is Track && more[j].0 != Level::Blocker);
                assert forall|i: int| 0 <= i < s.len() implies (#[trigger] s[i]).1 is Track && s[i].0 != Level::Blocker by {
                    if i < r.len() {
                        assert(s[i] == r[i]);
                    } else {
                        assert(s[i] == more[i - r.len()]);
                    }
                }
            }
        }
    }
}

proof fn lemma_blocker_texts_differ()
    ensures
        NO_AUDIO_BLOCKER@ != NO_VIDEO_BLOCKER@,
{
    reveal_strlit("Не осталось ни одной звуковой дорожки — фильм будет немым");
    reveal_strlit("Не осталось видеодорожки");
    assert(NO_AUDIO_BLOCKER@ == "Не осталось ни одной звуковой дорожки — фильм будет немым"@);
    assert(NO_VIDEO_BLOCKER@ == "Не осталось видеодорожки"@);
    assert(NO_AUDIO_BLOCKER@.len() != NO_VIDEO_BLOCKER@.len());
}

/// The notes are the codec notes, the colour notes, the missing-track
/// blockers and the trim notes, one group after the other.
#[verifier::rlimit(50)]
proof fn lemma_explain_parts(media: MediaInfo, plan: Plan, registry: CodecRegistry)
    ensures
        spec_explain(media, plan, registry) == codec_notes_upto(
            media,
            plan,
            registry,
            media.tracks@.len() as int,
        ) + colour_notes(media, plan, registry) + missing_notes(media, plan) + trim_notes(media, plan),
{
    assert(spec_explain(media, plan, registry) =~= codec_notes_upto(
        media,
        plan,
        registry,
        media.tracks@.len() as int,
    ) + colour_notes(media, plan, registry) + missing_notes(media, plan) + trim_notes(media, plan));
}

/// In four groups one after the other, an entry that none of the first,
/// second and fourth groups can hold lies in the third.
proof fn lemma_in_third_group(a: Seq<NoteView>, b: Seq<NoteView>, m: Seq<NoteView>, t: Seq<NoteView>, i: int)
    requires
        0 <= i < (a + b + m + t).len(),
        forall|j: int| 0 <= j < a.len() ==> (#[trigger] a[j]).1 is Track,
        forall|j: int| 0 <= j < b.len() ==> (#[trigger] b[j]).1 is Track,
        forall|j: int| 0 <= j < t.len() ==> (#[trigger] t[j]).1 is Trim,
        (a + b + m + t)[i].1 is Whole,
    ensures
        a.len() + b.len() <= i < a.len() + b.len() + m.len(),
        (a + b + m + t)[i] == m[i - a.len() - b.len()],
{
    let s = a + b + m + t;
    if i < a.len() {
        assert(s[i] == a[i]);
    } else if i < a.len() + b.len() {
        assert(s[i] == b[i - a.len()]);
    } else if i >= a.len() + b.len() + m.len() {
        assert(s[i] == t[i - a.len() - b.len() - m.len()]);
    }
}

/// Four groups of notes where only the third speaks of the whole film, and
/// the third holds `audio` if `no_audio` and then `video` if `no_video`.
proof fn lemma_whole_group(
    c: Seq<NoteView>,
    col: Seq<NoteView>,
    m: Seq<NoteView>,
    tr: Seq<NoteView>,
    no_audio: bool,
    no_video: bool,
    audio: NoteView,
    video: NoteView,
)
    requires
        forall|j: int| 0 <= j < c.len() ==> (#[trigger] c[j]).1 is Track,
        forall|j: int| 0 <= j < col.len() ==> (#[trigger] col[j]).1 is Track,
        forall|j: int| 0 <= j < tr.len() ==> (#[trigger] tr[j]).1 is Trim,
        m == (if no_audio { seq![audio] } else { Seq::empty() }) + (if no_video { seq![video] } else { Seq::empty() }),
        audio != video,
        audio.1 is Whole,
        video.1 is Whole,
    ensures
        ({
            let notes = c + col + m + tr;
            &&& (exists|i: int| 0 <= i < notes.len() && notes[i] == audio) <==> no_audio
            &&& (exists|i: int| 0 <= i < notes.len() && notes[i] == video) <==> no_video
            &&& forall|i: int| 0 <= i < notes.len() && (#[trigger] notes[i]).1 is Whole ==> notes[i]
                == audio || notes[i] == video
        }),
{
    let notes = c + col + m + tr;
    let base: int = c.len() as int + col.len() as int;
    assert forall|i: int| 0 <= i < notes.len() && (#[trigger] notes[i]).1 is Whole implies notes[i]
        == audio || notes[i] == video by {
        lemma_in_third_group(c, col, m, tr, i);
    }
    if no_audio {
        assert(notes[base] == m[0]);
    }
    if no_video {
        let k: int = if no_audio { 1 } else { 0 };
        assert(notes[base + k] == m[k]);
    }
    if exists|i: int| 0 <= i < notes.len() && notes[i] == audio {
        let i = choose|i: int| 0 <= i < notes.len() && notes[i] == audio;
        lemma_in_third_group(c, col, m, tr, i);
    }
    if exists|i: int| 0 <= i < notes.len() && notes[i] == video {
        let i = choose|i: int| 0 <= i < notes.len() && notes[i] == video;
        lemma_in_third_group(c, col, m, tr, i);
    }
}

/// The notes about the whole film are exactly the two blockers for missing
/// sound and missing picture: the one about sound is there exactly when no
/// audio track is kept, the one about picture exactly when the video is
/// not kept.
#[verifier::rlimit(50)]
pub proof fn law_whole_film_blockers(media: MediaInfo, plan: Plan, registry: CodecRegistry)
    ensures
        ({
            let notes = spec_explain(media, plan, registry);
            &&& (exists|i: int| 0 <= i < notes.len() && notes[i] == (Level::Blocker, NoteTarget::Whole, NO_AUDIO_BLOCKER@))
                <==> !keeps_kind(media, plan, TrackKind::Audio)
            &&& (exists|i: int| 0 <= i < notes.len() && notes[i] == (Level::Blocker, NoteTarget::Whole, NO_VIDEO_BLOCKER@))
                <==> !keeps_kind(media, plan, TrackKind::Video)
            &&& forall|i: int| 0 <= i < notes.len() && (#[trigger] notes[i]).1 is Whole ==> notes[i]
                == (Level::Blocker, NoteTarget::Whole, NO_AUDIO_BLOCKER@) || notes[i] == (
                Level::Blocker,
                NoteTarget::Whole,
                NO_VIDEO_BLOCKER@,
            )
        }),
{
    lemma_blocker_texts_differ();
    lemma_explain_parts(media, plan, registry);
    let n = media.tracks@.len() as int;
    lemma_codec_notes_target_tracks(media, plan, registry, n);
    let col = colour_notes(media, plan, registry);
    let tr = trim_notes(media, plan);
    assert(forall|j: int| 0 <= j < col.len() ==> (#[trigger] col[j]).1 is Track);
    assert(forall|j: int| 0 <= j < tr.len() ==> (#[trigger] tr[j]).1 is Trim);
    let audio = (Level::Blocker, NoteTarget::Whole, NO_AUDIO_BLOCKER@);
    let video = (Level::Blocker, NoteTarget::Whole, NO_VIDEO_BLOCKER@);
    let no_audio = !keeps_kind(media, plan, TrackKind::Audio);
    let no_video = !keeps_kind(media, plan, TrackKind::Video);
    assert(missing_notes(media, plan) =~= (if no_audio { seq![audio] } else { Seq::empty() }) + (if no_video { seq![video] } else { Seq::empty() }));
    lemma_whole_group(
        codec_notes_upto(media, plan, registry, n),
        col,
        missing_notes(media, plan),
        tr,
        no_audio,
        no_video,
        audio,
        video,
    );
}

/// In four groups one after the other, an entry that none of the first
/// three groups can hold lies in the fourth.
proof fn lemma_in_fourth_group(a: Seq<NoteView>, b: Seq<NoteView>, m: Seq<NoteView>, t: Seq<NoteView>, i: int)
    requires
        0 <= i < (a + b + m + t).len(),
        forall|j: int| 0 <= j < a.len() ==> (#[trigger] a[j]).1 is Track,
        forall|j: int| 0 <= j < b.len() ==> (#[trigger] b[j]).1 is Track,
        forall|j: int| 0 <= j < m.len() ==> (#[trigger] m[j]).1 is Whole,
        (a + b + m + t)[i].1 is Trim,
    ensures
        a.len() + b.len() + m.len() <= i,
        (a + b + m + t)[i] == t[i - a.len() - b.len() - m.len()],
{
    let s = a + b + m + t;
    if i < a.len() {
        assert(s[i] == a[i]);
    } else if i < a.len() + b.len() {
        assert(s[i] == b[i - a.len()]);
    } else if i < a.len() + b.len() + m.len() {
        assert(s[i] == m[i - a.len() - b.len()]);
    }
}

/// Whether the video is copied as it is.
pub open spec fn video_copied(media: MediaInfo, plan: Plan) -> bool {
    first_track_where(media.tracks@, is_video()) matches Some(v) && plan.spec_action(v.index) is Copy
}

/// The trim notes of a trimmed plan: the keyframe warning when the video is
/// copied, the note on credits, and a blocker for an empty range.
proof fn lemma_trim_group(
    c: Seq<NoteView>,
    col: Seq<NoteView>,
    m: Seq<NoteView>,
    tr: Seq<NoteView>,
    trimmed: bool,
    copied: bool,
    warn: NoteView,
    info: NoteView,
    tail: Seq<NoteView>,
)
    requires
        forall|j: int| 0 <= j < c.len() ==> (#[trigger] c[j]).1 is Track,
        forall|j: int| 0 <= j < col.len() ==> (#[trigger] col[j]).1 is Track,
        forall|j: int| 0 <= j < m.len() ==> (#[trigger] m[j]).1 is Whole,
        tr == (if trimmed { (if copied { seq![warn] } else { Seq::empty() }) + seq![info] + tail } else { Seq::empty() }),
        warn.0 == Level::Warning && warn.1 is Trim,
        info.0 == Level::Info && info.1 is Trim,
        forall|j: int| 0 <= j < tail.len() ==> (#[trigger] tail[j]).0 == Level::Blocker,
    ensures
        ({
            let notes = c + col + m + tr;
            &&& (exists|i: int| 0 <= i < notes.len() && (#[trigger] notes[i]).1 is Trim) <==> trimmed
            &&& (exists|i: int| 0 <= i < notes.len() && (#[trigger] notes[i]).1 is Trim && notes[i].0
                == Level::Warning) <==> trimmed && copied
        }),
{
    let notes = c + col + m + tr;
    let base: int = c.len() as int + col.len() as int + m.len() as int;
    if trimmed {
        let k: int = if copied { 1 } else { 0 };
        assert(tr[k] == info);
        assert(notes[base + k] == tr[k]);
        if copied {
            assert(tr[0] == warn);
            assert(notes[base] == tr[0]);
        }
    }
    if exists|i: int| 0 <= i < notes.len() && (#[trigger] notes[i]).1 is Trim {
        let i = choose|i: int| 0 <= i < notes.len() && (#[trigger] notes[i]).1 is Trim;
        lemma_in_fourth_group(c, col, m, tr, i);
    }
    if exists|i: int| 0 <= i < notes.len() && (#[trigger] notes[i]).1 is Trim && notes[i].0 == Level::Warning {
        let i = choose|i: int| 0 <= i < notes.len() && (#[trigger] notes[i]).1 is Trim && notes[i].0
            == Level::Warning;
        lemma_in_fourth_group(c, col, m, tr, i);
        let j = i - base;
        if trimmed && !copied {
            if j == 0 {
                assert(tr[j] == info);
            } else {
                assert(tr[j] == tail[j - 1]);
            }
        }
        if trimmed && copied && j > 0 {
            if j == 1 {
                assert(tr[j] == info);
            } else {
                assert(tr[j] == tail[j - 2]);
            }
        }
    }
}

/// Trimming is always explained: notes about the trim appear exactly when
/// the plan keeps less than the whole film, and among them the warning about
/// cuts at keyframes exactly when the video is also copied as it is.
#[verifier::rlimit(50)]
pub proof fn law_trim_notes(media: MediaInfo, plan: Plan, registry: CodecRegistry)
    ensures
        ({
            let notes = spec_explain(media, plan, registry);
            let trimmed = !plan.range.spec_is_full(media.duration_s);
            &&& (exists|i: int| 0 <= i < notes.len() && (#[trigger] notes[i]).1 is Trim) <==> trimmed
            &&& (exists|i: int| 0 <= i < notes.len() && (#[trigger] notes[i]).1 is Trim && notes[i].0
                == Level::Warning) <==> trimmed && video_copied(media, plan)
        }),
{
    lemma_explain_parts(media, plan, registry);
    let n = media.tracks@.len() as int;
    lemma_codec_notes_target_tracks(media, plan, registry, n);
    let col = colour_notes(media, plan, registry);
    let m = missing_notes(media, plan);
    assert(forall|j: int| 0 <= j < col.len() ==> (#[trigger] col[j]).1 is Track);
    assert(forall|j: int| 0 <= j < m.len() ==> (#[trigger] m[j]).1 is Whole);
    let trimmed = !plan.range.spec_is_full(media.duration_s);
    let copied = video_copied(media, plan);
    let warn = (Level::Warning, NoteTarget::Trim, KEYFRAME_CUT_WARNING@);
    let info = (Level::Info, NoteTarget::Trim, CREDITS_SAVING_INFO@);
    let tail: Seq<NoteView> = if plan.range.spec_duration_ms() == 0 {
        seq![(Level::Blocker, NoteTarget::Trim, EMPTY_TRIM_BLOCKER@)]
    } else {
        Seq::empty()
    };
    assert(trim_notes(media, plan) =~= (if trimmed { (if copied { seq![warn] } else { Seq::empty() }) + seq![info] + tail } else { Seq::empty() }));
    lemma_trim_group(codec_notes_upto(media, plan, registry, n), col, m, trim_notes(media, plan), trimmed, copied, warn, info, tail);
}

/// The codec notes depend on the tracks and the plan alone.
proof fn lemma_codec_notes_same_tracks(
    media: MediaInfo,
    other: MediaInfo,
    plan: Plan,
    registry: CodecRegistry,
    n: int,
)
    requires
        other.tracks@ == media.tracks@,
    ensures
        codec_notes_upto(other, plan, registry, n) == codec_notes_upto(media, plan, registry, n),
    decreases n,
{
    if n > 0 {
        lemma_codec_notes_same_tracks(media, other, plan, registry, n - 1);
    }
}

/// The video is transcoded with a known profile that keeps the Dolby Vision layer.
pub open spec fn keeps_dolby_vision_layer(media: MediaInfo, plan: Plan, registry: CodecRegistry) -> bool {
    &&& first_track_where(media.tracks@, is_video()) matches Some(v)
    &&& plan.spec_action(v.index) matches TrackAction::Transcode { codec_id, .. }
    &&& registry.spec_get(codec_id@) matches Some(p)
    &&& p.spec_preserves_dolby_vision()
}

/// Losing the Dolby Vision layer is spoken of only when it is lost. When the
/// video is transcoded with a profile that keeps the layer, no note blocks a
/// track, and a Dolby Vision film gets exactly the notes that the same film
/// in SDR would get: neither the Profile 5 blocker nor the warning that
/// Dolby Vision is lost. When the video of a Dolby Vision film is transcoded
/// with a profile that drops the layer, the video gets that warning if its
/// base layer is HDR10 and that blocker otherwise.
pub proof fn law_dolby_vision_notes_only_when_the_layer_is_lost(
    media: MediaInfo,
    plan: Plan,
    registry: CodecRegistry,
    sdr: MediaInfo,
)
    requires
        sdr.tracks@ == media.tracks@,
        sdr.duration_s == media.duration_s,
        sdr.color == ColorInfo::Sdr,
    ensures
        ({
            let notes = spec_explain(media, plan, registry);
            &&& keeps_dolby_vision_layer(media, plan, registry) ==> forall|i: int|
                0 <= i < notes.len() && (#[trigger] notes[i]).0 == Level::Blocker ==> !(
                notes[i].1 is Track)
            &&& (keeps_dolby_vision_layer(media, plan, registry) && media.color is DolbyVision)
                ==> notes == spec_explain(sdr, plan, registry)
            &&& ({
                let v = first_track_where(media.tracks@, is_video())->0;
                (media.color is DolbyVision && first_track_where(media.tracks@, is_video()) is Some
                    && plan.spec_action(v.index) is Transcode && !keeps_dolby_vision_layer(
                    media,
                    plan,
                    registry,
                )) ==> notes.contains(
                if media.color.spec_survives_reencode_without_rpu() {
                    (Level::Warning, NoteTarget::Track(v.index), DV_LOST_WARNING@)
                } else {
                    (Level::Blocker, NoteTarget::Track(v.index), DV_PROFILE5_BLOCKER@)
                    },
                )
            })
        }),
{
    lemma_kept_layer_blocks_no_track(media, plan, registry);
    lemma_kept_layer_notes_as_sdr(media, plan, registry, sdr);
    lemma_lost_layer_is_noted(media, plan, registry);
}

spec fn blocks_no_track(n: NoteView) -> bool {
    n.0 == Level::Blocker ==> !(n.1 is Track)
}

proof fn lemma_groups_block_no_track(a: Seq<NoteView>, c: Seq<NoteView>, m: Seq<NoteView>, t: Seq<NoteView>)
    requires
        forall|i: int| 0 <= i < a.len() ==> blocks_no_track(#[trigger] a[i]),
        forall|i: int| 0 <= i < c.len() ==> blocks_no_track(#[trigger] c[i]),
        forall|i: int| 0 <= i < m.len() ==> blocks_no_track(#[trigger] m[i]),
        forall|i: int| 0 <= i < t.len() ==> blocks_no_track(#[trigger] t[i]),
    ensures
        forall|i: int| 0 <= i < (a + c + m + t).len() ==> blocks_no_track(#[trigger] (a + c + m + t)[i]),
{
    let s = a + c + m + t;
    assert forall|i: int| 0 <= i < s.len() implies blocks_no_track(#[trigger] s[i]) by {
        if i < a.len() {
            assert(s[i] == a[i]);
        } else if i < a.len() + c.len() {
            assert(s[i] == c[i - a.len()]);
        } else if i < a.len() + c.len() + m.len() {
            assert(s[i] == m[i - a.len() - c.len()]);
        } else {
            assert(s[i] == t[i - a.len() - c.len() - m.len()]);
        }
    }
}

proof fn lemma_kept_layer_colour_notes(media: MediaInfo, plan: Plan, registry: CodecRegistry)
    requires
        keeps_dolby_vision_layer(media, plan, registry),
    ensures
        forall|i: int|
            0 <= i < colour_notes(media, plan, registry).len() ==> blocks_no_track(
                #[trigger] colour_notes(media, plan, registry)[i],
            ),
{
    let c = colour_notes(media, plan, registry);
    assert(c.len() == 0 || (c.len() == 1 && c[0].0 == Level::Info));
}

proof fn lemma_missing_and_trim_block_no_track(media: MediaInfo, plan: Plan)
    ensures
        forall|i: int|
            0 <= i < missing_notes(media, plan).len() ==> blocks_no_track(
                #[trigger] missing_notes(media, plan)[i],
            ),
        forall|i: int|
            0 <= i < trim_notes(media, plan).len() ==> blocks_no_track(#[trigger] trim_notes(media, plan)[i]),
{
    let m = missing_notes(media, plan);
    assert(forall|i: int| 0 <= i < m.len() ==> (#[trigger] m[i]).1 == NoteTarget::Whole);
    let t = trim_notes(media, plan);
    assert(forall|i: int| 0 <= i < t.len() ==> (#[trigger] t[i]).1 == NoteTarget::Trim);
}

proof fn lemma_kept_layer_blocks_no_track(media: MediaInfo, plan: Plan, registry: CodecRegistry)
    ensures
        keeps_dolby_vision_layer(media, plan, registry) ==> forall|i: int|
            0 <= i < spec_explain(media, plan, registry).len() && (#[trigger] spec_explain(
                media,
                plan,
                registry,
            )[i]).0 == Level::Blocker ==> !(spec_explain(media, plan, registry)[i].1 is Track),
{
    let n = media.tracks@.len() as int;
    lemma_explain_parts(media, plan, registry);
    lemma_codec_notes_target_tracks(media, plan, registry, n);
    let a = codec_notes_upto(media, plan, registry, n);
    let c = colour_notes(media, plan, registry);
    let m = missing_notes(media, plan);
    let t = trim_notes(media, plan);
    if keeps_dolby_vision_layer(media, plan, registry) {
        lemma_kept_layer_colour_notes(media, plan, registry);
        lemma_missing_and_trim_block_no_track(media, plan);
        assert(forall|i: int| 0 <= i < a.len() ==> blocks_no_track(#[trigger] a[i]));
        lemma_groups_block_no_track(a, c, m, t);
    }
}

proof fn lemma_kept_layer_notes_as_sdr(media: MediaInfo, plan: Plan, registry: CodecRegistry, sdr: MediaInfo)
    requires
        sdr.tracks@ == media.tracks@,
        sdr.duration_s == media.duration_s,
        sdr.color == ColorInfo::Sdr,
    ensures
        (keeps_dolby_vision_layer(media, plan, registry) && media.color is DolbyVision) ==> spec_explain(
            media,
            plan,
            registry,
        ) == spec_explain(sdr, plan, registry),
{
    let n = media.tracks@.len() as int;
    lemma_explain_parts(media, plan, registry);
    lemma_explain_parts(sdr, plan, registry);
    lemma_codec_notes_same_tracks(media, sdr, plan, registry, n);
    if keeps_dolby_vision_layer(media, plan, registry) && media.color is DolbyVision {
        assert(colour_notes(media, plan, registry) =~= Seq::<NoteView>::empty());
        assert(colour_notes(sdr, plan, registry) =~= Seq::<NoteView>::empty());
        assert(missing_notes(sdr, plan) == missing_notes(media, plan));
        assert(trim_notes(sdr, plan) == trim_notes(media, plan));
    }
}

proof fn lemma_lost_layer_is_noted(media: MediaInfo, plan: Plan, registry: CodecRegistry)
    ensures
        ({
            let v = first_track_where(media.tracks@, is_video())->0;
            (media.color is DolbyVision && first_track_where(media.tracks@, is_video()) is Some
                && plan.spec_action(v.index) is Transcode && !keeps_dolby_vision_layer(
                media,
                plan,
                registry,
            )) ==> spec_explain(media, plan, registry).contains(
                if media.color.spec_survives_reencode_without_rpu() {
                    (Level::Warning, NoteTarget::Track(v.index), DV_LOST_WARNING@)
                } else {
                    (Level::Blocker, NoteTarget::Track(v.index), DV_PROFILE5_BLOCKER@)
                },
            )
        }),
{
    let n = media.tracks@.len() as int;
    lemma_explain_parts(media, plan, registry);
    let a = codec_notes_upto(media, plan, registry, n);
    let c = colour_notes(media, plan, registry);
    let notes = spec_explain(media, plan, registry);
    let v = first_track_where(media.tracks@, is_video())->0;
    if media.color is DolbyVision && first_track_where(media.tracks@, is_video()) is Some
        && plan.spec_action(v.index) is Transcode && !keeps_dolby_vision_layer(media, plan, registry) {
        assert(notes[a.len() as int] == c[0]);
    }
}
} // verus!
