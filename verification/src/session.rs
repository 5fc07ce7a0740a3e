//! The state of one working session: the opened file, the plan being edited,
//! its estimate and diagnostics, and the progress of a running build. Every
//! change comes in as an event; the estimate and the notes are recomputed
//! after each one.

use vstd::prelude::*;
use crate::codec::CodecRegistry;
use crate::compile::{compile, needs_dv_chain, spec_compile, spec_needs_dv_chain, step_view, steps_view, BuildRequest, PreparedFile, Step};
use crate::estimate::{breakdown_matches, estimate_checked, estimate_fits, SizeBreakdown, Verdict};
use crate::explain::{explain, has_blockers, spec_explain, spec_has_blockers};
use crate::media::{first_track_where, has_index, MediaInfo};
use crate::note::{notes_view, Note};
use crate::plan::{Opts, Plan, Target, TargetSource, TimeRange, TrackAction};
use crate::profile::{samples_bounded, BitrateProfile};
use crate::runner::{capped_push, push_capped, ProgressEvent};
use crate::text::{clone_strings, extend_strings, owned, str_eq, views};
use crate::units::Seconds;

verus! {

#[derive(Debug, Clone, Copy, PartialEq, Eq, Structural)]
pub enum Phase {
    /// No file yet.
    Empty,
    /// A file is open and the plan is being edited.
    Setup,
    Running,
    Done,
    Failed,
}

/// Something that changes the session.
#[derive(Debug)]
pub enum SessionEvent {
    FileOpened(MediaInfo),
    TargetChosen(Target),
    TrackActionChanged { index: usize, action: TrackAction },
    TrimChanged { start_s: Seconds, end_s: Seconds },
    ProfileReady(BitrateProfile),
    Progress(ProgressEvent),
}

/// How many log lines are kept; older lines are dropped first.
pub const LOG_CAPACITY: usize = 500;

/// Capacity of the target a freshly opened file is planned for.
pub const DEFAULT_TARGET_BYTES: u64 = 50_050_629_632;

pub struct Session {
    pub phase: Phase,
    pub media: Option<MediaInfo>,
    pub plan: Option<Plan>,
    pub profile: Option<BitrateProfile>,
    pub breakdown: Option<SizeBreakdown>,
    pub notes: Vec<Note>,
    pub steps: Vec<Step>,
    pub log: Vec<String>,
    pub current_step: Option<&'static str>,
    pub position_s: Seconds,
    pub bytes_written: u64,
    pub error: Option<String>,
    pub registry: CodecRegistry,
}

/// The plan a freshly opened file starts with: every track copied, the whole
/// film, the given target.
pub open spec fn initial_plan(p: Plan, media: MediaInfo, target: Target) -> bool {
    &&& p.wf()
    &&& p.range.start_s.ms == 0
    &&& p.range.end_s == media.duration_s
    &&& p.target == target
    &&& forall|k: usize|
        p.action_map().dom().contains(k) <==> exists|i: int|
            0 <= i < media.tracks@.len() && media.tracks@[i].index == k
    &&& forall|k: usize| #[trigger]
        p.action_map().dom().contains(k) ==> p.action_map()[k] == TrackAction::Copy
}

/// The target a newly opened file is planned for: the current one, or the
/// dual-layer BD-R preset when there is no plan yet.
pub open spec fn next_target(plan: Option<Plan>, t: Target) -> bool {
    match plan {
        Some(p) => t == p.target,
        None => t.capacity_bytes == DEFAULT_TARGET_BYTES && (t.source matches TargetSource::Preset(
            name,
        ) && name@ == "BD-R DL 50 ГБ"@),
    }
}

/// `a` if it is set, else `b`.
pub open spec fn or_else<T>(a: Option<T>, b: Option<T>) -> Option<T> {
    match a {
        Some(x) => Some(x),
        None => b,
    }
}

/// A transcode without a bitrate gets the codec's defaults for whatever it
/// leaves open (what the user set is kept); other actions stay as they are.
pub open spec fn filled_action(
    media: Option<MediaInfo>,
    registry: CodecRegistry,
    index: usize,
    action: TrackAction,
) -> TrackAction {
    match action {
        TrackAction::Transcode { codec_id, opts } => match media {
            Some(m) => match first_track_where(m.tracks@, has_index(index)) {
                Some(track) => if opts.bitrate_bps is None {
                    match registry.spec_get(codec_id@) {
                        Some(profile) => {
                            let d = profile.spec_default_opts(track);
                            TrackAction::Transcode {
                                codec_id,
                                opts: Opts {
                                    bitrate_bps: or_else(opts.bitrate_bps, d.bitrate_bps),
                                    channels: or_else(opts.channels, d.channels),
                                    height: or_else(opts.height, d.height),
                                },
                            }
                        },
                        None => action,
                    }
                } else {
                    action
                },
                None => action,
            },
            None => action,
        },
        _ => action,
    }
}

/// The profile as the estimate takes it.
pub open spec fn profile_ref<'a>(p: &'a Option<BitrateProfile>) -> Option<&'a BitrateProfile> {
    match p {
        Some(x) => Some(x),
        None => None,
    }
}

impl Session {
    /// The registry is well-formed, so is the plan, and the profile stays
    /// within the bounds the estimate works in.
    pub open spec fn wf(self) -> bool {
        &&& self.registry.wf()
        &&& (self.plan matches Some(p) ==> p.wf())
        &&& (self.profile matches Some(pr) ==> samples_bounded(pr.samples@))
    }

    /// The estimate and the notes agree with the media and the plan (when
    /// both are there): the breakdown exists exactly when its byte counts fit
    /// in 64 bits.
    pub open spec fn recomputed_from(self, before: Session) -> bool {
        match (self.media, self.plan) {
            (Some(m), Some(p)) => {
                &&& (self.breakdown is Some <==> estimate_fits(m, p, self.registry, profile_ref(&self.profile)))
                &&& (self.breakdown matches Some(b) ==> breakdown_matches(
                    b,
                    m,
                    p,
                    self.registry,
                    profile_ref(&self.profile),
                ))
                &&& notes_view(self.notes@) == spec_explain(m, p, self.registry)
            },
            _ => self.breakdown == before.breakdown && self.notes == before.notes,
        }
    }

    pub fn new() -> (s: Self)
        ensures
            s.wf(),
            s.registry.as_map() == crate::codecs::builtin_profiles(),
            s.phase == Phase::Empty,
            s.media is None,
            s.plan is None,
            s.profile is None,
            s.breakdown is None,
            s.notes@.len() == 0,
            s.steps@.len() == 0,
            s.log@.len() == 0,
            s.current_step is None,
            s.position_s.ms == 0,
            s.bytes_written == 0,
            s.error is None,
    {
        Session {
            phase: Phase::Empty,
            media: None,
            plan: None,
            profile: None,
            breakdown: None,
            notes: Vec::new(),
            steps: Vec::new(),
            log: Vec::new(),
            current_step: None,
            position_s: Seconds { ms: 0 },
            bytes_written: 0,
            error: None,
            registry: CodecRegistry::with_builtins(),
        }
    }

    pub fn registry(&self) -> (r: &CodecRegistry)
        ensures
            *r == self.registry,
    {
        &self.registry
    }

    /// A build has started.
    pub fn begin_running(&mut self)
        ensures
            final(self).phase == Phase::Running,
            final(self).error is None,
            final(self).registry == old(self).registry,
            final(self).media == old(self).media,
            final(self).plan == old(self).plan,
            final(self).profile == old(self).profile,
            final(self).breakdown == old(self).breakdown,
            final(self).notes == old(self).notes,
            final(self).steps == old(self).steps,
            final(self).log == old(self).log,
            final(self).current_step == old(self).current_step,
            final(self).position_s == old(self).position_s,
            final(self).bytes_written == old(self).bytes_written,
    {
        self.phase = Phase::Running;
        self.error = None;
    }

    /// The build failed with `message`.
    pub fn fail(&mut self, message: String)
        ensures
            final(self).phase == Phase::Failed,
            final(self).error == Some(message),
            final(self).registry == old(self).registry,
            final(self).media == old(self).media,
            final(self).plan == old(self).plan,
            final(self).profile == old(self).profile,
            final(self).breakdown == old(self).breakdown,
            final(self).notes == old(self).notes,
            final(self).steps == old(self).steps,
            final(self).log == old(self).log,
            final(self).current_step == old(self).current_step,
            final(self).position_s == old(self).position_s,
            final(self).bytes_written == old(self).bytes_written,
    {
        self.error = Some(message);
        self.phase = Phase::Failed;
    }

    /// Adds a line to the log, dropping the oldest when it is full.
    fn push_log_line(&mut self, line: String)
        ensures
            views(final(self).log@) == capped_push(views(old(self).log@), line@, LOG_CAPACITY as nat),
            final(self).registry == old(self).registry,
            final(self).phase == old(self).phase,
            final(self).media == old(self).media,
            final(self).plan == old(self).plan,
            final(self).profile == old(self).profile,
            final(self).breakdown == old(self).breakdown,
            final(self).notes == old(self).notes,
            final(self).steps == old(self).steps,
            final(self).current_step == old(self).current_step,
            final(self).position_s == old(self).position_s,
            final(self).bytes_written == old(self).bytes_written,
            final(self).error == old(self).error,
    {
        push_capped(&mut self.log, line, LOG_CAPACITY);
    }
}


/// The plan after a track's action changed: the same plan with the new
/// action for that index.
pub open spec fn plan_with_action(before: Option<Plan>, after: Option<Plan>, index: usize, action: TrackAction) -> bool {
    match before {
        Some(p) => after matches Some(q) && {
            &&& q.wf()
            &&& q.action_map() == p.action_map().insert(index, action)
            &&& q.range == p.range
            &&& q.target == p.target
        },
        None => after is None,
    }
}

/// `b` keeps everything of `a` but the plan.
pub open spec fn only_plan_changed(a: Session, b: Session) -> bool {
    &&& b.registry == a.registry
    &&& b.media == a.media
    &&& b.profile == a.profile
    &&& b.phase == a.phase
    &&& b.steps == a.steps
    &&& b.log == a.log
    &&& b.current_step == a.current_step
    &&& b.position_s == a.position_s
    &&& b.bytes_written == a.bytes_written
    &&& b.error == a.error
}

/// `b` keeps the file, the plan and the profile of `a`.
pub open spec fn same_setup(a: Session, b: Session) -> bool {
    &&& b.registry == a.registry
    &&& b.media == a.media
    &&& b.plan == a.plan
    &&& b.profile == a.profile
}

/// What a progress event does to the build state.
pub open spec fn progress_effect(a: Session, ev: ProgressEvent, b: Session) -> bool {
    match ev {
        ProgressEvent::Started { step_id, title } => {
            &&& b.current_step == Some(step_id)
            &&& views(b.log@) == capped_push(views(a.log@), "— "@ + title@, LOG_CAPACITY as nat)
            &&& b.phase == Phase::Running
            &&& b.error is None
            &&& b.steps == a.steps
            &&& b.position_s == a.position_s
            &&& b.bytes_written == a.bytes_written
        },
        ProgressEvent::Tick { position_s, bytes_written, .. } => {
            &&& b.position_s == position_s
            &&& b.bytes_written == (if bytes_written > 0 {
                bytes_written
            } else {
                a.bytes_written
            })
            &&& b.phase == a.phase
            &&& b.log == a.log
            &&& b.steps == a.steps
            &&& b.current_step == a.current_step
            &&& b.error == a.error
        },
        ProgressEvent::Log { line, .. } => {
            &&& views(b.log@) == capped_push(views(a.log@), line@, LOG_CAPACITY as nat)
            &&& b.phase == a.phase
            &&& b.steps == a.steps
            &&& b.current_step == a.current_step
            &&& b.position_s == a.position_s
            &&& b.bytes_written == a.bytes_written
            &&& b.error == a.error
        },
        ProgressEvent::Finished { step_id } => {
            &&& b.phase == (if a.steps@.len() > 0 && a.steps@.last().id@ == step_id@ {
                Phase::Done
            } else {
                a.phase
            })
            &&& b.log == a.log
            &&& b.steps == a.steps
            &&& b.current_step == a.current_step
            &&& b.position_s == a.position_s
            &&& b.bytes_written == a.bytes_written
            &&& b.error == a.error
        },
        ProgressEvent::Failed { message, tail, .. } => {
            &&& b.error == Some(message)
            &&& b.phase == Phase::Failed
            &&& views(b.log@) == views(a.log@) + views(tail@)
            &&& b.steps == a.steps
            &&& b.current_step == a.current_step
            &&& b.position_s == a.position_s
            &&& b.bytes_written == a.bytes_written
        },
        ProgressEvent::Cancelled => {
            &&& (b.error matches Some(e) && e@ == "отменено"@)
            &&& b.phase == Phase::Failed
            &&& b.log == a.log
            &&& b.steps == a.steps
            &&& b.current_step == a.current_step
            &&& b.position_s == a.position_s
            &&& b.bytes_written == a.bytes_written
        },
    }
}

/// What an event does to the session, apart from the recomputed estimate
/// and notes.
pub open spec fn event_effect(a: Session, ev: SessionEvent, b: Session) -> bool {
    match ev {
        SessionEvent::FileOpened(m) => {
            &&& b.registry == a.registry
            &&& b.media == Some(m)
            &&& (b.plan matches Some(p) && next_target(a.plan, p.target) && initial_plan(p, m, p.target))
            &&& b.profile is None
            &&& b.phase == Phase::Setup
            &&& b.log@.len() == 0
            &&& b.steps@.len() == 0
            &&& b.current_step is None
            &&& b.position_s.ms == 0
            &&& b.bytes_written == 0
            &&& b.error is None
        },
        SessionEvent::TargetChosen(t) => {
            &&& only_plan_changed(a, b)
            &&& b.plan == (match a.plan {
                Some(p) => Some(Plan { target: t, ..p }),
                None => None,
            })
        },
        SessionEvent::TrackActionChanged { index, action } => {
            &&& only_plan_changed(a, b)
            &&& plan_with_action(a.plan, b.plan, index, filled_action(a.media, a.registry, index, action))
        },
        SessionEvent::TrimChanged { start_s, end_s } => {
            &&& only_plan_changed(a, b)
            &&& b.plan == (match a.plan {
                Some(p) => Some(Plan { range: TimeRange { start_s, end_s }, ..p }),
                None => None,
            })
        },
        SessionEvent::ProfileReady(pr) => {
            &&& b.registry == a.registry
            &&& b.media == a.media
            &&& b.plan == a.plan
            &&& b.profile == Some(pr)
            &&& b.phase == a.phase
            &&& b.steps == a.steps
            &&& b.log == a.log
            &&& b.current_step == a.current_step
            &&& b.position_s == a.position_s
            &&& b.bytes_written == a.bytes_written
            &&& b.error == a.error
        },
        SessionEvent::Progress(pe) => same_setup(a, b) && progress_effect(a, pe, b),
    }
}

impl Session {
    /// A transcode without a bitrate, filled with the codec's defaults for
    /// the track (see [`filled_action`]).
    fn fill_missing_transcode_defaults(&self, index: usize, action: TrackAction) -> (r: TrackAction)
        requires
            self.registry.wf(),
        ensures
            r == filled_action(self.media, self.registry, index, action),
    {
        match action {
            TrackAction::Transcode { codec_id, opts } => {
                let track = match &self.media {
                    Some(m) => m.track(index),
                    None => None,
                };
                let t = match track {
                    Some(t) => t,
                    None => return TrackAction::Transcode { codec_id, opts },
                };
                if opts.bitrate_bps.is_some() {
                    return TrackAction::Transcode { codec_id, opts };
                }
                match self.registry.get(codec_id.as_str()) {
                    Some(profile) => {
                        let d = profile.default_opts(t);
                        let bitrate_bps = match opts.bitrate_bps {
                            Some(b) => Some(b),
                            None => d.bitrate_bps,
                        };
                        let channels = match opts.channels {
                            Some(c) => Some(c),
                            None => d.channels,
                        };
                        let height = match opts.height {
                            Some(h) => Some(h),
                            None => d.height,
                        };
                        TrackAction::Transcode { codec_id, opts: Opts { bitrate_bps, channels, height } }
                    },
                    None => TrackAction::Transcode { codec_id, opts },
                }
            },
            other => other,
        }
    }

    /// Recomputes the estimate and the notes from the media and the plan.
    fn recompute(&mut self)
        requires
            old(self).wf(),
        ensures
            final(self).recomputed_from(*old(self)),
            final(self).registry == old(self).registry,
            final(self).media == old(self).media,
            final(self).plan == old(self).plan,
            final(self).profile == old(self).profile,
            final(self).phase == old(self).phase,
            final(self).steps == old(self).steps,
            final(self).log == old(self).log,
            final(self).current_step == old(self).current_step,
            final(self).position_s == old(self).position_s,
            final(self).bytes_written == old(self).bytes_written,
            final(self).error == old(self).error,
    {
        let (media, plan) = match (&self.media, &self.plan) {
            (Some(m), Some(p)) => (m, p),
            _ => return,
        };
        let breakdown = estimate_checked(media, plan, &self.registry, self.profile.as_ref());
        let notes = explain(media, plan, &self.registry);
        self.breakdown = breakdown;
        self.notes = notes;
    }
}


impl Session {
    /// Opens a new file: a fresh plan for it (keeping the chosen target),
    /// and nothing left of a previous build.
    fn open_file(&mut self, media: MediaInfo)
        requires
            old(self).wf(),
        ensures
            final(self).wf(),
            event_effect(*old(self), SessionEvent::FileOpened(media), *final(self)),
            final(self).breakdown == old(self).breakdown,
            final(self).notes == old(self).notes,
    {
        proof {
            reveal_strlit("BD-R DL 50 ГБ");
        }
        let target = match &self.plan {
            Some(p) => p.target.duplicate(),
            None => Target::preset(owned("BD-R DL 50 ГБ"), DEFAULT_TARGET_BYTES),
        };
        let plan = Plan::from_media(&media, target);
        self.plan = Some(plan);
        self.media = Some(media);
        self.profile = None;
        self.log.clear();
        self.steps.clear();
        self.current_step = None;
        self.position_s = Seconds { ms: 0 };
        self.bytes_written = 0;
        self.error = None;
        self.phase = Phase::Setup;
    }

    fn choose_target(&mut self, target: Target)
        requires
            old(self).wf(),
        ensures
            final(self).wf(),
            event_effect(*old(self), SessionEvent::TargetChosen(target), *final(self)),
            final(self).breakdown == old(self).breakdown,
            final(self).notes == old(self).notes,
    {
        if let Some(p) = &mut self.plan {
            p.target = target;
        }
    }

    fn change_action(&mut self, index: usize, action: TrackAction)
        requires
            old(self).wf(),
        ensures
            final(self).wf(),
            event_effect(*old(self), SessionEvent::TrackActionChanged { index, action }, *final(self)),
            final(self).breakdown == old(self).breakdown,
            final(self).notes == old(self).notes,
    {
        let action = self.fill_missing_transcode_defaults(index, action);
        if let Some(p) = &mut self.plan {
            p.set_action(index, action);
        }
    }

    fn change_trim(&mut self, start_s: Seconds, end_s: Seconds)
        requires
            old(self).wf(),
        ensures
            final(self).wf(),
            event_effect(*old(self), SessionEvent::TrimChanged { start_s, end_s }, *final(self)),
            final(self).breakdown == old(self).breakdown,
            final(self).notes == old(self).notes,
    {
        if let Some(p) = &mut self.plan {
            p.range = TimeRange { start_s, end_s };
        }
    }

    fn on_progress(&mut self, ev: ProgressEvent)
        requires
            old(self).wf(),
        ensures
            final(self).wf(),
            same_setup(*old(self), *final(self)),
            progress_effect(*old(self), ev, *final(self)),
            final(self).breakdown == old(self).breakdown,
            final(self).notes == old(self).notes,
    {
        match ev {
            ProgressEvent::Started { step_id, title } => {
                self.current_step = Some(step_id);
                let mut line = owned("— ");
                line.append(title.as_str());
                self.push_log_line(line);
                self.begin_running();
            },
            ProgressEvent::Tick { position_s, bytes_written, .. } => {
                self.position_s = position_s;
                if bytes_written > 0 {
                    self.bytes_written = bytes_written;
                }
            },
            ProgressEvent::Log { line, .. } => {
                self.push_log_line(line);
            },
            ProgressEvent::Finished { step_id } => {
                let n = self.steps.len();
                if n > 0 && str_eq(self.steps[n - 1].id, step_id) {
                    self.phase = Phase::Done;
                }
            },
            ProgressEvent::Failed { message, tail, .. } => {
                self.fail(message);
                extend_strings(&mut self.log, tail);
            },
            ProgressEvent::Cancelled => {
                self.fail(owned("отменено"));
            },
        }
    }

    /// Applies an event and recomputes the estimate and the notes.
    pub fn apply(&mut self, event: SessionEvent)
        requires
            old(self).wf(),
            event matches SessionEvent::ProfileReady(pr) ==> samples_bounded(pr.samples@),
        ensures
            final(self).wf(),
            event_effect(*old(self), event, *final(self)),
            final(self).recomputed_from(*old(self)),
    {
        match event {
            SessionEvent::FileOpened(media) => self.open_file(media),
            SessionEvent::TargetChosen(target) => self.choose_target(target),
            SessionEvent::TrackActionChanged { index, action } => self.change_action(index, action),
            SessionEvent::TrimChanged { start_s, end_s } => self.change_trim(start_s, end_s),
            SessionEvent::ProfileReady(profile) => {
                self.profile = Some(profile);
            },
            SessionEvent::Progress(ev) => self.on_progress(ev),
        }
        self.recompute();
    }
}


/// Whether a plan may be built: no note forbids it and the estimate fits,
/// at least at its point value.
pub open spec fn spec_can_build(notes: Seq<Note>, breakdown: Option<SizeBreakdown>) -> bool {
    &&& !spec_has_blockers(notes_view(notes))
    &&& (breakdown matches Some(b) && (b.verdict == Verdict::Fits || b.verdict == Verdict::Tight))
}

/// The final size projected from a running build: the bytes written so far
/// scaled from the part of the range already done to the whole range
/// (halves rounded up, capped at `u64::MAX`). Nothing before a second of the
/// range is done or before anything is written.
pub open spec fn spec_projected_total(plan: Option<Plan>, position: Seconds, written: u64) -> Option<u64> {
    match plan {
        Some(p) => if position.ms <= p.range.start_s.ms + 1000 || written == 0 {
            None
        } else {
            let done = (position.ms - p.range.start_s.ms) as nat;
            let v = (written as int * p.range.spec_duration_ms() + done as int / 2) / done as int;
            Some(
                if v > u64::MAX {
                    u64::MAX
                } else {
                    v as u64
                },
            )
        },
        None => None,
    }
}

/// A copy of a step.
fn duplicate_step(s: &Step) -> (r: Step)
    ensures
        step_view(r) == step_view(*s),
{
    let args = clone_strings(&s.args);
    Step {
        id: s.id,
        title: s.title.clone(),
        program: s.program.clone(),
        args,
        progress: s.progress,
        produces: match &s.produces {
            Some(p) => Some(p.clone()),
            None => None,
        },
        prepare: match &s.prepare {
            Some(f) => Some(PreparedFile { path: f.path.clone(), contents: f.contents.clone() }),
            None => None,
        },
    }
}

impl Session {
    /// Whether the build may start (see [`spec_can_build`]).
    pub fn can_build(&self) -> (b: bool)
        ensures
            b == spec_can_build(self.notes@, self.breakdown),
    {
        if has_blockers(self.notes.as_slice()) {
            return false;
        }
        match &self.breakdown {
            Some(b) => b.verdict == Verdict::Fits || b.verdict == Verdict::Tight,
            None => false,
        }
    }

    /// Whether the build needs the Dolby Vision tools.
    pub fn needs_dv_tools(&self) -> (b: bool)
        requires
            self.wf(),
        ensures
            b == (match (self.media, self.plan) {
                (Some(m), Some(p)) => spec_needs_dv_chain(m, p, self.registry),
                _ => false,
            }),
    {
        match (&self.media, &self.plan) {
            (Some(m), Some(p)) => needs_dv_chain(m, p, &self.registry),
            _ => false,
        }
    }

    /// The final size projected from the running build (see [`spec_projected_total`]).
    pub fn projected_total(&self) -> (r: Option<u64>)
        ensures
            r == spec_projected_total(self.plan, self.position_s, self.bytes_written),
    {
        let plan = match &self.plan {
            Some(p) => p,
            None => return None,
        };
        let start = plan.range.start_s.ms as u128;
        let pos = self.position_s.ms as u128;
        if pos <= start + 1000 || self.bytes_written == 0 {
            return None;
        }
        let done = pos - start;
        let total = plan.range.duration_s().ms as u128;
        let w = self.bytes_written as u128;
        assert(w * total <= 0xffff_ffff_ffff_ffffu128 * 0xffff_ffff_ffff_ffffu128) by (nonlinear_arith)
            requires
                w <= 0xffff_ffff_ffff_ffffu128,
                total <= 0xffff_ffff_ffff_ffffu128,
        ;
        let v = (w * total + done / 2) / done;
        if v > 0xffff_ffff_ffff_ffffu128 {
            Some(0xffff_ffff_ffff_ffffu64)
        } else {
            Some(v as u64)
        }
    }

    /// The chain of commands for the current plan; it is also kept as the
    /// session's steps. Without a file or a plan there is nothing to build.
    pub fn build_steps(&mut self, req: &BuildRequest) -> (v: Vec<Step>)
        requires
            old(self).wf(),
        ensures
            final(self).wf(),
            same_setup(*old(self), *final(self)),
            final(self).breakdown == old(self).breakdown,
            final(self).notes == old(self).notes,
            final(self).phase == old(self).phase,
            final(self).log == old(self).log,
            final(self).current_step == old(self).current_step,
            final(self).position_s == old(self).position_s,
            final(self).bytes_written == old(self).bytes_written,
            final(self).error == old(self).error,
            match (old(self).media, old(self).plan) {
                (Some(m), Some(p)) => {
                    &&& steps_view(final(self).steps@) == spec_compile(m, p, old(self).registry, *req)
                    &&& steps_view(v@) == spec_compile(m, p, old(self).registry, *req)
                },
                _ => v@.len() == 0 && final(self).steps == old(self).steps,
            },
    {
        let steps = match (&self.media, &self.plan) {
            (Some(m), Some(p)) => compile(m, p, &self.registry, req),
            _ => return Vec::new(),
        };
        let mut copy: Vec<Step> = Vec::new();
        let mut i: usize = 0;
        while i < steps.len()
            invariant
                i <= steps@.len(),
                steps_view(copy@) == steps_view(steps@.subrange(0, i as int)),
            decreases steps@.len() - i,
        {
            let ghost prev = copy@;
            let d = duplicate_step(&steps[i]);
            copy.push(d);
            assert(steps_view(copy@) =~= steps_view(prev).push(step_view(d)));
            assert(steps_view(steps@.subrange(0, i + 1)) =~= steps_view(steps@.subrange(0, i as int)).push(
                step_view(steps@[i as int]),
            ));
            i = i + 1;
        }
        assert(steps@.subrange(0, i as int) =~= steps@);
        self.steps = steps;
        copy
    }
}

/// Building is refused while any note blocks it, while there is no
/// estimate, and while the estimate overflows the disc; with no blocker and
/// an estimate that fits it is allowed.
pub proof fn law_blockers_and_overflow_forbid_building(notes: Seq<Note>, breakdown: Option<SizeBreakdown>)
    ensures
        spec_has_blockers(notes_view(notes)) ==> !spec_can_build(notes, breakdown),
        breakdown is None ==> !spec_can_build(notes, breakdown),
        (breakdown matches Some(b) && b.verdict is Overflow) ==> !spec_can_build(notes, breakdown),
        (!spec_has_blockers(notes_view(notes)) && (breakdown matches Some(b) && b.verdict
            == Verdict::Fits)) ==> spec_can_build(notes, breakdown),
{
}

impl Default for Session {
    fn default() -> (s: Self)
        ensures
            s.wf(),
            s.registry.as_map() == crate::codecs::builtin_profiles(),
            s.phase == Phase::Empty,
            s.media is None,
            s.plan is None,
            s.profile is None,
            s.breakdown is None,
            s.notes@.len() == 0,
            s.steps@.len() == 0,
            s.log@.len() == 0,
            s.current_step is None,
            s.position_s.ms == 0,
            s.bytes_written == 0,
            s.error is None,
    {
        Session::new()
    }
}

} // verus!
