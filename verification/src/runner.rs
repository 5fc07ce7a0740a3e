//! What the step runner reports while it works through a chain of commands,
//! and the decisions it takes on each line a command prints and on its exit.
//! Starting processes, reading their pipes and waiting is left to the caller.

use vstd::prelude::*;
use crate::compile::{ProgressKind, Step};
use crate::progress::{
    parse_ffmpeg_progress, parse_growisofs_line, progress_step, spec_growisofs_percent,
    FfmpegProgressState, Tick,
};
use crate::text::{owned, views};
use crate::units::Seconds;

verus! {

/// How many of the last lines of a failing command's error output are kept.
pub const STDERR_TAIL_LINES: usize = 200;

/// What happens while a chain runs.
#[derive(Debug, Clone, PartialEq)]
pub enum ProgressEvent {
    Started { step_id: &'static str, title: String },
    /// For ffmpeg, the position in the film; for growisofs, the percentage
    /// written (in the same thousandths).
    Tick { step_id: &'static str, position_s: Seconds, bytes_written: u64, speed: Option<u64> },
    Log { step_id: &'static str, line: String },
    Finished { step_id: &'static str },
    Failed { step_id: &'static str, message: String, tail: Vec<String> },
    Cancelled,
}

/// The runner that starts each step as a child process.
pub struct ProcessRunner;

/// `lines` after appending `line` while keeping at most `cap` lines: when it
/// is full, the oldest line goes.
pub open spec fn capped_push(lines: Seq<Seq<char>>, line: Seq<char>, cap: nat) -> Seq<Seq<char>> {
    if lines.len() == cap && cap > 0 {
        lines.drop_first().push(line)
    } else {
        lines.push(line)
    }
}

/// Appends `line`, dropping the oldest line first when `v` already holds `cap` lines.
pub fn push_capped(v: &mut Vec<String>, line: String, cap: usize)
    ensures
        views(final(v)@) == capped_push(views(old(v)@), line@, cap as nat),
        0 < cap && old(v)@.len() <= cap ==> final(v)@.len() <= cap,
{
    if v.len() == cap && cap > 0 {
        v.remove(0);
    }
    let ghost mid = v@;
    v.push(line);
    assert(views(v@) =~= capped_push(views(old(v)@), line@, cap as nat));
}

/// The last `cap` of `lines` (all of them if there are fewer).
pub open spec fn last_n(lines: Seq<Seq<char>>, cap: nat) -> Seq<Seq<char>> {
    if lines.len() <= cap {
        lines
    } else {
        lines.subrange(lines.len() - cap, lines.len() as int)
    }
}

/// Pushing lines one by one through the cap keeps exactly the last `cap` of
/// everything pushed: the buffer is the tail of the whole stream.
pub proof fn law_capped_buffer_keeps_the_tail(start: Seq<Seq<char>>, more: Seq<Seq<char>>, cap: nat)
    requires
        cap > 0,
        start.len() <= cap,
    ensures
        capped_all(start, more, cap) == last_n(start + more, cap),
    decreases more.len(),
{
    if more.len() == 0 {
        assert(start + more =~= start);
    } else {
        let prev = more.drop_last();
        law_capped_buffer_keeps_the_tail(start, prev, cap);
        let b = last_n(start + prev, cap);
        let whole = start + more;
        assert(whole =~= (start + prev).push(more.last()));
        if (start + prev).len() < cap {
            assert(capped_push(b, more.last(), cap) =~= last_n(whole, cap));
        } else {
            assert(b.len() == cap);
            assert(capped_push(b, more.last(), cap) =~= last_n(whole, cap));
        }
    }
}

/// The buffer after pushing every line of `more` onto `start`.
pub open spec fn capped_all(start: Seq<Seq<char>>, more: Seq<Seq<char>>, cap: nat) -> Seq<Seq<char>>
    decreases more.len(),
{
    if more.len() == 0 {
        start
    } else {
        capped_push(capped_all(start, more.drop_last(), cap), more.last(), cap)
    }
}

/// The event a line of standard output gives: for a step that reports
/// through ffmpeg's progress pipe, the tick that closes a block.
pub fn stdout_line(
    kind: ProgressKind,
    st: &mut FfmpegProgressState,
    step_id: &'static str,
    line: &str,
) -> (r: Option<ProgressEvent>)
    ensures
        kind == ProgressKind::FfmpegPipe ==> {
            let (next, tick) = progress_step(old(st).current(), line@);
            &&& final(st).current() == next
            &&& match tick {
                Some(t) => r == Some(
                    ProgressEvent::Tick {
                        step_id,
                        position_s: t.position_s,
                        bytes_written: t.bytes_written,
                        speed: t.speed,
                    },
                ),
                None => r is None,
            }
        },
        kind != ProgressKind::FfmpegPipe ==> r is None && final(st).current() == old(st).current(),
{
    if kind == ProgressKind::FfmpegPipe {
        match parse_ffmpeg_progress(st, line) {
            Some(t) => Some(
                ProgressEvent::Tick {
                    step_id,
                    position_s: t.position_s,
                    bytes_written: t.bytes_written,
                    speed: t.speed,
                },
            ),
            None => None,
        }
    } else {
        None
    }
}

/// The tick a line of error output gives: for growisofs, its percentage.
pub open spec fn stderr_tick(kind: ProgressKind, line: Seq<char>) -> Option<u64> {
    if kind == ProgressKind::Growisofs {
        spec_growisofs_percent(line)
    } else {
        None
    }
}

/// The events of a line of error output: the tick (if any), then the log entry.
pub open spec fn stderr_events(
    kind: ProgressKind,
    step_id: &'static str,
    line: Seq<char>,
    events: Seq<ProgressEvent>,
) -> bool {
    &&& events.len() == (if stderr_tick(kind, line) is Some {
        2int
    } else {
        1int
    })
    &&& (stderr_tick(kind, line) matches Some(p) ==> events[0] == (ProgressEvent::Tick {
        step_id,
        position_s: Seconds { ms: p },
        bytes_written: 0,
        speed: None,
    }))
    &&& (events.last() matches ProgressEvent::Log { step_id: id, line: l } && id == step_id && l@
        == line)
}

/// Handles a line of error output: the growisofs percentage as a tick (if
/// any), then the line itself as a log entry; the line also goes into the
/// tail kept for a failure report.
pub fn stderr_line(
    kind: ProgressKind,
    step_id: &'static str,
    line: String,
    tail: &mut Vec<String>,
) -> (events: Vec<ProgressEvent>)
    requires
        old(tail)@.len() <= STDERR_TAIL_LINES,
    ensures
        views(final(tail)@) == capped_push(views(old(tail)@), line@, STDERR_TAIL_LINES as nat),
        final(tail)@.len() <= STDERR_TAIL_LINES,
        stderr_events(kind, step_id, line@, events@),
{
    let mut events: Vec<ProgressEvent> = Vec::new();
    if kind == ProgressKind::Growisofs {
        if let Some(p) = parse_growisofs_line(line.as_str()) {
            events.push(
                ProgressEvent::Tick {
                    step_id,
                    position_s: Seconds { ms: p },
                    bytes_written: 0,
                    speed: None,
                },
            );
        }
    }
    let copy = owned(line.as_str());
    push_capped(tail, copy, STDERR_TAIL_LINES);
    events.push(ProgressEvent::Log { step_id, line });
    events
}

/// The message of a skipped step whose product is already there.
pub fn skipped_line(produced: &str) -> (s: String)
    ensures
        s@ == "пропущен: "@ + produced@ + " уже готов"@,
{
    let mut s = owned("пропущен: ");
    s.append(produced);
    s.append(" уже готов");
    s
}

/// The event that closes a step: `Finished` on success, else `Failed` with
/// the program, its exit status and the tail of its error output.
pub open spec fn exit_event(step: Step, success: bool, status: Seq<char>, tail: Vec<String>, e: ProgressEvent) -> bool {
    if success {
        e == (ProgressEvent::Finished { step_id: step.id })
    } else {
        e matches ProgressEvent::Failed { step_id, message, tail: t } && step_id == step.id
            && message@ == step.program@ + " завершился с кодом "@ + status && t == tail
    }
}

/// The last event of a step whose command has exited: finished on success,
/// otherwise failed with the exit status and the tail of the error output.
pub fn step_exited(step: &Step, success: bool, status: &str, tail: Vec<String>) -> (e: ProgressEvent)
    ensures
        exit_event(*step, success, status@, tail, e),
{
    if success {
        ProgressEvent::Finished { step_id: step.id }
    } else {
        let mut message = owned(step.program.as_str());
        message.append(" завершился с кодом ");
        message.append(status);
        ProgressEvent::Failed { step_id: step.id, message, tail }
    }
}

} // verus!
