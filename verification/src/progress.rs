//! Reading the progress that ffmpeg (`-progress pipe:1`) and growisofs print
//! while a step runs.

use vstd::prelude::*;
use crate::parse::{
    find_char, first_index_of, parse_thousandths, parse_u64, spec_parse_thousandths,
    spec_parse_u64, trim, trim_str,
};
use crate::text::str_eq;
use crate::units::Seconds;

verus! {

/// One progress report of a running ffmpeg: where in the film it is, how much
/// it has written, and how fast it runs (thousandths of real time).
#[derive(Debug, Clone, Copy, PartialEq, Eq, Structural)]
pub struct Tick {
    pub position_s: Seconds,
    pub bytes_written: u64,
    pub speed: Option<u64>,
}

/// The values of the current ffmpeg progress block, gathered line by line.
#[derive(Debug)]
pub struct FfmpegProgressState {
    position_s: Seconds,
    bytes_written: u64,
    speed: Option<u64>,
}

impl FfmpegProgressState {
    /// What the state holds, as the tick it would report now.
    pub closed spec fn current(self) -> Tick {
        Tick { position_s: self.position_s, bytes_written: self.bytes_written, speed: self.speed }
    }
}

impl Default for FfmpegProgressState {
    fn default() -> (s: Self)
        ensures
            s.current() == (Tick { position_s: Seconds { ms: 0 }, bytes_written: 0, speed: None }),
    {
        FfmpegProgressState { position_s: Seconds { ms: 0 }, bytes_written: 0, speed: None }
    }
}

/// `s` split at its first `c`: the part before and the part after.
pub open spec fn split_first(s: Seq<char>, c: char) -> Option<(Seq<char>, Seq<char>)> {
    match first_index_of(s, c) {
        Some(k) => Some((s.subrange(0, k), s.subrange(k + 1, s.len() as int))),
        None => None,
    }
}

/// `s` without any trailing `x`.
pub open spec fn trim_end_x(s: Seq<char>) -> Seq<char>
    decreases s.len(),
{
    if s.len() > 0 && s.last() == 'x' {
        trim_end_x(s.drop_last())
    } else {
        s
    }
}

/// Milliseconds from microseconds given in thousandths, rounded down.
pub open spec fn ms_of_us_thousandths(v: u64) -> u64 {
    (v / 1_000_000) as u64
}

/// The effect of one line of ffmpeg's progress output: the state after it,
/// and the tick it yields. `out_time_us`, `total_size` and `speed` update the
/// state (an unreadable time or size leaves it as it was, an unreadable speed
/// clears it); `progress` ends a block and reports the state.
pub open spec fn progress_step(st: Tick, line: Seq<char>) -> (Tick, Option<Tick>) {
    match split_first(trim(line), '=') {
        None => (st, None),
        Some((key, value)) => key_step(st, key, value),
    }
}

/// The effect of one `key=value` pair of ffmpeg's progress output.
pub open spec fn key_step(st: Tick, key: Seq<char>, value: Seq<char>) -> (Tick, Option<Tick>) {
    if key == "out_time_us"@ {
        match spec_parse_thousandths(value) {
            Some(v) => (Tick { position_s: Seconds { ms: ms_of_us_thousandths(v) }, ..st }, None),
            None => (st, None),
        }
    } else if key == "total_size"@ {
        match spec_parse_u64(value) {
            Some(v) => (Tick { bytes_written: v, ..st }, None),
            None => (st, None),
        }
    } else if key == "speed"@ {
        (Tick { speed: spec_parse_thousandths(trim_end_x(value)), ..st }, None)
    } else if key == "progress"@ {
        (st, Some(st))
    } else {
        (st, None)
    }
}

/// `s` without trailing `x` characters (as `trim_end_matches('x')`).
fn trim_end_x_str(s: &str) -> (r: &str)
    ensures
        r@ == trim_end_x(s@),
{
    let n = s.unicode_len();
    let mut k: usize = n;
    proof {
        assert(s@.subrange(0, k as int) =~= s@);
    }
    while k > 0 && s.get_char(k - 1) == 'x'
        invariant
            n == s@.len(),
            k <= n,
            trim_end_x(s@.subrange(0, k as int)) == trim_end_x(s@),
        decreases k,
    {
        assert(s@.subrange(0, k as int).drop_last() =~= s@.subrange(0, k - 1));
        k = k - 1;
    }
    s.substring_char(0, k)
}

/// Feeds one line of ffmpeg's `-progress` output into `st`; yields a tick at
/// the line that ends a block (`progress=continue` or `progress=end`).
pub fn parse_ffmpeg_progress(st: &mut FfmpegProgressState, line: &str) -> (r: Option<Tick>)
    ensures
        (final(st).current(), r) == progress_step(old(st).current(), line@),
{
    let l = trim_str(line);
    let n = l.unicode_len();
    let k = match find_char(l, '=') {
        Some(k) => k,
        None => return None,
    };
    let key = l.substring_char(0, k);
    let value = l.substring_char(k + 1, n);
    assert(split_first(trim(line@), '=') == Some((key@, value@)));
    st.apply_pair(key, value)
}

impl FfmpegProgressState {
    /// Applies one `key=value` pair (see [`key_step`]).
    fn apply_pair(&mut self, key: &str, value: &str) -> (r: Option<Tick>)
        ensures
            (final(self).current(), r) == key_step(old(self).current(), key@, value@),
    {
        proof {
            reveal_strlit("out_time_us");
            reveal_strlit("total_size");
            reveal_strlit("speed");
            reveal_strlit("progress");
        }
        if str_eq(key, "out_time_us") {
            match parse_thousandths(value) {
                Some(v) => {
                    self.position_s = Seconds { ms: v / 1_000_000 };
                    None
                },
                None => None,
            }
        } else if str_eq(key, "total_size") {
            match parse_u64(value) {
                Some(v) => {
                    self.bytes_written = v;
                    None
                },
                None => None,
            }
        } else if str_eq(key, "speed") {
            self.speed = parse_thousandths(trim_end_x_str(value));
            None
        } else if str_eq(key, "progress") {
            Some(Tick { position_s: self.position_s, bytes_written: self.bytes_written, speed: self.speed })
        } else {
            None
        }
    }
}

/// Number of trailing characters of `s` that are ASCII digits or dots.
pub open spec fn numeric_tail_len(s: Seq<char>) -> nat
    decreases s.len(),
{
    if s.len() > 0 && (('0' <= s.last() && s.last() <= '9') || s.last() == '.') {
        1 + numeric_tail_len(s.drop_last())
    } else {
        0
    }
}

/// growisofs's completed percentage (in thousandths of a percent) from a line
/// such as ` 12.3% done, …`: the digits and dots just before the first `%`.
pub open spec fn spec_growisofs_percent(line: Seq<char>) -> Option<u64> {
    match first_index_of(line, '%') {
        Some(k) => {
            let head = line.subrange(0, k);
            spec_parse_thousandths(head.subrange(head.len() - numeric_tail_len(head), head.len() as int))
        },
        None => None,
    }
}

/// Reads growisofs's percentage (in thousandths of a percent) from one line of its output.
pub fn parse_growisofs_line(line: &str) -> (r: Option<u64>)
    ensures
        r == spec_growisofs_percent(line@),
{
    let idx = match find_char(line, '%') {
        Some(i) => i,
        None => return None,
    };
    let head = line.substring_char(0, idx);
    let mut k: usize = idx;
    proof {
        assert(head@.subrange(0, k as int) =~= head@);
    }
    while k > 0 && (('0' <= head.get_char(k - 1) && head.get_char(k - 1) <= '9') || head.get_char(k - 1) == '.')
        invariant
            idx == head@.len(),
            k <= idx,
            numeric_tail_len(head@.subrange(0, k as int)) + (idx - k) == numeric_tail_len(head@),
        decreases k,
    {
        assert(head@.subrange(0, k as int).drop_last() =~= head@.subrange(0, k - 1));
        k = k - 1;
    }
    proof {
        assert(numeric_tail_len(head@.subrange(0, k as int)) == 0);
    }
    parse_thousandths(head.substring_char(k, idx))
}

/// Only the line that closes a block (`progress=…`) yields a tick; it
/// reports exactly what the block gathered and leaves the state as it was.
pub proof fn law_tick_only_at_block_end(st: Tick, line: Seq<char>)
    ensures
        progress_step(st, line).1 is Some <==> (split_first(trim(line), '=') matches Some(kv) && kv.0
            == "progress"@),
        progress_step(st, line).1 matches Some(t) ==> t == st && progress_step(st, line).0 == st,
{
    if let Some(kv) = split_first(trim(line), '=') {
        lemma_key_step_ticks(st, kv.0, kv.1);
    }
}

proof fn lemma_key_step_ticks(st: Tick, key: Seq<char>, value: Seq<char>)
    ensures
        key_step(st, key, value).1 is Some <==> key == "progress"@,
        key_step(st, key, value).1 matches Some(t) ==> t == st && key_step(st, key, value).0 == st,
{
    reveal_strlit("out_time_us");
    reveal_strlit("total_size");
    reveal_strlit("speed");
    reveal_strlit("progress");
    if key == "progress"@ {
        assert(key.len() == 8);
        assert(key != "out_time_us"@);
        assert(key != "total_size"@);
        assert(key != "speed"@);
    } else if key == "out_time_us"@ {
        match spec_parse_thousandths(value) {
            Some(v) => {},
            None => {},
        }
    } else if key == "total_size"@ {
        match spec_parse_u64(value) {
            Some(v) => {},
            None => {},
        }
    }
}

} // verus!
