//! What `dvd+rw-mediainfo` says about the disc in the drive.

use vstd::prelude::*;
use crate::parse::{
    lemma_first_index_of, lemma_last_index_of,
    contains_seq, contains_str, find_char, first_index_of, has_char, last_index_of, parse_u64,
    rfind_char, spec_parse_u64, starts_with, strip_prefix, trim, trim_str,
};
use crate::text::{owned, str_eq};

verus! {

/// The disc found in a drive: its real capacity, whether it is blank, and
/// the media type the drive reports.
#[derive(Debug, Clone, PartialEq)]
pub struct DiscStatus {
    pub device: String,
    pub capacity_bytes: u64,
    pub blank: bool,
    pub media_name: String,
}

/// The drive queried through `dvd+rw-mediainfo`.
pub struct SgDiscDevice;

/// What the report has told so far: the largest capacity line, whether the
/// disc is blank, and the media name.
pub type Scan = (Option<u64>, bool, Seq<char>);

/// Whether a (trimmed) line is a capacity line: it holds `*` and mentions a
/// (un)formatted capacity, as in ` unformatted:\t12219392*2048=25025314816`.
pub open spec fn is_capacity_line(l: Seq<char>) -> bool {
    has_char(l, '*') && (contains_seq(l, "unformatted"@) || contains_seq(l, "formatted"@))
}

/// The media name after a (trimmed) line: the text after `Mounted Media:`.
pub open spec fn line_name(name: Seq<char>, l: Seq<char>) -> Seq<char> {
    if starts_with(l, "Mounted Media:"@) {
        trim(l.subrange("Mounted Media:"@.len() as int, l.len() as int))
    } else {
        name
    }
}

/// Whether the disc is blank after a (trimmed) line: `Disc status:` says `blank`.
pub open spec fn line_blank(blank: bool, l: Seq<char>) -> bool {
    if starts_with(l, "Disc status:"@) {
        trim(l.subrange("Disc status:"@.len() as int, l.len() as int)) == "blank"@
    } else {
        blank
    }
}

/// The largest capacity after a (trimmed) line: the number after the last
/// `=` of a capacity line.
pub open spec fn line_capacity(cap: Option<u64>, l: Seq<char>) -> Option<u64> {
    match last_index_of(l, '=') {
        Some(eq) => if is_capacity_line(l) {
            match spec_parse_u64(trim(l.subrange(eq + 1, l.len() as int))) {
                Some(v) => Some(
                    match cap {
                        Some(c) => if c >= v {
                            c
                        } else {
                            v
                        },
                        None => v,
                    },
                ),
                None => cap,
            }
        } else {
            cap
        },
        None => cap,
    }
}

/// The state after one line of the report.
pub open spec fn scan_line(acc: Scan, raw: Seq<char>) -> Scan {
    let l = trim(raw);
    (line_capacity(acc.0, l), line_blank(acc.1, l), line_name(acc.2, l))
}

/// The state after the lines of `text` (split at `\n`), starting from `acc`.
pub open spec fn scan_text(acc: Scan, text: Seq<char>) -> Scan
    decreases text.len(),
{
    match first_index_of(text, '\n') {
        Some(k) => {
            proof {
                lemma_first_index_of(text, '\n');
            }
            scan_text(scan_line(acc, text.subrange(0, k)), text.subrange(k + 1, text.len() as int))
        },
        None => scan_line(acc, text),
    }
}

/// What the whole report says.
pub open spec fn scan_report(text: Seq<char>) -> Scan {
    scan_text((None, false, Seq::empty()), text)
}

fn name_step(name: String, l: &str) -> (r: String)
    ensures
        r@ == line_name(name@, l@),
{
    proof {
        reveal_strlit("Mounted Media:");
    }
    match strip_prefix(l, "Mounted Media:") {
        Some(rest) => owned(trim_str(rest)),
        None => name,
    }
}

fn blank_step(blank: bool, l: &str) -> (r: bool)
    ensures
        r == line_blank(blank, l@),
{
    proof {
        reveal_strlit("Disc status:");
        reveal_strlit("blank");
    }
    match strip_prefix(l, "Disc status:") {
        Some(rest) => str_eq(trim_str(rest), "blank"),
        None => blank,
    }
}

fn capacity_step(cap: Option<u64>, l: &str) -> (r: Option<u64>)
    ensures
        r == line_capacity(cap, l@),
{
    let eq = match rfind_char(l, '=') {
        Some(eq) => eq,
        None => return cap,
    };
    proof {
        lemma_last_index_of(l@, '=');
        lemma_first_index_of(l@, '*');
    }
    let star = find_char(l, '*').is_some();
    if !(star && (contains_str(l, "unformatted") || contains_str(l, "formatted"))) {
        return cap;
    }
    let n = l.unicode_len();
    match parse_u64(trim_str(l.substring_char(eq + 1, n))) {
        Some(v) => Some(
            match cap {
                Some(c) => if c >= v {
                    c
                } else {
                    v
                },
                None => v,
            },
        ),
        None => cap,
    }
}

/// One line's contribution, computed.
fn scan_one(acc: (Option<u64>, bool, String), raw: &str) -> (r: (Option<u64>, bool, String))
    ensures
        (r.0, r.1, r.2@) == scan_line((acc.0, acc.1, acc.2@), raw@),
{
    let (cap, blank, name) = acc;
    let l = trim_str(raw);
    let cap = capacity_step(cap, l);
    let blank = blank_step(blank, l);
    let name = name_step(name, l);
    (cap, blank, name)
}

/// Reads the report of `dvd+rw-mediainfo <device>`. Yields nothing when the
/// report names no media or gives no capacity line (an empty tray, say).
/// The capacity is the largest sector count times sector size the drive lists.
pub fn parse_mediainfo(text: &str, device: &str) -> (r: Option<DiscStatus>)
    ensures
        match r {
            Some(s) => {
                let sc = scan_report(text@);
                &&& sc.0 == Some(s.capacity_bytes)
                &&& sc.1 == s.blank
                &&& sc.2.len() > 0
                &&& sc.2 == s.media_name@
                &&& s.device@ == device@
            },
            None => scan_report(text@).0 is None || scan_report(text@).2.len() == 0,
        },
{
    let mut acc: (Option<u64>, bool, String) = (None, false, String::new());
    let mut rest: &str = text;
    loop
        invariant_except_break
            scan_text((acc.0, acc.1, acc.2@), rest@) == scan_report(text@),
        ensures
            (acc.0, acc.1, acc.2@) == scan_report(text@),
        decreases rest@.len(),
    {
        match find_char(rest, '\n') {
            Some(k) => {
                let n = rest.unicode_len();
                let line = rest.substring_char(0, k);
                let tail = rest.substring_char(k + 1, n);
                acc = scan_one(acc, line);
                rest = tail;
            },
            None => {
                acc = scan_one(acc, rest);
                break;
            },
        }
    }
    let (cap, blank, name) = acc;
    let capacity_bytes = match cap {
        Some(c) => c,
        None => return None,
    };
    if name.unicode_len() == 0 {
        return None;
    }
    Some(DiscStatus { device: owned(device), capacity_bytes, blank, media_name: name })
}

} // verus!
