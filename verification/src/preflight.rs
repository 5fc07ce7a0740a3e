//! Checks before a build: are the tools there, can ffmpeg encode on the GPU,
//! is there room in the work folder. The checks themselves are run by the
//! caller; this module decides which ones are needed and what they report.

use vstd::prelude::*;
use crate::parse::{first_index_of, lemma_first_index_of, find_char, parse_u64, spec_parse_u64, trim, trim_str};
use crate::text::{div_round_even, div_round_even_u64, fixed1, fixed1_to_string, owned};

verus! {

#[derive(Debug, Clone, PartialEq)]
pub struct CheckResult {
    pub name: String,
    pub ok: bool,
    pub detail: String,
}

#[derive(Debug, Clone, PartialEq)]
pub struct PreflightReport {
    pub checks: Vec<CheckResult>,
}

/// What a check says: its name, whether it passed, and the detail.
pub type CheckView = (Seq<char>, bool, Seq<char>);

pub open spec fn check_view(c: CheckResult) -> CheckView {
    (c.name@, c.ok, c.detail@)
}

impl PreflightReport {
    /// Whether every check passed.
    pub fn is_ok(&self) -> (b: bool)
        ensures
            b == (forall|i: int| 0 <= i < self.checks@.len() ==> (#[trigger] self.checks@[i]).ok),
    {
        let mut i: usize = 0;
        while i < self.checks.len()
            invariant
                i <= self.checks@.len(),
                forall|j: int| 0 <= j < i ==> (#[trigger] self.checks@[j]).ok,
            decreases self.checks@.len() - i,
        {
            if !self.checks[i].ok {
                return false;
            }
            i = i + 1;
        }
        true
    }
}

#[derive(Debug, Clone, PartialEq)]
pub struct PreflightInput {
    pub needs_dv_tools: bool,
    pub needs_nvenc: bool,
    pub needs_burner: bool,
    pub required_free_bytes: u64,
    pub workdir: String,
}

/// The tools the build needs, each with the hint on how to install it:
/// always ffmpeg and ffprobe, the Dolby Vision tools when the chain needs
/// them, growisofs when the result is burned.
pub open spec fn spec_required_tools(input: PreflightInput) -> Seq<(Seq<char>, Seq<char>)> {
    seq![("ffmpeg"@, "установите пакет ffmpeg"@), ("ffprobe"@, "установите пакет ffmpeg"@)]
        + if input.needs_dv_tools {
        seq![("dovi_tool"@, "cargo install dovi_tool"@), ("mkvmerge"@, "sudo apt install mkvtoolnix"@)]
    } else {
        Seq::empty()
    } + if input.needs_burner {
        seq![("growisofs"@, "sudo apt install dvd+rw-tools"@)]
    } else {
        Seq::empty()
    }
}

/// The tools the build needs (see [`spec_required_tools`]).
pub fn required_tools(input: &PreflightInput) -> (v: Vec<(&'static str, &'static str)>)
    ensures
        v@.map_values(|p: (&'static str, &'static str)| (p.0@, p.1@)) == spec_required_tools(*input),
{
    let mut v: Vec<(&'static str, &'static str)> = Vec::new();
    v.push(("ffmpeg", "установите пакет ffmpeg"));
    v.push(("ffprobe", "установите пакет ffmpeg"));
    if input.needs_dv_tools {
        v.push(("dovi_tool", "cargo install dovi_tool"));
        v.push(("mkvmerge", "sudo apt install mkvtoolnix"));
    }
    if input.needs_burner {
        v.push(("growisofs", "sudo apt install dvd+rw-tools"));
    }
    assert(v@.map_values(|p: (&'static str, &'static str)| (p.0@, p.1@)) =~= spec_required_tools(*input));
    v
}

/// The check of one tool: found, or not found with the install hint.
pub open spec fn spec_tool_check(program: Seq<char>, hint: Seq<char>, found: bool) -> CheckView {
    ("утилита "@ + program, found, if found { "найдена"@ } else { hint })
}

/// The result of looking for `program` (`found` says whether it answered).
pub fn tool_check(program: &str, hint: &str, found: bool) -> (c: CheckResult)
    ensures
        check_view(c) == spec_tool_check(program@, hint@, found),
{
    let mut name = owned("утилита ");
    name.append(program);
    CheckResult { name, ok: found, detail: if found { owned("найдена") } else { owned(hint) } }
}

pub open spec fn spec_nvenc_check(available: bool) -> CheckView {
    (
        "кодирование на видеокарте (NVENC)"@,
        available,
        if available {
            "доступно"@
        } else {
            "ffmpeg собран без NVENC — выберите кодирование на процессоре"@
        },
    )
}

/// The result of asking ffmpeg whether it can encode HEVC on the GPU.
pub fn nvenc_check(available: bool) -> (c: CheckResult)
    ensures
        check_view(c) == spec_nvenc_check(available),
{
    CheckResult {
        name: owned("кодирование на видеокарте (NVENC)"),
        ok: available,
        detail: if available {
            owned("доступно")
        } else {
            owned("ffmpeg собран без NVENC — выберите кодирование на процессоре")
        },
    }
}

/// Bytes in tenths of a (decimal) gigabyte, rounded to the nearest, an
/// exact half to even.
pub open spec fn gb_tenths(bytes: u64) -> nat {
    div_round_even(bytes as nat, 100_000_000)
}

pub open spec fn spec_free_space_check(required: u64, avail: Option<u64>) -> CheckView {
    (
        "свободное место"@,
        match avail {
            Some(a) => a >= required,
            None => false,
        },
        match avail {
            Some(a) => "нужно "@ + fixed1(gb_tenths(required)) + " ГБ, доступно "@ + fixed1(gb_tenths(a))
                + " ГБ"@,
            None => "не удалось определить"@,
        },
    )
}

fn gb_tenths_exec(bytes: u64) -> (t: u64)
    ensures
        t == gb_tenths(bytes),
{
    div_round_even_u64(bytes, 100_000_000)
}

/// Whether the work folder has room (`avail` is what the file system reports, if anything).
pub fn free_space_check(required: u64, avail: Option<u64>) -> (c: CheckResult)
    ensures
        check_view(c) == spec_free_space_check(required, avail),
{
    match avail {
        Some(a) => {
            let mut d = owned("нужно ");
            d.append(fixed1_to_string(gb_tenths_exec(required)).as_str());
            d.append(" ГБ, доступно ");
            d.append(fixed1_to_string(gb_tenths_exec(a)).as_str());
            d.append(" ГБ");
            CheckResult { name: owned("свободное место"), ok: a >= required, detail: d }
        },
        None => CheckResult {
            name: owned("свободное место"),
            ok: false,
            detail: owned("не удалось определить"),
        },
    }
}

/// The whole report: the tool checks in the order of [`spec_required_tools`],
/// the NVENC check when it is needed, and the free-space check last.
pub open spec fn spec_report(
    input: PreflightInput,
    found: Seq<bool>,
    nvenc_available: bool,
    avail: Option<u64>,
) -> Seq<CheckView> {
    let tools = spec_required_tools(input);
    Seq::new(tools.len(), |i: int| spec_tool_check(tools[i].0, tools[i].1, found[i]))
        + if input.needs_nvenc {
        seq![spec_nvenc_check(nvenc_available)]
    } else {
        Seq::empty()
    } + seq![spec_free_space_check(input.required_free_bytes, avail)]
}

/// Assembles the report from what the caller found out: for each required
/// tool whether it answered, whether NVENC is available, and the free bytes
/// in the work folder (if they could be read).
pub fn preflight_report(
    input: &PreflightInput,
    found: &Vec<bool>,
    nvenc_available: bool,
    avail: Option<u64>,
) -> (r: PreflightReport)
    requires
        found@.len() == spec_required_tools(*input).len(),
    ensures
        r.checks@.map_values(|c: CheckResult| check_view(c)) == spec_report(
            *input,
            found@,
            nvenc_available,
            avail,
        ),
{
    let tools = required_tools(input);
    let ghost tv = spec_required_tools(*input);
    let mut checks: Vec<CheckResult> = Vec::new();
    let mut i: usize = 0;
    while i < tools.len()
        invariant
            tools@.map_values(|p: (&'static str, &'static str)| (p.0@, p.1@)) == tv,
            tv == spec_required_tools(*input),
            found@.len() == tv.len(),
            i <= tools@.len(),
            checks@.len() == i,
            forall|j: int|
                0 <= j < i ==> check_view(#[trigger] checks@[j]) == spec_tool_check(
                    tv[j].0,
                    tv[j].1,
                    found@[j],
                ),
        decreases tools@.len() - i,
    {
        let (p, h) = tools[i];
        assert(tv[i as int] == (p@, h@));
        checks.push(tool_check(p, h, found[i]));
        i = i + 1;
    }
    let ghost n = checks@.len();
    if input.needs_nvenc {
        checks.push(nvenc_check(nvenc_available));
    }
    checks.push(free_space_check(input.required_free_bytes, avail));
    let r = PreflightReport { checks };
    assert(r.checks@.map_values(|c: CheckResult| check_view(c)) =~= spec_report(
        *input,
        found@,
        nvenc_available,
        avail,
    ));
    r
}

/// The second line of `text` (split at `\n`), if there is one.
pub open spec fn second_line(text: Seq<char>) -> Option<Seq<char>> {
    match first_index_of(text, '\n') {
        Some(k) => {
            let rest = text.subrange(k + 1, text.len() as int);
            match first_index_of(rest, '\n') {
                Some(m) => Some(rest.subrange(0, m)),
                None => Some(rest),
            }
        },
        None => None,
    }
}

/// Free bytes from the output of `df -B1 --output=avail <dir>`: the number
/// on its second line.
pub fn df_available(text: &str) -> (r: Option<u64>)
    ensures
        r == (match second_line(text@) {
            Some(l) => spec_parse_u64(trim(l)),
            None => None,
        }),
{
    let k = match find_char(text, '\n') {
        Some(k) => k,
        None => return None,
    };
    proof {
        lemma_first_index_of(text@, '\n');
    }
    let n = text.unicode_len();
    let rest = text.substring_char(k + 1, n);
    let line = match find_char(rest, '\n') {
        Some(m) => {
            proof {
                lemma_first_index_of(rest@, '\n');
            }
            rest.substring_char(0, m)
        },
        None => rest,
    };
    parse_u64(trim_str(line))
}

} // verus!
