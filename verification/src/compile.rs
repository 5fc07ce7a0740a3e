//! Turns a plan into the chain of commands that builds (and burns) the file.

use vstd::prelude::*;
use crate::codec::{CodecRegistry, EncodeCtx};
use crate::media::{first_track_where, is_video, MediaInfo, Track, TrackKind};
use crate::plan::{Plan, TrackAction};
use crate::text::{
    decimal, extend_strings, fixed3, fixed3_to_string, join_strings, owned, push_str, push_string,
    seq_join, shortest_thousandths, shortest_thousandths_to_string, u128_to_string, u64_to_string,
    views,
};
use crate::units::Seconds;

verus! {

#[derive(Debug, Clone, Copy, PartialEq, Eq, Structural)]
pub enum ProgressKind {
    /// `ffmpeg -progress pipe:1`: key=value pairs on standard output.
    FfmpegPipe,
    X265Stderr,
    DoviTool,
    Growisofs,
    /// The program reports no progress that can be read.
    Silent,
}

/// A file the step runner must write to disk before running the command;
/// needed by steps configured through a file, the planner itself writes none.
#[derive(Debug, Clone, PartialEq)]
pub struct PreparedFile {
    pub path: String,
    pub contents: String,
}

#[derive(Debug, Clone, PartialEq)]
pub struct Step {
    pub id: &'static str,
    pub title: String,
    pub program: String,
    pub args: Vec<String>,
    pub progress: ProgressKind,
    /// The file the step creates. If it already exists the step may be skipped.
    pub produces: Option<String>,
    /// A configuration file to write to disk before the command runs.
    pub prepare: Option<PreparedFile>,
}

#[derive(Debug, Clone, PartialEq)]
pub struct BuildRequest {
    pub output: String,
    /// Folder for intermediate files that survive a crash.
    pub workdir: String,
    pub burn_device: Option<String>,
}

/// Characters a shell takes literally.
pub open spec fn safe_char(c: char) -> bool {
    ('0' <= c && c <= '9') || ('a' <= c && c <= 'z') || ('A' <= c && c <= 'Z') || c == '-' || c
        == '_' || c == '=' || c == ':' || c == '.' || c == ',' || c == '+' || c == '%'
}

fn is_safe_char(c: char) -> (b: bool)
    ensures
        b == safe_char(c),
{
    ('0' <= c && c <= '9') || ('a' <= c && c <= 'z') || ('A' <= c && c <= 'Z') || c == '-' || c
        == '_' || c == '=' || c == ':' || c == '.' || c == ',' || c == '+' || c == '%'
}

/// Single quotes inside a single-quoted word become `'\''`.
pub open spec fn escape_quotes(s: Seq<char>) -> Seq<char>
    decreases s.len(),
{
    if s.len() == 0 {
        Seq::empty()
    } else {
        escape_quotes(s.drop_last()) + if s.last() == '\'' {
            seq!['\'', '\\', '\'', '\'']
        } else {
            seq![s.last()]
        }
    }
}

/// A word as a shell reads it back: as it is if every character is safe,
/// otherwise in single quotes.
pub open spec fn shell_quote(s: Seq<char>) -> Seq<char> {
    if forall|i: int| 0 <= i < s.len() ==> safe_char(#[trigger] s[i]) {
        s
    } else {
        seq!['\''] + escape_quotes(s) + seq!['\'']
    }
}

/// The program and its arguments, quoted, separated by spaces.
pub open spec fn command_text(program: Seq<char>, args: Seq<Seq<char>>) -> Seq<char>
    decreases args.len(),
{
    if args.len() == 0 {
        shell_quote(program)
    } else {
        command_text(program, args.drop_last()) + seq![' '] + shell_quote(args.last())
    }
}

fn quote(s: &str) -> (r: String)
    ensures
        r@ == shell_quote(s@),
{
    let n = s.unicode_len();
    let mut i: usize = 0;
    while i < n
        invariant
            n == s@.len(),
            i <= n,
            forall|j: int| 0 <= j < i ==> safe_char(#[trigger] s@[j]),
        ensures
            i <= n,
            forall|j: int| 0 <= j < i ==> safe_char(#[trigger] s@[j]),
            i < n ==> !safe_char(s@[i as int]),
        decreases n - i,
    {
        if !is_safe_char(s.get_char(i)) {
            break;
        }
        i = i + 1;
    }
    if i == n {
        return owned(s);
    }
    let ghost unsafe_at = i as int;
    let mut r = owned("'");
    proof {
        reveal_strlit("'");
    }
    let mut k: usize = 0;
    while k < n
        invariant
            n == s@.len(),
            k <= n,
            r@ == seq!['\''] + escape_quotes(s@.subrange(0, k as int)),
        decreases n - k,
    {
        let c = s.get_char(k);
        let ghost prev = r@;
        if c == '\'' {
            r.append("'\\''");
            proof {
                reveal_strlit("'\\''");
            }
        } else {
            r.append(s.substring_char(k, k + 1));
            assert(s@.subrange(k as int, k + 1) =~= seq![c]);
        }
        assert(s@.subrange(0, k + 1).drop_last() =~= s@.subrange(0, k as int));
        assert(r@ =~= seq!['\''] + escape_quotes(s@.subrange(0, k + 1)));
        k = k + 1;
    }
    r.append("'");
    assert(s@.subrange(0, n as int) =~= s@);
    assert(!safe_char(s@[unsafe_at]));
    r
}

impl Step {
    /// A line that can be pasted into a terminal as it is.
    pub fn command_line(&self) -> (line: String)
        ensures
            line@ == command_text(self.program@, views(self.args@)),
    {
        let mut out = quote(self.program.as_str());
        let mut i: usize = 0;
        while i < self.args.len()
            invariant
                i <= self.args@.len(),
                out@ == command_text(self.program@, views(self.args@.subrange(0, i as int))),
            decreases self.args@.len() - i,
        {
            out.append(" ");
            let q = quote(self.args[i].as_str());
            out.append(q.as_str());
            proof {
                reveal_strlit(" ");
                let prev = views(self.args@.subrange(0, i as int));
                let next = views(self.args@.subrange(0, i + 1));
                assert(next.drop_last() =~= prev);
            }
            i = i + 1;
        }
        assert(self.args@.subrange(0, i as int) =~= self.args@);
        out
    }
}

/// How a POSIX shell reads one word, one character at a time. The state is
/// 0 outside quotes, 1 inside single quotes, 2 right after a backslash;
/// outside quotes only characters the shell takes literally are accepted.
pub open spec fn shell_step(state: int, out: Seq<char>, c: char) -> Option<(int, Seq<char>)> {
    if state == 0 {
        if c == '\'' {
            Some((1, out))
        } else if c == '\\' {
            Some((2, out))
        } else if safe_char(c) {
            Some((0, out.push(c)))
        } else {
            None
        }
    } else if state == 1 {
        if c == '\'' {
            Some((0, out))
        } else {
            Some((1, out.push(c)))
        }
    } else {
        Some((0, out.push(c)))
    }
}

/// The shell's reading state after `s`, starting from `init`.
pub open spec fn read_chars(init: Option<(int, Seq<char>)>, s: Seq<char>) -> Option<(int, Seq<char>)>
    decreases s.len(),
{
    if s.len() == 0 {
        init
    } else {
        match read_chars(init, s.drop_last()) {
            Some(p) => shell_step(p.0, p.1, s.last()),
            None => None,
        }
    }
}

/// The word the shell reads from `w`, if `w` is one complete word.
pub open spec fn shell_word(w: Seq<char>) -> Option<Seq<char>> {
    match read_chars(Some((0, Seq::empty())), w) {
        Some(p) => if p.0 == 0 {
            Some(p.1)
        } else {
            None
        },
        None => None,
    }
}

proof fn lemma_read_chars_append(init: Option<(int, Seq<char>)>, a: Seq<char>, b: Seq<char>)
    ensures
        read_chars(init, a + b) == read_chars(read_chars(init, a), b),
    decreases b.len(),
{
    if b.len() == 0 {
        assert(a + b =~= a);
    } else {
        lemma_read_chars_append(init, a, b.drop_last());
        assert((a + b).drop_last() =~= a + b.drop_last());
    }
}

proof fn lemma_read_push(init: Option<(int, Seq<char>)>, s: Seq<char>, c: char)
    ensures
        read_chars(init, s.push(c)) == (match read_chars(init, s) {
            Some(p) => shell_step(p.0, p.1, c),
            None => None,
        }),
{
    assert(s.push(c).drop_last() =~= s);
}

proof fn lemma_read_safe(out: Seq<char>, s: Seq<char>)
    requires
        forall|i: int| 0 <= i < s.len() ==> safe_char(#[trigger] s[i]),
    ensures
        read_chars(Some((0, out)), s) == Some((0int, out + s)),
    decreases s.len(),
{
    if s.len() > 0 {
        assert forall|i: int| 0 <= i < s.drop_last().len() implies safe_char(#[trigger] s.drop_last()[i]) by {
            assert(s.drop_last()[i] == s[i]);
        }
        lemma_read_safe(out, s.drop_last());
        assert(safe_char(s[s.len() - 1]));
        assert(out + s.drop_last() + seq![s.last()] =~= out + s);
        assert((out + s.drop_last()).push(s.last()) =~= out + s);
    } else {
        assert(out + s =~= out);
    }
}

proof fn lemma_read_escaped(s: Seq<char>)
    ensures
        read_chars(Some((1, Seq::empty())), escape_quotes(s)) == Some((1int, s)),
    decreases s.len(),
{
    if s.len() > 0 {
        let r = s.drop_last();
        let c = s.last();
        lemma_read_escaped(r);
        let piece = if c == '\'' {
            seq!['\'', '\\', '\'', '\'']
        } else {
            seq![c]
        };
        assert(escape_quotes(s) == escape_quotes(r) + piece);
        lemma_read_chars_append(Some((1, Seq::empty())), escape_quotes(r), piece);
        assert(r.push(c) =~= s);
        let init: Option<(int, Seq<char>)> = Some((1int, r));
        let e: Seq<char> = Seq::empty();
        if c == '\'' {
            assert(seq!['\''] =~= e.push('\''));
            assert(seq!['\'', '\\'] =~= seq!['\''].push('\\'));
            assert(seq!['\'', '\\', '\''] =~= seq!['\'', '\\'].push('\''));
            assert(piece =~= seq!['\'', '\\', '\''].push('\''));
            lemma_read_push(init, e, '\'');
            lemma_read_push(init, seq!['\''], '\\');
            lemma_read_push(init, seq!['\'', '\\'], '\'');
            lemma_read_push(init, seq!['\'', '\\', '\''], '\'');
        } else {
            assert(piece =~= e.push(c));
            lemma_read_push(init, e, c);
        }
    } else {
        assert(escape_quotes(s) =~= Seq::<char>::empty());
    }
}

/// Every word of a command line reads back as itself: a word the shell takes
/// literally is left as it is, any other is single-quoted with its quotes
/// escaped, and the shell reads exactly the original characters back.
pub proof fn law_quoted_word_reads_back(s: Seq<char>)
    ensures
        shell_word(shell_quote(s)) == Some(s),
{
    if forall|i: int| 0 <= i < s.len() ==> safe_char(#[trigger] s[i]) {
        lemma_read_safe(Seq::empty(), s);
        assert(Seq::<char>::empty() + s =~= s);
    } else {
        let open = seq!['\''];
        let e = escape_quotes(s);
        let start: Option<(int, Seq<char>)> = Some((0, Seq::empty()));
        assert(shell_quote(s) == open + e + open);
        lemma_read_chars_append(start, open + e, open);
        lemma_read_chars_append(start, open, e);
        let none: Seq<char> = Seq::empty();
        assert(open =~= none.push('\''));
        lemma_read_push(start, none, '\'');
        lemma_read_escaped(s);
        lemma_read_push(Some((1int, s)), none, '\'');
    }
}

/// How the shell splits a line into words: the words finished so far, the
/// reading state of the current word, and whether a current word has begun.
/// An unquoted space ends the current word; everything else goes through
/// [`shell_step`].
pub open spec fn line_chars(
    init: (Seq<Seq<char>>, Option<(int, Seq<char>)>, bool),
    s: Seq<char>,
) -> (Seq<Seq<char>>, Option<(int, Seq<char>)>, bool)
    decreases s.len(),
{
    if s.len() == 0 {
        init
    } else {
        let (words, cur, started) = line_chars(init, s.drop_last());
        let c = s.last();
        match cur {
            Some(p) => if p.0 == 0 && c == ' ' {
                (if started {
                    words.push(p.1)
                } else {
                    words
                }, Some((0, Seq::empty())), false)
            } else {
                (words, shell_step(p.0, p.1, c), true)
            },
            None => (words, None, started),
        }
    }
}

/// The words the shell reads from a whole line, if it reads it at all.
pub open spec fn shell_words(line: Seq<char>) -> Option<Seq<Seq<char>>> {
    let (words, cur, started) = line_chars((Seq::empty(), Some((0, Seq::empty())), false), line);
    match cur {
        Some(p) => if p.0 == 0 {
            Some(
                if started {
                    words.push(p.1)
                } else {
                    words
                },
            )
        } else {
            None
        },
        None => None,
    }
}

/// A stretch that reads as part of one word (no unquoted space in it) moves
/// the line reader exactly as it moves the word reader.
proof fn lemma_line_follows_word(
    words: Seq<Seq<char>>,
    cur: Option<(int, Seq<char>)>,
    started: bool,
    s: Seq<char>,
)
    requires
        read_chars(cur, s) is Some,
    ensures
        line_chars((words, cur, started), s) == (words, read_chars(cur, s), started || s.len() > 0),
    decreases s.len(),
{
    if s.len() > 0 {
        let r = s.drop_last();
        if read_chars(cur, r) is None {
            assert(read_chars(cur, s) is None);
        }
        lemma_line_follows_word(words, cur, started, r);
    }
}

proof fn lemma_line_append(
    init: (Seq<Seq<char>>, Option<(int, Seq<char>)>, bool),
    a: Seq<char>,
    b: Seq<char>,
)
    ensures
        line_chars(init, a + b) == line_chars(line_chars(init, a), b),
    decreases b.len(),
{
    if b.len() == 0 {
        assert(a + b =~= a);
    } else {
        lemma_line_append(init, a, b.drop_last());
        assert((a + b).drop_last() =~= a + b.drop_last());
    }
}

/// A quoted non-empty word is not empty.
proof fn lemma_quote_nonempty(s: Seq<char>)
    requires
        s.len() > 0,
    ensures
        shell_quote(s).len() > 0,
{
}

/// The line reader after the program and the first `args.len()` arguments:
/// all but the last word finished, the last one read whole.
proof fn lemma_command_prefix(program: Seq<char>, args: Seq<Seq<char>>)
    requires
        program.len() > 0,
        forall|i: int| 0 <= i < args.len() ==> (#[trigger] args[i]).len() > 0,
    ensures
        line_chars((Seq::empty(), Some((0, Seq::empty())), false), command_text(program, args)) == (
            if args.len() == 0 {
                (Seq::<Seq<char>>::empty(), Some((0int, program)), true)
            } else {
                (seq![program] + args.drop_last(), Some((0int, args.last())), true)
            }
        ),
    decreases args.len(),
{
    let start: (Seq<Seq<char>>, Option<(int, Seq<char>)>, bool) = (
        Seq::empty(),
        Some((0, Seq::empty())),
        false,
    );
    if args.len() == 0 {
        law_quoted_word_reads_back(program);
        lemma_quote_nonempty(program);
        lemma_line_follows_word(Seq::empty(), Some((0, Seq::empty())), false, shell_quote(program));
    } else {
        let prev = args.drop_last();
        assert forall|i: int| 0 <= i < prev.len() implies (#[trigger] prev[i]).len() > 0 by {
            assert(prev[i] == args[i]);
        }
        lemma_command_prefix(program, prev);
        let before = command_text(program, prev);
        let a = args.last();
        let q = shell_quote(a);
        assert(command_text(program, args) == before + seq![' '] + q);
        lemma_line_append(start, before + seq![' '], q);
        lemma_line_append(start, before, seq![' ']);
        let mid = line_chars(start, before);
        let last_word = if prev.len() == 0 {
            program
        } else {
            prev.last()
        };
        let done = if prev.len() == 0 {
            Seq::<Seq<char>>::empty()
        } else {
            seq![program] + prev.drop_last()
        };
        assert(mid == (done, Some((0int, last_word)), true));
        assert(seq![' '].drop_last() =~= Seq::<char>::empty());
        assert(line_chars(mid, seq![' '].drop_last()) == mid);
        assert(seq![' '].last() == ' ');
        let after_space = line_chars(mid, seq![' ']);
        assert(after_space == (done.push(last_word), Some((0int, Seq::<char>::empty())), false));
        if prev.len() == 0 {
            assert(done.push(last_word) =~= seq![program] + prev);
        } else {
            assert(prev.drop_last().push(prev.last()) =~= prev);
            assert(done.push(last_word) =~= seq![program] + prev);
        }
        assert(args.drop_last() == prev);
        law_quoted_word_reads_back(a);
        lemma_quote_nonempty(a);
        lemma_line_follows_word(done.push(last_word), Some((0, Seq::empty())), false, q);
    }
}

/// A command line pasted into a terminal runs the same command: the shell
/// reads back the program and every argument, in order, as long as none of
/// them is empty (an empty argument is written as nothing and disappears).
pub proof fn law_command_line_reads_back(program: Seq<char>, args: Seq<Seq<char>>)
    requires
        program.len() > 0,
        forall|i: int| 0 <= i < args.len() ==> (#[trigger] args[i]).len() > 0,
    ensures
        shell_words(command_text(program, args)) == Some(seq![program] + args),
{
    lemma_command_prefix(program, args);
    if args.len() > 0 {
        assert((seq![program] + args.drop_last()).push(args.last()) =~= seq![program] + args);
    } else {
        assert(Seq::<Seq<char>>::empty().push(program) =~= seq![program] + args);
    }
}

/// `name` inside the folder `dir`, as `Path::join` forms it for a relative name.
pub open spec fn path_join(dir: Seq<char>, name: Seq<char>) -> Seq<char> {
    if dir.len() == 0 {
        name
    } else if dir.last() == '/' {
        dir + name
    } else {
        dir + seq!['/'] + name
    }
}

pub(crate) fn join_path(dir: &str, name: &str) -> (r: String)
    ensures
        r@ == path_join(dir@, name@),
{
    let n = dir.unicode_len();
    let mut r = owned(dir);
    if n > 0 && dir.get_char(n - 1) != '/' {
        r.append("/");
        proof {
            reveal_strlit("/");
        }
    }
    r.append(name);
    r
}

/// What a step says: identifier, title, program, arguments, progress
/// format, product and prepared file.
pub type StepView = (
    Seq<char>,
    Seq<char>,
    Seq<char>,
    Seq<Seq<char>>,
    ProgressKind,
    Option<Seq<char>>,
    Option<(Seq<char>, Seq<char>)>,
);

pub open spec fn step_view(s: Step) -> StepView {
    (
        s.id@,
        s.title@,
        s.program@,
        views(s.args@),
        s.progress,
        match s.produces {
            Some(p) => Some(p@),
            None => None,
        },
        match s.prepare {
            Some(f) => Some((f.path@, f.contents@)),
            None => None,
        },
    )
}

pub open spec fn steps_view(v: Seq<Step>) -> Seq<StepView> {
    v.map_values(|s: Step| step_view(s))
}

/// The step that writes the file to the disc in `device`.
#[verifier::opaque]
pub open spec fn burn_view(req: BuildRequest, device: Seq<char>) -> StepView {
    (
        "burn"@,
        "Запись на диск "@ + device,
        "growisofs"@,
        seq![
            "-Z"@,
            device,
            "-V"@,
            "PANDAFIT"@,
            "-udf"@,
            "-allow-limited-size"@,
            req.output@,
        ],
        ProgressKind::Growisofs,
        None,
        None,
    )
}

fn burn_step(req: &BuildRequest, device: &str) -> (s: Step)
    ensures
        step_view(s) == burn_view(*req, device@),
{
    proof {
        reveal(burn_view);
    }
    let mut title = owned("Запись на диск ");
    title.append(device);
    let mut args: Vec<String> = Vec::new();
    push_str(&mut args, "-Z");
    push_str(&mut args, device);
    push_str(&mut args, "-V");
    push_str(&mut args, "PANDAFIT");
    push_str(&mut args, "-udf");
    push_str(&mut args, "-allow-limited-size");
    push_str(&mut args, req.output.as_str());
    let s = Step {
        id: "burn",
        title,
        program: owned("growisofs"),
        args,
        progress: ProgressKind::Growisofs,
        produces: None,
        prepare: None,
    };
    assert(views(s.args@) =~= burn_view(*req, device@).3);
    s
}

} // verus!

verus! {

/// A track that ends up in the result.
pub open spec fn is_kept(plan: Plan, t: Track) -> bool {
    t.kind != TrackKind::Attachment && !(plan.spec_action(t.index) is Drop)
}

/// The kept tracks among the first `n`, in file order.
pub open spec fn kept_upto(tracks: Seq<Track>, plan: Plan, n: int) -> Seq<Track>
    decreases n,
{
    if n <= 0 {
        Seq::empty()
    } else {
        let r = kept_upto(tracks, plan, n - 1);
        if is_kept(plan, tracks[n - 1]) {
            r.push(tracks[n - 1])
        } else {
            r
        }
    }
}

pub open spec fn kept_tracks(media: MediaInfo, plan: Plan) -> Seq<Track> {
    kept_upto(media.tracks@, plan, media.tracks@.len() as int)
}

/// `-map 0:<index>` for every kept track.
pub open spec fn map_args(kept: Seq<Track>) -> Seq<Seq<char>>
    decreases kept.len(),
{
    if kept.len() == 0 {
        Seq::empty()
    } else {
        map_args(kept.drop_last()) + seq!["-map"@, "0:"@ + decimal(kept.last().index as nat)]
    }
}

/// ffmpeg numbers output streams separately for video, audio and the rest.
pub open spec fn stream_class(k: TrackKind) -> int {
    match k {
        TrackKind::Video => 0,
        TrackKind::Audio => 1,
        _ => 2,
    }
}

/// How many tracks of the class the sequence holds.
pub open spec fn class_count(s: Seq<Track>, c: int) -> nat
    decreases s.len(),
{
    if s.len() == 0 {
        0
    } else {
        class_count(s.drop_last(), c) + if stream_class(s.last().kind) == c {
            1nat
        } else {
            0nat
        }
    }
}

/// The codec arguments of every transcoded kept track, each addressed by
/// its number among the kept streams of its class.
pub open spec fn transcode_args(kept: Seq<Track>, plan: Plan, registry: CodecRegistry, duration: Seconds) -> Seq<
    Seq<char>,
>
    decreases kept.len(),
{
    if kept.len() == 0 {
        Seq::empty()
    } else {
        let r = transcode_args(kept.drop_last(), plan, registry, duration);
        let t = kept.last();
        let out = class_count(kept.drop_last(), stream_class(t.kind));
        match plan.spec_action(t.index) {
            TrackAction::Transcode { codec_id, opts } => match registry.spec_get(codec_id@) {
                Some(p) => r + p.spec_args(t, opts, out),
                None => r,
            },
            _ => r,
        }
    }
}

/// Seeking before `-i`: ffmpeg then cuts by the container, which is faster
/// and more accurate in time.
pub open spec fn seek_args(media: MediaInfo, plan: Plan) -> Seq<Seq<char>> {
    (if plan.range.start_s.ms > 0 {
        seq!["-ss"@, fixed3(plan.range.start_s.ms as nat)]
    } else {
        Seq::empty()
    }) + (if !plan.range.spec_is_full(media.duration_s) {
        seq!["-to"@, fixed3(plan.range.end_s.ms as nat)]
    } else {
        Seq::empty()
    })
}

pub open spec fn build_args(media: MediaInfo, plan: Plan, registry: CodecRegistry, req: BuildRequest) -> Seq<
    Seq<char>,
> {
    let kept = kept_tracks(media, plan);
    seq!["-hide_banner"@, "-y"@] + seek_args(media, plan) + seq!["-i"@, media.path@] + map_args(kept)
        + seq!["-c"@, "copy"@] + transcode_args(
        kept,
        plan,
        registry,
        Seconds { ms: plan.range.spec_duration_ms() as u64 },
    ) + seq![
        "-map_metadata"@,
        "0"@,
        "-map_chapters"@,
        "0"@,
        "-progress"@,
        "pipe:1"@,
        "-nostats"@,
        req.output@,
    ]
}

/// The single ffmpeg step: copy is the default, transcoded streams override it.
#[verifier::opaque]
pub open spec fn build_view(media: MediaInfo, plan: Plan, registry: CodecRegistry, req: BuildRequest) -> StepView {
    (
        "build"@,
        "Сборка файла"@,
        "ffmpeg"@,
        build_args(media, plan, registry, req),
        ProgressKind::FfmpegPipe,
        Some(req.output@),
        None,
    )
}

fn kept_list<'a>(media: &'a MediaInfo, plan: &Plan) -> (v: Vec<&'a Track>)
    requires
        plan.wf(),
    ensures
        v@.map_values(|t: &Track| *t) == kept_tracks(*media, *plan),
{
    let mut v: Vec<&Track> = Vec::new();
    let mut i: usize = 0;
    while i < media.tracks.len()
        invariant
            plan.wf(),
            i <= media.tracks@.len(),
            v@.map_values(|t: &Track| *t) == kept_upto(media.tracks@, *plan, i as int),
        decreases media.tracks@.len() - i,
    {
        let t = &media.tracks[i];
        if t.kind != TrackKind::Attachment && !matches!(plan.action(t.index), TrackAction::Drop) {
            v.push(t);
        }
        assert(v@.map_values(|t: &Track| *t) =~= kept_upto(media.tracks@, *plan, i + 1));
        i = i + 1;
    }
    v
}

fn map_arg_list(kept: &Vec<&Track>) -> (v: Vec<String>)
    ensures
        views(v@) == map_args(kept@.map_values(|t: &Track| *t)),
{
    let mut v: Vec<String> = Vec::new();
    let mut i: usize = 0;
    while i < kept.len()
        invariant
            i <= kept@.len(),
            views(v@) == map_args(kept@.subrange(0, i as int).map_values(|t: &Track| *t)),
        decreases kept@.len() - i,
    {
        push_str(&mut v, "-map");
        let mut m = owned("0:");
        m.append(u64_to_string(kept[i].index as u64).as_str());
        push_string(&mut v, m);
        proof {
            let prev = kept@.subrange(0, i as int).map_values(|t: &Track| *t);
            let next = kept@.subrange(0, i + 1).map_values(|t: &Track| *t);
            assert(next.drop_last() =~= prev);
        }
        i = i + 1;
    }
    assert(kept@.subrange(0, i as int) =~= kept@);
    v
}

/// Output stream counters, kept separately per type: ffmpeg addresses
/// streams as `-c:a:0`, `-c:a:1`, `-c:v:0`.
struct OutIdx {
    video: usize,
    audio: usize,
    subtitle: usize,
}

impl OutIdx {
    spec fn count(self, c: int) -> nat {
        if c == 0 {
            self.video as nat
        } else if c == 1 {
            self.audio as nat
        } else {
            self.subtitle as nat
        }
    }

    /// The next number in the kind's class; the counter moves on.
    fn next(&mut self, kind: TrackKind) -> (i: usize)
        requires
            old(self).count(stream_class(kind)) < usize::MAX,
        ensures
            i == old(self).count(stream_class(kind)),
            final(self).count(stream_class(kind)) == i + 1,
            forall|c: int| 0 <= c <= 2 && c != stream_class(kind) ==> #[trigger] final(self).count(c) == old(self).count(c),
    {
        match kind {
            TrackKind::Video => {
                let i = self.video;
                self.video = i + 1;
                i
            },
            TrackKind::Audio => {
                let i = self.audio;
                self.audio = i + 1;
                i
            },
            _ => {
                let i = self.subtitle;
                self.subtitle = i + 1;
                i
            },
        }
    }
}

proof fn lemma_class_count_le(s: Seq<Track>, c: int)
    ensures
        class_count(s, c) <= s.len(),
    decreases s.len(),
{
    if s.len() > 0 {
        lemma_class_count_le(s.drop_last(), c);
    }
}

fn transcode_arg_list(
    kept: &Vec<&Track>,
    plan: &Plan,
    registry: &CodecRegistry,
    duration: Seconds,
) -> (v: Vec<String>)
    requires
        plan.wf(),
        registry.wf(),
    ensures
        views(v@) == transcode_args(kept@.map_values(|t: &Track| *t), *plan, *registry, duration),
{
    let mut v: Vec<String> = Vec::new();
    let mut idx = OutIdx { video: 0, audio: 0, subtitle: 0 };
    let mut i: usize = 0;
    while i < kept.len()
        invariant
            plan.wf(),
            registry.wf(),
            i <= kept@.len(),
            forall|c: int| 0 <= c <= 2 ==> #[trigger] idx.count(c) == class_count(kept@.subrange(0, i as int).map_values(|t: &Track| *t), c),
            views(v@) == transcode_args(
                kept@.subrange(0, i as int).map_values(|t: &Track| *t),
                *plan,
                *registry,
                duration,
            ),
        decreases kept@.len() - i,
    {
        let t = kept[i];
        let ghost prev = kept@.subrange(0, i as int).map_values(|t: &Track| *t);
        let ghost next = kept@.subrange(0, i + 1).map_values(|t: &Track| *t);
        proof {
            assert(next.drop_last() =~= prev);
            lemma_class_count_le(prev, stream_class(t.kind));
        }
        let out_idx = idx.next(t.kind);
        if let TrackAction::Transcode { codec_id, opts } = plan.action(t.index) {
            if let Some(profile) = registry.get(codec_id.as_str()) {
                let ctx = EncodeCtx { src: t, opts, duration_s: duration };
                let more = profile.args(&ctx, out_idx);
                extend_strings(&mut v, more);
            }
        }
        proof {
            assert forall|c: int| 0 <= c <= 2 implies #[trigger] idx.count(c) == class_count(next, c) by {}
        }
        i = i + 1;
    }
    assert(kept@.subrange(0, i as int) =~= kept@);
    v
}

fn seek_arg_list(media: &MediaInfo, plan: &Plan) -> (v: Vec<String>)
    ensures
        views(v@) == seek_args(*media, *plan),
{
    let mut v: Vec<String> = Vec::new();
    if plan.range.start_s.ms > 0 {
        push_str(&mut v, "-ss");
        push_string(&mut v, fixed3_to_string(plan.range.start_s.ms));
    }
    if !plan.range.is_full(media.duration_s) {
        push_str(&mut v, "-to");
        push_string(&mut v, fixed3_to_string(plan.range.end_s.ms));
    }
    assert(views(v@) =~= seek_args(*media, *plan));
    v
}

fn ffmpeg_build_step(media: &MediaInfo, plan: &Plan, registry: &CodecRegistry, req: &BuildRequest) -> (s: Step)
    requires
        plan.wf(),
        registry.wf(),
    ensures
        step_view(s) == build_view(*media, *plan, *registry, *req),
{
    proof {
        reveal(build_view);
    }
    let duration = plan.range.duration_s();
    let mut args: Vec<String> = Vec::new();
    push_str(&mut args, "-hide_banner");
    push_str(&mut args, "-y");
    extend_strings(&mut args, seek_arg_list(media, plan));
    push_str(&mut args, "-i");
    push_str(&mut args, media.path.as_str());
    let kept = kept_list(media, plan);
    extend_strings(&mut args, map_arg_list(&kept));
    push_str(&mut args, "-c");
    push_str(&mut args, "copy");
    extend_strings(&mut args, transcode_arg_list(&kept, plan, registry, duration));
    push_str(&mut args, "-map_metadata");
    push_str(&mut args, "0");
    push_str(&mut args, "-map_chapters");
    push_str(&mut args, "0");
    push_str(&mut args, "-progress");
    push_str(&mut args, "pipe:1");
    push_str(&mut args, "-nostats");
    push_str(&mut args, req.output.as_str());
    let s = Step {
        id: "build",
        title: owned("Сборка файла"),
        program: owned("ffmpeg"),
        args,
        progress: ProgressKind::FfmpegPipe,
        produces: Some(req.output.clone()),
        prepare: None,
    };
    assert(views(s.args@) =~= build_args(*media, *plan, *registry, *req));
    s
}

} // verus!

verus! {

/// Whether Dolby Vision has to be carried through a separate chain: the
/// source is Dolby Vision and its video is transcoded with a profile that
/// keeps the layer.
pub open spec fn spec_needs_dv_chain(media: MediaInfo, plan: Plan, registry: CodecRegistry) -> bool {
    &&& media.color is DolbyVision
    &&& first_track_where(media.tracks@, is_video()) matches Some(v)
    &&& plan.spec_action(v.index) matches TrackAction::Transcode { codec_id, .. }
    &&& registry.spec_get(codec_id@) matches Some(p)
    &&& p.spec_preserves_dolby_vision()
}

/// Whether a separate chain is needed to keep Dolby Vision.
pub fn needs_dv_chain(media: &MediaInfo, plan: &Plan, registry: &CodecRegistry) -> (b: bool)
    requires
        plan.wf(),
        registry.wf(),
    ensures
        b == spec_needs_dv_chain(*media, *plan, *registry),
{
    if !media.color.is_dolby_vision() {
        return false;
    }
    let video = match media.video() {
        Some(v) => v,
        None => return false,
    };
    match plan.action(video.index) {
        TrackAction::Transcode { codec_id, .. } => match registry.get(codec_id.as_str()) {
            Some(p) => p.preserves_dolby_vision(),
            None => false,
        },
        _ => false,
    }
}

pub open spec fn dv_video(media: MediaInfo) -> Track {
    first_track_where(media.tracks@, is_video())->0
}

pub open spec fn is_trimmed(media: MediaInfo, plan: Plan) -> bool {
    !plan.range.spec_is_full(media.duration_s)
}

pub open spec fn rpu_raw_path(req: BuildRequest) -> Seq<char> {
    path_join(req.workdir@, "rpu.bin"@)
}

/// The RPU the encoder reads: the trimmed one when the film is trimmed.
pub open spec fn rpu_used_path(media: MediaInfo, plan: Plan, req: BuildRequest) -> Seq<char> {
    if is_trimmed(media, plan) {
        path_join(req.workdir@, "rpu.trimmed.bin"@)
    } else {
        rpu_raw_path(req)
    }
}

pub open spec fn hevc_path(req: BuildRequest) -> Seq<char> {
    path_join(req.workdir@, "video.hevc"@)
}

pub open spec fn rpu_config_path(req: BuildRequest) -> Seq<char> {
    path_join(req.workdir@, "rpu-edit.json"@)
}

/// Step 1: take the layer of dynamic metadata out of the source stream.
#[verifier::opaque]
pub open spec fn extract_view(media: MediaInfo, req: BuildRequest) -> StepView {
    (
        "dv_extract"@,
        "Извлечение метаданных Dolby Vision"@,
        "dovi_tool"@,
        seq!["extract-rpu"@, media.path@, "-o"@, rpu_raw_path(req)],
        ProgressKind::DoviTool,
        Some(rpu_raw_path(req)),
        None,
    )
}

/// The frame ranges outside the kept stretch, as JSON strings: the frames
/// before `first` (if any) and everything after `last`.
pub open spec fn removed_ranges(first: nat, last: nat) -> Seq<char> {
    if first > 0 {
        "\"0-"@ + decimal((first - 1) as nat) + "\", \""@ + decimal(last + 1) + "-\""@
    } else {
        "\""@ + decimal(last + 1) + "-\""@
    }
}

/// The `dovi_tool editor` configuration that removes the frames outside the
/// kept stretch, computed from the real frame rate.
pub open spec fn rpu_config(media: MediaInfo, plan: Plan) -> Seq<char> {
    "{\n  \"remove\": ["@ + removed_ranges(
        media.fps.spec_frame_at(plan.range.start_s),
        media.fps.spec_frame_at(plan.range.end_s),
    ) + "]\n}\n"@
}

/// Step 2: the RPU has to match the video frame by frame, so a trim cuts it too.
#[verifier::opaque]
pub open spec fn trim_view(media: MediaInfo, plan: Plan, req: BuildRequest) -> StepView {
    (
        "dv_trim"@,
        "Обрезка метаданных Dolby Vision под новый диапазон"@,
        "dovi_tool"@,
        seq![
            "editor"@,
            "-i"@,
            rpu_raw_path(req),
            "-j"@,
            rpu_config_path(req),
            "-o"@,
            rpu_used_path(media, plan, req),
        ],
        ProgressKind::DoviTool,
        Some(rpu_used_path(media, plan, req)),
        Some((rpu_config_path(req), rpu_config(media, plan))),
    )
}

/// Bitrate of the re-encoded video in kilobits.
pub open spec fn dv_kbit(plan: Plan, v: Track) -> nat {
    (match plan.spec_action(v.index) {
        TrackAction::Transcode { opts, .. } => match opts.bitrate_bps {
            Some(b) => b,
            None => v.bps.value,
        },
        _ => v.bps.value,
    } / 1000) as nat
}

pub open spec fn x265_params(media: MediaInfo, plan: Plan, req: BuildRequest) -> Seq<char> {
    let kbit = dv_kbit(plan, dv_video(media));
    "dolby-vision-rpu="@ + rpu_used_path(media, plan, req) + ":dolby-vision-profile=8.1:vbv-maxrate="@
        + decimal(kbit * 12 / 10) + ":vbv-bufsize="@ + decimal(kbit * 2) + ":hrd=1"@
}

pub open spec fn encode_args(media: MediaInfo, plan: Plan, req: BuildRequest) -> Seq<Seq<char>> {
    let v = dv_video(media);
    seq!["-hide_banner"@, "-y"@] + seek_args(media, plan) + seq![
        "-i"@,
        media.path@,
        "-map"@,
        "0:"@ + decimal(v.index as nat),
        "-an"@,
        "-sn"@,
        "-c:v"@,
        "libx265"@,
        "-pix_fmt"@,
        "yuv420p10le"@,
        "-b:v"@,
        decimal(dv_kbit(plan, v)) + "k"@,
        "-x265-params"@,
        x265_params(media, plan, req),
        "-f"@,
        "hevc"@,
        "-progress"@,
        "pipe:1"@,
        "-nostats"@,
        hevc_path(req),
    ]
}

/// Step 3: encoding with the RPU handed to x265.
#[verifier::opaque]
pub open spec fn encode_view(media: MediaInfo, plan: Plan, req: BuildRequest) -> StepView {
    (
        "dv_encode"@,
        "Кодирование видео с сохранением Dolby Vision"@,
        "ffmpeg"@,
        encode_args(media, plan, req),
        ProgressKind::FfmpegPipe,
        Some(hevc_path(req)),
        None,
    )
}

/// Decimal indices of the kept tracks of a kind among the first `n`.
pub open spec fn kind_indices_upto(tracks: Seq<Track>, plan: Plan, kind: TrackKind, n: int) -> Seq<
    Seq<char>,
>
    decreases n,
{
    if n <= 0 {
        Seq::empty()
    } else {
        let r = kind_indices_upto(tracks, plan, kind, n - 1);
        let t = tracks[n - 1];
        if t.kind == kind && !(plan.spec_action(t.index) is Drop) {
            r.push(decimal(t.index as nat))
        } else {
            r
        }
    }
}

pub open spec fn kind_indices(media: MediaInfo, plan: Plan, kind: TrackKind) -> Seq<Seq<char>> {
    kind_indices_upto(media.tracks@, plan, kind, media.tracks@.len() as int)
}

pub open spec fn mux_args(media: MediaInfo, plan: Plan, req: BuildRequest) -> Seq<Seq<char>> {
    let audio = kind_indices(media, plan, TrackKind::Audio);
    let subs = kind_indices(media, plan, TrackKind::Subtitle);
    seq!["-o"@, req.output@, hevc_path(req)] + (if audio.len() == 0 {
        seq!["--no-audio"@]
    } else {
        seq!["--audio-tracks"@, seq_join(audio, ","@)]
    }) + (if subs.len() == 0 {
        seq!["--no-subtitles"@]
    } else {
        seq!["--subtitle-tracks"@, seq_join(subs, ","@)]
    }) + seq!["--no-video"@] + (if is_trimmed(media, plan) {
        seq![
            "--split"@,
            "parts:"@ + shortest_thousandths(plan.range.start_s.ms as nat) + "s-"@
                + shortest_thousandths(plan.range.end_s.ms as nat) + "s"@,
        ]
    } else {
        Seq::empty()
    }) + seq![media.path@]
}

/// Step 4: mkvmerge assembles the container and sets the Dolby Vision flags;
/// audio and subtitles go to separate track lists.
#[verifier::opaque]
pub open spec fn mux_view(media: MediaInfo, plan: Plan, req: BuildRequest) -> StepView {
    (
        "dv_mux"@,
        "Сборка итогового MKV"@,
        "mkvmerge"@,
        mux_args(media, plan, req),
        ProgressKind::Silent,
        Some(req.output@),
        None,
    )
}

pub open spec fn dv_steps(media: MediaInfo, plan: Plan, req: BuildRequest) -> Seq<StepView> {
    seq![extract_view(media, req)] + (if is_trimmed(media, plan) {
        seq![trim_view(media, plan, req)]
    } else {
        Seq::empty()
    }) + seq![encode_view(media, plan, req), mux_view(media, plan, req)]
}

/// The whole chain for a plan: the Dolby Vision chain or the single ffmpeg
/// step, then the burn step when a device is given.
pub open spec fn spec_compile(media: MediaInfo, plan: Plan, registry: CodecRegistry, req: BuildRequest) -> Seq<StepView> {
    (if spec_needs_dv_chain(media, plan, registry) {
        dv_steps(media, plan, req)
    } else {
        seq![build_view(media, plan, registry, req)]
    }) + match req.burn_device {
        Some(d) => seq![burn_view(req, d@)],
        None => Seq::empty(),
    }
}

fn extract_step(media: &MediaInfo, req: &BuildRequest) -> (s: Step)
    ensures
        step_view(s) == extract_view(*media, *req),
{
    proof {
        reveal(extract_view);
    }
    let rpu_raw = join_path(req.workdir.as_str(), "rpu.bin");
    let mut args: Vec<String> = Vec::new();
    push_str(&mut args, "extract-rpu");
    push_str(&mut args, media.path.as_str());
    push_str(&mut args, "-o");
    push_str(&mut args, rpu_raw.as_str());
    let s = Step {
        id: "dv_extract",
        title: owned("Извлечение метаданных Dolby Vision"),
        program: owned("dovi_tool"),
        args,
        progress: ProgressKind::DoviTool,
        produces: Some(rpu_raw),
        prepare: None,
    };
    assert(views(s.args@) =~= extract_view(*media, *req).3);
    s
}

fn rpu_config_text(media: &MediaInfo, plan: &Plan) -> (c: String)
    ensures
        c@ == rpu_config(*media, *plan),
{
    let first = media.fps.frame_at(plan.range.start_s);
    let last = media.fps.frame_at(plan.range.end_s);
    let mut c = owned("{\n  \"remove\": [");
    if first > 0 {
        c.append("\"0-");
        c.append(u128_to_string(first - 1).as_str());
        c.append("\", \"");
    } else {
        c.append("\"");
    }
    c.append(u128_to_string(last + 1).as_str());
    c.append("-\"");
    c.append("]\n}\n");
    assert(c@ =~= rpu_config(*media, *plan));
    c
}

fn trim_step(media: &MediaInfo, plan: &Plan, req: &BuildRequest) -> (s: Step)
    requires
        is_trimmed(*media, *plan),
    ensures
        step_view(s) == trim_view(*media, *plan, *req),
{
    proof {
        reveal(trim_view);
    }
    let rpu_raw = join_path(req.workdir.as_str(), "rpu.bin");
    let rpu_used = join_path(req.workdir.as_str(), "rpu.trimmed.bin");
    let config_path = join_path(req.workdir.as_str(), "rpu-edit.json");
    let contents = rpu_config_text(media, plan);
    let mut args: Vec<String> = Vec::new();
    push_str(&mut args, "editor");
    push_str(&mut args, "-i");
    push_str(&mut args, rpu_raw.as_str());
    push_str(&mut args, "-j");
    push_str(&mut args, config_path.as_str());
    push_str(&mut args, "-o");
    push_str(&mut args, rpu_used.as_str());
    let s = Step {
        id: "dv_trim",
        title: owned("Обрезка метаданных Dolby Vision под новый диапазон"),
        program: owned("dovi_tool"),
        args,
        progress: ProgressKind::DoviTool,
        produces: Some(rpu_used),
        prepare: Some(PreparedFile { path: config_path, contents }),
    };
    assert(views(s.args@) =~= trim_view(*media, *plan, *req).3);
    s
}

fn encode_step(media: &MediaInfo, plan: &Plan, req: &BuildRequest, video: &Track) -> (s: Step)
    requires
        plan.wf(),
        *video == dv_video(*media),
    ensures
        step_view(s) == encode_view(*media, *plan, *req),
{
    proof {
        reveal(encode_view);
    }
    let trimmed = !plan.range.is_full(media.duration_s);
    let rpu_used = if trimmed {
        join_path(req.workdir.as_str(), "rpu.trimmed.bin")
    } else {
        join_path(req.workdir.as_str(), "rpu.bin")
    };
    let hevc = join_path(req.workdir.as_str(), "video.hevc");
    let bitrate = match plan.action(video.index) {
        TrackAction::Transcode { opts, .. } => match opts.bitrate_bps {
            Some(b) => b,
            None => video.bps.value,
        },
        _ => video.bps.value,
    };
    let kbit = bitrate / 1000;
    let mut params = owned("dolby-vision-rpu=");
    params.append(rpu_used.as_str());
    params.append(":dolby-vision-profile=8.1:vbv-maxrate=");
    params.append(u64_to_string(kbit * 12 / 10).as_str());
    params.append(":vbv-bufsize=");
    params.append(u64_to_string(kbit * 2).as_str());
    params.append(":hrd=1");
    let mut map = owned("0:");
    map.append(u64_to_string(video.index as u64).as_str());
    let mut rate = u64_to_string(kbit);
    rate.append("k");
    let mut args: Vec<String> = Vec::new();
    push_str(&mut args, "-hide_banner");
    push_str(&mut args, "-y");
    extend_strings(&mut args, seek_arg_list(media, plan));
    push_str(&mut args, "-i");
    push_str(&mut args, media.path.as_str());
    push_str(&mut args, "-map");
    push_string(&mut args, map);
    push_str(&mut args, "-an");
    push_str(&mut args, "-sn");
    push_str(&mut args, "-c:v");
    push_str(&mut args, "libx265");
    push_str(&mut args, "-pix_fmt");
    push_str(&mut args, "yuv420p10le");
    push_str(&mut args, "-b:v");
    push_string(&mut args, rate);
    push_str(&mut args, "-x265-params");
    push_string(&mut args, params);
    push_str(&mut args, "-f");
    push_str(&mut args, "hevc");
    push_str(&mut args, "-progress");
    push_str(&mut args, "pipe:1");
    push_str(&mut args, "-nostats");
    push_str(&mut args, hevc.as_str());
    let s = Step {
        id: "dv_encode",
        title: owned("Кодирование видео с сохранением Dolby Vision"),
        program: owned("ffmpeg"),
        args,
        progress: ProgressKind::FfmpegPipe,
        produces: Some(hevc),
        prepare: None,
    };
    assert(views(s.args@) =~= encode_view(*media, *plan, *req).3);
    s
}

fn kind_index_list(media: &MediaInfo, plan: &Plan, kind: TrackKind) -> (v: Vec<String>)
    requires
        plan.wf(),
    ensures
        views(v@) == kind_indices(*media, *plan, kind),
{
    let mut v: Vec<String> = Vec::new();
    let mut i: usize = 0;
    while i < media.tracks.len()
        invariant
            plan.wf(),
            i <= media.tracks@.len(),
            views(v@) == kind_indices_upto(media.tracks@, *plan, kind, i as int),
        decreases media.tracks@.len() - i,
    {
        let t = &media.tracks[i];
        if t.kind == kind && !matches!(plan.action(t.index), TrackAction::Drop) {
            push_string(&mut v, u64_to_string(t.index as u64));
        }
        i = i + 1;
    }
    v
}

fn mux_step(media: &MediaInfo, plan: &Plan, req: &BuildRequest) -> (s: Step)
    requires
        plan.wf(),
    ensures
        step_view(s) == mux_view(*media, *plan, *req),
{
    proof {
        reveal(mux_view);
    }
    let hevc = join_path(req.workdir.as_str(), "video.hevc");
    let mut args: Vec<String> = Vec::new();
    push_str(&mut args, "-o");
    push_str(&mut args, req.output.as_str());
    push_string(&mut args, hevc);
    let audio = kind_index_list(media, plan, TrackKind::Audio);
    let subs = kind_index_list(media, plan, TrackKind::Subtitle);
    if audio.len() == 0 {
        push_str(&mut args, "--no-audio");
    } else {
        push_str(&mut args, "--audio-tracks");
        push_string(&mut args, join_strings(&audio, ","));
    }
    if subs.len() == 0 {
        push_str(&mut args, "--no-subtitles");
    } else {
        push_str(&mut args, "--subtitle-tracks");
        push_string(&mut args, join_strings(&subs, ","));
    }
    push_str(&mut args, "--no-video");
    if !plan.range.is_full(media.duration_s) {
        push_str(&mut args, "--split");
        let mut parts = owned("parts:");
        parts.append(shortest_thousandths_to_string(plan.range.start_s.ms).as_str());
        parts.append("s-");
        parts.append(shortest_thousandths_to_string(plan.range.end_s.ms).as_str());
        parts.append("s");
        push_string(&mut args, parts);
    }
    push_str(&mut args, media.path.as_str());
    let s = Step {
        id: "dv_mux",
        title: owned("Сборка итогового MKV"),
        program: owned("mkvmerge"),
        args,
        progress: ProgressKind::Silent,
        produces: Some(req.output.clone()),
        prepare: None,
    };
    assert(views(s.args@) =~= mux_view(*media, *plan, *req).3);
    s
}

fn push_step(v: &mut Vec<Step>, s: Step)
    ensures
        steps_view(final(v)@) == steps_view(old(v)@).push(step_view(s)),
{
    v.push(s);
    assert(steps_view(v@) =~= steps_view(old(v)@).push(step_view(s)));
}

fn dv_chain(media: &MediaInfo, plan: &Plan, registry: &CodecRegistry, req: &BuildRequest) -> (v: Vec<Step>)
    requires
        plan.wf(),
        registry.wf(),
        spec_needs_dv_chain(*media, *plan, *registry),
    ensures
        steps_view(v@) == dv_steps(*media, *plan, *req),
{
    let video = match media.video() {
        Some(v) => v,
        None => vstd::pervasive::unreached(),
    };
    let mut steps: Vec<Step> = Vec::new();
    let first = extract_step(media, req);
    push_step(&mut steps, first);
    let ghost a = steps_view(steps@);
    assert(a =~= seq![extract_view(*media, *req)]);
    if !plan.range.is_full(media.duration_s) {
        let t = trim_step(media, plan, req);
        push_step(&mut steps, t);
    }
    let ghost b = steps_view(steps@);
    assert(b =~= a + (if is_trimmed(*media, *plan) {
        seq![trim_view(*media, *plan, *req)]
    } else {
        Seq::<StepView>::empty()
    }));
    let e = encode_step(media, plan, req, video);
    push_step(&mut steps, e);
    let m = mux_step(media, plan, req);
    push_step(&mut steps, m);
    assert(steps_view(steps@) =~= b + seq![encode_view(*media, *plan, *req), mux_view(*media, *plan, *req)]);
    steps
}

/// The chain of commands that builds the file (and burns it if asked to).
pub fn compile(media: &MediaInfo, plan: &Plan, registry: &CodecRegistry, req: &BuildRequest) -> (v: Vec<Step>)
    requires
        plan.wf(),
        registry.wf(),
    ensures
        steps_view(v@) == spec_compile(*media, *plan, *registry, *req),
{
    let mut steps = if needs_dv_chain(media, plan, registry) {
        dv_chain(media, plan, registry, req)
    } else {
        let mut one: Vec<Step> = Vec::new();
        one.push(ffmpeg_build_step(media, plan, registry, req));
        one
    };
    let ghost before = steps@;
    if let Some(dev) = &req.burn_device {
        steps.push(burn_step(req, dev.as_str()));
    }
    assert(steps_view(steps@) =~= spec_compile(*media, *plan, *registry, *req));
    steps
}

} // verus!

verus! {

/// The shape of the chain: a plan that keeps Dolby Vision goes through
/// extract, (trim,) encode and mux, every one of which declares the file it
/// produces; any other plan is a single ffmpeg step; a burn device adds the
/// burn step at the end.
pub proof fn law_compile_shape(media: MediaInfo, plan: Plan, registry: CodecRegistry, req: BuildRequest)
    ensures
        ({
            let steps = spec_compile(media, plan, registry, req);
            let needs = spec_needs_dv_chain(media, plan, registry);
            let n: int = if needs {
                if is_trimmed(media, plan) {
                    4
                } else {
                    3
                }
            } else {
                1
            };
            &&& req.burn_device is None ==> steps.len() == n
            &&& (req.burn_device matches Some(d) ==> steps.len() == n + 1 && steps[n] == burn_view(
                req,
                d@,
            ))
            &&& !needs ==> steps[0] == build_view(media, plan, registry, req)
            &&& needs ==> forall|i: int| 0 <= i < n ==> (#[trigger] steps[i]).5 is Some
            &&& needs ==> steps[0].0 == "dv_extract"@ && steps[n - 2].0 == "dv_encode"@ && steps[n
                - 1].0 == "dv_mux"@
        }),
{
    reveal(extract_view);
    reveal(trim_view);
    reveal(encode_view);
    reveal(mux_view);
    let steps = spec_compile(media, plan, registry, req);
    if spec_needs_dv_chain(media, plan, registry) {
        let d = dv_steps(media, plan, req);
        assert(d.len() == if is_trimmed(media, plan) { 4int } else { 3int });
        assert forall|i: int| 0 <= i < d.len() implies (#[trigger] steps[i]).5 is Some by {
            assert(steps[i] == d[i]);
        }
    }
}

} // verus!

verus! {

/// The arguments hand x265, after `-x265-params`, parameters that begin with
/// `dolby-vision-rpu=` and the path of `rpu`.
pub open spec fn hands_rpu_to_x265(args: Seq<Seq<char>>, rpu: Seq<char>) -> bool {
    exists|k: int|
        0 <= k && k + 1 < args.len() && #[trigger] args[k] == "-x265-params"@ && ("dolby-vision-rpu="@
            + rpu).is_prefix_of(args[k + 1])
}

/// How the Dolby Vision chain is linked: each step reads what the step before
/// it produced. The trim step reads the extracted RPU; the encoder is handed,
/// after `dolby-vision-rpu=`, the RPU that the step before it produced (the
/// trimmed one when the film is trimmed); mkvmerge reads the encoded video,
/// takes the kept audio and subtitle tracks of the source as two lists (or
/// none of a kind), no video from the source, the source last, and produces
/// the requested output.
pub proof fn law_dv_chain_links(media: MediaInfo, plan: Plan, registry: CodecRegistry, req: BuildRequest)
    requires
        spec_needs_dv_chain(media, plan, registry),
    ensures
        ({
            let steps = spec_compile(media, plan, registry, req);
            let trimmed = is_trimmed(media, plan);
            let n: int = if trimmed { 4 } else { 3 };
            let extract = steps[0];
            let rpu = steps[n - 3];
            let encode = steps[n - 2];
            let mux = steps[n - 1];
            let audio = kind_indices(media, plan, TrackKind::Audio);
            let subs = kind_indices(media, plan, TrackKind::Subtitle);
            &&& extract.5 == Some(rpu_raw_path(req))
            &&& trimmed ==> steps[1].0 == "dv_trim"@ && steps[1].3[1] == "-i"@ && steps[1].3[2]
                == rpu_raw_path(req)
            &&& rpu.5 == Some(rpu_used_path(media, plan, req))
            &&& rpu_used_path(media, plan, req) == path_join(
                req.workdir@,
                if trimmed {
                    "rpu.trimmed.bin"@
                } else {
                    "rpu.bin"@
                },
            )
            &&& encode.5 == Some(hevc_path(req))
            &&& mux.2 == "mkvmerge"@
            &&& mux.3[2] == hevc_path(req)
            &&& mux.5 == Some(req.output@)
            &&& audio.len() == 0 ==> mux.3[3] == "--no-audio"@
            &&& audio.len() > 0 ==> mux.3[3] == "--audio-tracks"@ && mux.3[4] == seq_join(
                audio,
                ","@,
            )
            &&& ({
                let j: int = if audio.len() == 0 { 4 } else { 5 };
                &&& subs.len() == 0 ==> mux.3[j] == "--no-subtitles"@
                &&& subs.len() > 0 ==> mux.3[j] == "--subtitle-tracks"@ && mux.3[j + 1]
                    == seq_join(subs, ","@)
            })
            &&& mux.3.contains("--no-video"@)
            &&& mux.3.last() == media.path@
        }),
        hands_rpu_to_x265(
            spec_compile(media, plan, registry, req)[if is_trimmed(media, plan) {
                2int
            } else {
                1int
            }].3,
            rpu_used_path(media, plan, req),
        ),
{
    let steps = spec_compile(media, plan, registry, req);
    let d = dv_steps(media, plan, req);
    lemma_compile_starts_with_dv(media, plan, registry, req);
    lemma_dv_step_fields(media, plan, req);
    lemma_encode_names_rpu(media, plan, req);
    lemma_mux_layout(media, plan, req);
    let trimmed = is_trimmed(media, plan);
    let n: int = if trimmed { 4 } else { 3 };
    let p = rpu_used_path(media, plan, req);
    if trimmed {
        assert(d.len() == 4);
        assert(steps[1] == trim_view(media, plan, req));
    } else {
        assert(d.len() == 3);
    }
    assert(steps[0] == extract_view(media, req));
    assert(steps[n - 2] == encode_view(media, plan, req));
    assert(steps[n - 1] == mux_view(media, plan, req));
    assert(steps[n - 3].5 == Some(p));
    let encode = steps[n - 2].3;
    let k: int = 14 + seek_args(media, plan).len() as int;
    assert(encode[k] == "-x265-params"@);
    assert(hands_rpu_to_x265(encode, p));
}

proof fn lemma_compile_starts_with_dv(media: MediaInfo, plan: Plan, registry: CodecRegistry, req: BuildRequest)
    requires
        spec_needs_dv_chain(media, plan, registry),
    ensures
        forall|i: int|
            0 <= i < dv_steps(media, plan, req).len() ==> #[trigger] spec_compile(
                media,
                plan,
                registry,
                req,
            )[i] == dv_steps(media, plan, req)[i],
{
}

proof fn lemma_dv_step_fields(media: MediaInfo, plan: Plan, req: BuildRequest)
    ensures
        extract_view(media, req).5 == Some(rpu_raw_path(req)),
        !is_trimmed(media, plan) ==> rpu_used_path(media, plan, req) == rpu_raw_path(req),
        trim_view(media, plan, req).0 == "dv_trim"@,
        trim_view(media, plan, req).3.len() == 7,
        trim_view(media, plan, req).3[1] == "-i"@,
        trim_view(media, plan, req).3[2] == rpu_raw_path(req),
        trim_view(media, plan, req).5 == Some(rpu_used_path(media, plan, req)),
        encode_view(media, plan, req).3 == encode_args(media, plan, req),
        encode_view(media, plan, req).5 == Some(hevc_path(req)),
        mux_view(media, plan, req).2 == "mkvmerge"@,
        mux_view(media, plan, req).3 == mux_args(media, plan, req),
        mux_view(media, plan, req).5 == Some(req.output@),
{
    reveal(extract_view);
    reveal(trim_view);
    reveal(encode_view);
    reveal(mux_view);
}

proof fn lemma_encode_names_rpu(media: MediaInfo, plan: Plan, req: BuildRequest)
    ensures
        ({
            let e = encode_args(media, plan, req);
            let k: int = 14 + seek_args(media, plan).len() as int;
            &&& k + 1 < e.len()
            &&& e[k] == "-x265-params"@
            &&& ("dolby-vision-rpu="@ + rpu_used_path(media, plan, req)).is_prefix_of(e[k + 1])
        }),
{
    reveal_strlit("dolby-vision-rpu=");
    let e = encode_args(media, plan, req);
    let k: int = 14 + seek_args(media, plan).len() as int;
    let p = rpu_used_path(media, plan, req);
    let x = x265_params(media, plan, req);
    assert(e[k + 1] == x);
    assert(x.subrange(0, 17 + p.len() as int) =~= "dolby-vision-rpu="@ + p);
}

proof fn lemma_mux_layout(media: MediaInfo, plan: Plan, req: BuildRequest)
    ensures
        ({
            let m = mux_args(media, plan, req);
            let audio = kind_indices(media, plan, TrackKind::Audio);
            let subs = kind_indices(media, plan, TrackKind::Subtitle);
            let j: int = if audio.len() == 0 { 4 } else { 5 };
            &&& m[2] == hevc_path(req)
            &&& audio.len() == 0 ==> m[3] == "--no-audio"@
            &&& audio.len() > 0 ==> m[3] == "--audio-tracks"@ && m[4] == seq_join(audio, ","@)
            &&& subs.len() == 0 ==> m[j] == "--no-subtitles"@
            &&& subs.len() > 0 ==> m[j] == "--subtitle-tracks"@ && m[j + 1] == seq_join(subs, ","@)
            &&& m.contains("--no-video"@)
            &&& m.last() == media.path@
        }),
{
    let m = mux_args(media, plan, req);
    let trimmed = is_trimmed(media, plan);
    assert(m[m.len() - 2 - (if trimmed { 2int } else { 0 })] == "--no-video"@);
}

} // verus!

verus! {

/// The arguments pass `flag` immediately followed by `value`.
pub open spec fn passes_flag(args: Seq<Seq<char>>, flag: Seq<char>, value: Seq<char>) -> bool {
    exists|k: int| 0 <= k && k + 1 < args.len() && #[trigger] args[k] == flag && args[k + 1] == value
}

/// In the Dolby Vision chain the encoder runs at the bitrate that the chosen
/// codec profile estimates for the video, the one the size estimate counts:
/// the transcode option's bitrate when it is set, else the source's, in
/// kilobits; the VBV limits handed to x265 are 1.2 and 2 times that bitrate.
pub proof fn law_dv_encode_bitrate(media: MediaInfo, plan: Plan, registry: CodecRegistry, req: BuildRequest)
    requires
        spec_needs_dv_chain(media, plan, registry),
    ensures
        ({
            let v = dv_video(media);
            let encode = spec_compile(media, plan, registry, req)[if is_trimmed(media, plan) {
                2int
            } else {
                1int
            }].3;
            plan.spec_action(v.index) matches TrackAction::Transcode { codec_id, opts } && ({
                let p = registry.spec_get(codec_id@)->0;
                let kbit = (p.spec_estimate_bps(v, opts).value / 1000) as nat;
                &&& kbit == (match opts.bitrate_bps {
                    Some(b) => b,
                    None => v.bps.value,
                }) / 1000
                &&& passes_flag(encode, "-b:v"@, decimal(kbit) + "k"@)
                &&& passes_flag(
                    encode,
                    "-x265-params"@,
                    "dolby-vision-rpu="@ + rpu_used_path(media, plan, req)
                        + ":dolby-vision-profile=8.1:vbv-maxrate="@ + decimal(kbit * 12 / 10)
                        + ":vbv-bufsize="@ + decimal(kbit * 2) + ":hrd=1"@,
                )
            })
        }),
{
    reveal(encode_view);
    lemma_compile_starts_with_dv(media, plan, registry, req);
    let d = dv_steps(media, plan, req);
    let steps = spec_compile(media, plan, registry, req);
    let j: int = if is_trimmed(media, plan) { 2 } else { 1 };
    assert(d[j] == encode_view(media, plan, req));
    assert(steps[j] == d[j]);
    let e = encode_args(media, plan, req);
    let s: int = seek_args(media, plan).len() as int;
    assert(e[12 + s] == "-b:v"@);
    assert(e[14 + s] == "-x265-params"@);
    assert(passes_flag(e, "-b:v"@, e[13 + s]));
    assert(passes_flag(e, "-x265-params"@, e[15 + s]));
}

} // verus!
