//! Preview frames along the film: when to take them, what to call them and
//! the ffmpeg command that grabs one.

use vstd::prelude::*;
use crate::compile::path_join;
use crate::text::{
    fixed3, fixed3_to_string, owned, padded_decimal, padded_to_string, push_str, push_string, views,
};
use crate::units::Seconds;

verus! {

/// The grabber that runs `ffmpeg` once per preview frame.
pub struct FfmpegThumbs;

/// The moment of the `i`-th of `count` previews: the middle of the `i`-th of
/// `count` equal slices of the film, rounded down to the millisecond.
pub open spec fn spec_thumb_time(duration: Seconds, i: nat, count: nat) -> Seconds {
    Seconds { ms: ((duration.ms as int * (2 * i + 1)) / (2 * count as int)) as u64 }
}

/// The moment of the `i`-th of `count` previews (see [`spec_thumb_time`]).
pub fn thumb_time(duration: Seconds, i: usize, count: usize) -> (t: Seconds)
    requires
        i < count,
    ensures
        t == spec_thumb_time(duration, i as nat, count as nat),
{
    let d = duration.ms as u128;
    let iw = i as u128;
    assert(d * iw <= 0xffff_ffff_ffff_ffffu128 * 0xffff_ffff_ffff_ffffu128) by (nonlinear_arith)
        requires
            d <= 0xffff_ffff_ffff_ffffu128,
            iw <= 0xffff_ffff_ffff_ffffu128,
    ;
    let x = d * iw;
    let v = (x + d / 2) / (count as u128);
    assert(v as int == (x + d / 2) as int / (count as int));
    proof {
        let y: int = d * (2 * i + 1);
        assert(y == 2 * x + d) by (nonlinear_arith)
            requires
                y == d * (2 * i + 1),
                x == d * i,
        ;
        assert(y / 2 == x + d / 2) by {
            vstd::arithmetic::div_mod::lemma_hoist_over_denominator(d as int, x as int, 2);
        }
        vstd::arithmetic::div_mod::lemma_div_denominator(y, 2, count as int);
        assert(v <= d) by (nonlinear_arith)
            requires
                v as int == (x + d / 2) as int / (count as int),
                x == d * i,
                i < count,
        {
            assert(d * i + d <= d * count) by (nonlinear_arith)
                requires
                    i + 1 <= count,
                    d >= 0,
            ;
        }
    }
    Seconds { ms: v as u64 }
}

/// File name of the `i`-th preview: `thumb_000.jpg`, `thumb_001.jpg`, …
pub open spec fn spec_thumb_name(i: nat) -> Seq<char> {
    "thumb_"@ + padded_decimal(i, 3) + ".jpg"@
}

/// File name of the `i`-th preview.
pub fn thumb_name(i: usize) -> (s: String)
    ensures
        s@ == spec_thumb_name(i as nat),
{
    let mut s = owned("thumb_");
    let n = padded_to_string(i as u64, 3);
    s.append(n.as_str());
    s.append(".jpg");
    assert(s@ =~= spec_thumb_name(i as nat));
    s
}

/// The ffmpeg arguments that grab one 96-pixel-high frame at `t` of `input` into `out`.
pub open spec fn spec_thumb_args(t: Seconds, input: Seq<char>, out: Seq<char>) -> Seq<Seq<char>> {
    seq![
        "-hide_banner"@,
        "-loglevel"@,
        "error"@,
        "-y"@,
        "-ss"@,
        fixed3(t.ms as nat),
        "-i"@,
        input,
        "-frames:v"@,
        "1"@,
        "-vf"@,
        "scale=-2:96"@,
        out,
    ]
}

/// The ffmpeg arguments that grab one preview frame (see [`spec_thumb_args`]).
pub fn thumb_args(t: Seconds, input: &str, out: &str) -> (v: Vec<String>)
    ensures
        views(v@) == spec_thumb_args(t, input@, out@),
{
    let mut v: Vec<String> = Vec::new();
    push_str(&mut v, "-hide_banner");
    push_str(&mut v, "-loglevel");
    push_str(&mut v, "error");
    push_str(&mut v, "-y");
    push_str(&mut v, "-ss");
    push_string(&mut v, fixed3_to_string(t.ms));
    push_str(&mut v, "-i");
    push_str(&mut v, input);
    push_str(&mut v, "-frames:v");
    push_str(&mut v, "1");
    push_str(&mut v, "-vf");
    push_str(&mut v, "scale=-2:96");
    push_str(&mut v, out);
    assert(views(v@) =~= spec_thumb_args(t, input@, out@));
    v
}

/// What to grab: for each of the `count` previews its moment and the path of
/// its file inside `out_dir`.
pub fn thumb_plan(duration: Seconds, count: usize, out_dir: &str) -> (v: Vec<(Seconds, String)>)
    ensures
        v@.len() == count,
        forall|i: int|
            0 <= i < count ==> {
                &&& (#[trigger] v@[i]).0 == spec_thumb_time(duration, i as nat, count as nat)
                &&& v@[i].1@ == path_join(out_dir@, spec_thumb_name(i as nat))
            },
{
    let mut v: Vec<(Seconds, String)> = Vec::new();
    let mut i: usize = 0;
    while i < count
        invariant
            i <= count,
            v@.len() == i,
            forall|j: int|
                0 <= j < i ==> {
                    &&& (#[trigger] v@[j]).0 == spec_thumb_time(duration, j as nat, count as nat)
                    &&& v@[j].1@ == path_join(out_dir@, spec_thumb_name(j as nat))
                },
        decreases count - i,
    {
        let t = thumb_time(duration, i, count);
        let name = thumb_name(i);
        let path = crate::compile::join_path(out_dir, name.as_str());
        v.push((t, path));
        i = i + 1;
    }
    v
}

} // verus!
