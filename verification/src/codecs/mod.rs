//! The built-in codec profiles.

pub mod audio;
pub mod video;

use vstd::prelude::*;
use crate::codec::{CodecProfile, CodecRegistry};

verus! {

/// Every built-in profile, keyed by identifier.
pub open spec fn builtin_profiles() -> Map<Seq<char>, CodecProfile> {
    video::video_profiles(audio::audio_profiles(Map::empty()))
}

/// Registers every built-in profile.
pub fn register_builtins(reg: &mut CodecRegistry)
    requires
        old(reg).wf(),
    ensures
        final(reg).wf(),
        final(reg).as_map() == video::video_profiles(audio::audio_profiles(old(reg).as_map())),
{
    audio::register(reg);
    video::register(reg);
}

} // verus!
