//! Diagnostics shown beside the plan.

use vstd::prelude::*;

verus! {

#[derive(Debug, Clone, Copy, PartialEq, Eq, PartialOrd, Ord, Structural)]
pub enum Level {
    /// Reference: teaches, complains about nothing.
    Info,
    /// A consequence of a decision already taken.
    Warning,
    /// A ban: disables the build button.
    Blocker,
}

#[derive(Debug, Clone, Copy, PartialEq, Eq, Structural)]
pub enum NoteTarget {
    Whole,
    Track(usize),
    Trim,
}

#[derive(Debug, Clone, PartialEq, Eq)]
pub struct Note {
    pub level: Level,
    pub target: NoteTarget,
    pub text: String,
}

impl Note {
    pub fn info(target: NoteTarget, text: String) -> (n: Self)
        ensures
            n.level == Level::Info,
            n.target == target,
            n.text == text,
    {
        Note { level: Level::Info, target, text }
    }

    pub fn warning(target: NoteTarget, text: String) -> (n: Self)
        ensures
            n.level == Level::Warning,
            n.target == target,
            n.text == text,
    {
        Note { level: Level::Warning, target, text }
    }

    pub fn blocker(target: NoteTarget, text: String) -> (n: Self)
        ensures
            n.level == Level::Blocker,
            n.target == target,
            n.text == text,
    {
        Note { level: Level::Blocker, target, text }
    }
}

} // verus!

verus! {

/// What a note says: its level, what it is about and its text.
pub open spec fn note_view(n: Note) -> (Level, NoteTarget, Seq<char>) {
    (n.level, n.target, n.text@)
}

/// What a sequence of notes says.
pub open spec fn notes_view(v: Seq<Note>) -> Seq<(Level, NoteTarget, Seq<char>)> {
    v.map_values(|n: Note| note_view(n))
}

} // verus!
