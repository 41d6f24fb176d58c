use vstd::prelude::*;

verus! {

/// What a recorded event is: the start or end of a pause interval, a
/// free-standing annotation, or a reference to a version-control commit.
/// Only `Commit` carries a payload, the commit hash.
#[derive(Debug)]
pub enum EventKind {
    Pause,
    Resume,
    Note,
    Commit { hash: String },
}

/// One timestamped occurrence in a session's log. Within a session, events
/// are kept in strictly increasing timestamp order.
#[derive(Debug)]
pub struct Event {
    /// Seconds since the epoch; strictly greater than the previous event's
    /// timestamp (or the session start, for the first event).
    pub timestamp: u64,
    /// Optional free text: the annotation of a `Note`, the accumulated
    /// remarks of a `Pause`, or the message of a `Commit`.
    pub note: Option<String>,
    pub kind: EventKind,
}

impl EventKind {
    /// Short display name of the kind.
    pub fn label(&self) -> (r: &'static str)
        ensures
            r@ == self.label_seq(),
    {
        match self {
            EventKind::Pause => "Pause",
            EventKind::Resume => "Resume",
            EventKind::Note => "Note",
            EventKind::Commit { .. } => "Commit",
        }
    }

    /// The characters of [`EventKind::label`].
    pub open spec fn label_seq(self) -> Seq<char> {
        match self {
            EventKind::Pause => "Pause"@,
            EventKind::Resume => "Resume"@,
            EventKind::Note => "Note"@,
            EventKind::Commit { .. } => "Commit"@,
        }
    }
}

/// The text of an optional note, `None` when there is none.
pub open spec fn note_view(n: Option<String>) -> Option<Seq<char>> {
    match n {
        Some(s) => Some(s@),
        None => None,
    }
}

/// The text an open pause's note holds after a further note is merged into
/// it: the two texts joined by the separator, or whichever of the two
/// exists.
pub open spec fn merged_note(prev: Option<String>, incoming: Option<String>) -> Option<Seq<char>> {
    match (prev, incoming) {
        (Some(p), Some(i)) => Some(p@ + "<br>"@ + i@),
        (Some(p), None) => Some(p@),
        (None, i) => note_view(i),
    }
}

} // verus!
