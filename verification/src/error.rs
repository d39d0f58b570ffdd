//! Errors reported by the library.

use vstd::prelude::*;

verus! {

/// What can go wrong while decoding tmux output, reading an archive or
/// rebuilding a session.
#[derive(Debug, Clone, PartialEq, Eq)]
pub enum Error {
    /// A tmux command printed something although it should stay silent.
    UnexpectedTmuxOutput { intent: &'static str, stdout: String, stderr: String },
    /// Tmux is configured in a way the tool cannot work with.
    TmuxConfig(&'static str),
    /// A piece of text does not have the expected shape.
    ///
    /// `desc` names what was being decoded, `intent` shows the expected
    /// shape and `input` is the offending text.
    ParseError { desc: &'static str, intent: &'static str, input: String },
    /// The archive was written in a format this library does not read.
    ArchiveVersion(String),
    /// The archive holds no metadata.
    MissingMetadata(String),
    /// A session has no window, or a window has no pane.
    EmptyTopology(String),
    /// A window is linked to a session that the snapshot does not hold.
    UnknownSession(String),
    /// The layout of a window names a pane that the snapshot does not hold.
    UnknownPane(String),
    /// The answer handed back does not belong to the command that was
    /// issued; `intent` names the command.
    UnexpectedReply { intent: &'static str },
}

/// Whether `e` is the error for the text `input`, which should have
/// been a `desc` of the shape `intent`.
pub open spec fn is_parse_error(e: Error, desc: Seq<char>, intent: Seq<char>, input: Seq<char>) -> bool {
    match e {
        Error::ParseError { desc: d, intent: i, input: t } => d@ == desc && i@ == intent && t@
            == input,
        _ => false,
    }
}

} // verus!
