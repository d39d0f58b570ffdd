//! Decisions taken while saving the content of the panes.

use crate::text::same_text;
use vstd::prelude::*;

verus! {

/// Whether `command` is one of the shells known to show a prompt: `zsh`,
/// `bash` or `fish`, written exactly so.
pub open spec fn is_shell(command: Seq<char>) -> bool {
    command == "zsh"@ || command == "bash"@ || command == "fish"@
}

/// The shells known to show a prompt.
pub fn detected_shells() -> (r: Vec<&'static str>)
    ensures
        r@.len() == 3,
        r@[0]@ == "zsh"@,
        r@[1]@ == "bash"@,
        r@[2]@ == "fish"@,
{
    let mut shells: Vec<&'static str> = Vec::new();
    shells.push("zsh");
    shells.push("bash");
    shells.push("fish");
    shells
}

/// Whether the command running in a pane is a shell known to show a
/// prompt.
pub fn is_shell_command(command: &str) -> (r: bool)
    ensures
        r == is_shell(command@),
{
    same_text(command, "zsh") || same_text(command, "bash") || same_text(command, "fish")
}

/// How many lines to drop from the end of the captured content of a pane:
/// `num_lines_to_drop` where a shell is running, so that the prompt is not
/// captured, and none elsewhere.
pub fn lines_to_drop_for_pane(pane_command: &str, num_lines_to_drop: usize) -> (r: usize)
    ensures
        r == if is_shell(pane_command@) {
            num_lines_to_drop
        } else {
            0
        },
{
    if is_shell_command(pane_command) {
        num_lines_to_drop
    } else {
        0
    }
}

} // verus!
