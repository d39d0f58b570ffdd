//! What the tmux server says of itself.

use crate::error::Error;
use crate::text::{contains_text, ends_with, join, occurs_in};
use vstd::prelude::*;

verus! {

/// The command that starts a shell: `shell` itself, or for a shell whose
/// name ends in `bash`, `-l` and a space before it.
pub open spec fn shell_command(shell: Seq<char>) -> Seq<char> {
    if 4 <= shell.len() && shell.subrange(shell.len() - 4, shell.len() as int) == "bash"@ {
        "-l "@ + shell
    } else {
        shell
    }
}

/// The command that starts a pane, from the options `default-shell` and
/// `default-command` of tmux: the default command if it is set, else the
/// command that starts the default shell. Without a default shell it is
/// an error, whether or not a default command is set.
pub fn default_command(default_shell: Option<&str>, configured: Option<&str>) -> (r: Result<
    String,
    Error,
>)
    ensures
        match default_shell {
            None => r == Err::<String, Error>(Error::TmuxConfig("no default-shell")),
            Some(shell) => r is Ok && r.unwrap()@ == match configured {
                Some(command) => command@,
                None => shell_command(shell@),
            },
        },
{
    let shell = match default_shell {
        Some(shell) => shell,
        None => {
            return Err(Error::TmuxConfig("no default-shell"));
        },
    };
    match configured {
        Some(command) => Ok(command.to_owned()),
        None => {
            proof {
                reveal_strlit("bash");
            }
            if ends_with(shell, "bash") {
                Ok(join("-l ", shell))
            } else {
                Ok(shell.to_owned())
            }
        },
    }
}

/// Check what tmux printed when asked to start the server with a first
/// session: nothing, or that a session of that name exists, which is as
/// good. Anything else is an error.
pub fn check_start_output(stdout: &str) -> (r: Result<(), Error>)
    ensures
        match r {
            Ok(_) => stdout@.len() == 0 || occurs_in(stdout@, "duplicate"@),
            Err(e) => !(stdout@.len() == 0 || occurs_in(stdout@, "duplicate"@)) && match e {
                Error::UnexpectedTmuxOutput { intent, stdout: out, stderr } => intent
                    == "new-session" && out@ == stdout@ && stderr@.len() == 0,
                _ => false,
            },
        },
{
    if stdout.is_empty() || contains_text(stdout, "duplicate") {
        Ok(())
    } else {
        Err(
            Error::UnexpectedTmuxOutput {
                intent: "new-session",
                stdout: stdout.to_owned(),
                stderr: String::new(),
            },
        )
    }
}

/// Check that a command that should stay silent printed nothing, neither
/// to its output nor to its error output.
pub fn check_empty_process_output(stdout: &str, stderr: &str, intent: &'static str) -> (r: Result<
    (),
    Error,
>)
    ensures
        match r {
            Ok(_) => stdout@.len() == 0 && stderr@.len() == 0,
            Err(e) => (stdout@.len() > 0 || stderr@.len() > 0) && match e {
                Error::UnexpectedTmuxOutput { intent: i, stdout: out, stderr: err } => i == intent
                    && out@ == stdout@ && err@ == stderr@,
                _ => false,
            },
        },
{
    if !stdout.is_empty() || !stderr.is_empty() {
        Err(
            Error::UnexpectedTmuxOutput {
                intent,
                stdout: stdout.to_owned(),
                stderr: stderr.to_owned(),
            },
        )
    } else {
        Ok(())
    }
}

} // verus!
