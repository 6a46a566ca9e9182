//! The settings of a watch and the shell invocation they stand for.

use vstd::prelude::*;
use vstd::string::*;
use crate::event::lines_view;
use crate::watch::BaselineMode;

verus! {

/// The settings of a watch.
#[derive(Clone, Debug)]
pub struct Opt {
    /// Seconds to wait between two runs.
    pub delay: u64,
    /// Whether every run is compared with the first one.
    pub permanent: bool,
    /// The command line to run, word by word.
    pub command: Vec<String>,
}

/// Why settings cannot start a watch.
#[derive(Clone, Copy, Debug, PartialEq, Eq)]
pub enum ConfigError {
    /// No command was given.
    EmptyCommand,
}

impl ConfigError {
    /// The message shown to the operator.
    pub fn message(&self) -> (text: String)
        ensures
            text@ == "Need to supply a command."@,
    {
        "Need to supply a command.".to_owned()
    }
}

/// The shell that runs the command.
pub fn shell() -> (path: &'static str)
    ensures
        path@ == "/bin/bash"@,
{
    "/bin/bash"
}

impl Opt {
    /// Accepts the settings if and only if they name a command.
    pub fn validate(&self) -> (checked: Result<(), ConfigError>)
        ensures
            checked.is_ok() <==> self.command@.len() > 0,
            checked.is_err() ==> checked == Err::<(), ConfigError>(ConfigError::EmptyCommand),
    {
        if self.command.len() == 0 {
            Err(ConfigError::EmptyCommand)
        } else {
            Ok(())
        }
    }

    /// The baseline policy the settings select.
    pub fn mode(&self) -> (mode: BaselineMode)
        ensures
            mode == (if self.permanent {
                BaselineMode::Permanent
            } else {
                BaselineMode::Rolling
            }),
    {
        if self.permanent {
            BaselineMode::Permanent
        } else {
            BaselineMode::Rolling
        }
    }

    /// The arguments handed to the shell: the flag that makes it read its
    /// command from the next argument, then the words of the command.
    pub fn shell_arguments(&self) -> (args: Vec<String>)
        ensures
            lines_view(args@) == seq!["-c"@] + lines_view(self.command@),
    {
        let mut args: Vec<String> = Vec::new();
        args.push("-c".to_owned());
        let mut k: usize = 0;
        proof {
            assert(lines_view(args@) =~= seq!["-c"@] + lines_view(self.command@).take(0));
        }
        while k < self.command.len()
            invariant
                k <= self.command.len(),
                lines_view(args@) == seq!["-c"@] + lines_view(self.command@).take(k as int),
            decreases self.command.len() - k,
        {
            let ghost before = lines_view(args@);
            args.push(self.command[k].clone());
            k += 1;
            proof {
                assert(lines_view(args@) =~= before.push(lines_view(self.command@)[k - 1]));
                assert(lines_view(args@) =~= seq!["-c"@] + lines_view(self.command@).take(k as int));
            }
        }
        proof {
            assert(lines_view(self.command@).take(k as int) =~= lines_view(self.command@));
        }
        args
    }
}

} // verus!
