//! The command-line commands.

use vstd::prelude::*;
use crate::text::str_eq;

verus! {

/// A command of the `spora` program.
#[derive(PartialEq, Eq, Structural, Clone, Copy, Debug)]
pub enum Command {
    Init,
    Fetch,
    Build,
    Bloom,
    Run,
    Clean,
    Help,
}

/// The command an argument names; a missing or unknown one shows the usage.
pub open spec fn command_of(arg: Option<Seq<char>>) -> Command {
    match arg {
        Some(a) => if a == "init"@ {
            Command::Init
        } else if a == "fetch"@ {
            Command::Fetch
        } else if a == "build"@ {
            Command::Build
        } else if a == "bloom"@ {
            Command::Bloom
        } else if a == "run"@ {
            Command::Run
        } else if a == "clean"@ {
            Command::Clean
        } else {
            Command::Help
        },
        None => Command::Help,
    }
}

impl Command {
    /// The command named by the first argument, if any.
    pub fn from_arg(arg: Option<&str>) -> (r: Command)
        ensures
            r == command_of(
                match arg {
                    Some(a) => Some(a@),
                    None => None,
                },
            ),
    {
        match arg {
            Some(a) => if str_eq(a, "init") {
                Command::Init
            } else if str_eq(a, "fetch") {
                Command::Fetch
            } else if str_eq(a, "build") {
                Command::Build
            } else if str_eq(a, "bloom") {
                Command::Bloom
            } else if str_eq(a, "run") {
                Command::Run
            } else if str_eq(a, "clean") {
                Command::Clean
            } else {
                Command::Help
            },
            None => Command::Help,
        }
    }
}

} // verus!
