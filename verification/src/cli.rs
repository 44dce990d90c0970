//! The command line.

use vstd::prelude::*;
use crate::text;

verus! {

/// What the program is asked to do.
#[derive(Debug)]
pub enum Invocation {
    /// Show the usage.
    Help,
    /// Show the version.
    Version,
    /// Do the cleanup at boot.
    Cleanup,
    /// Run as a daemon.
    Daemon,
    /// The argument is not known.
    Unknown(String),
}

impl Invocation {
    /// What the arguments behind the program's name ask for: only the first one counts.
    pub fn parse(first: Option<&str>) -> (i: Invocation)
        ensures
            match first {
                None => i is Daemon,
                Some(arg) => if arg@ == "--help"@ || arg@ == "-h"@ {
                    i is Help
                } else if arg@ == "--version"@ || arg@ == "-V"@ {
                    i is Version
                } else if arg@ == "--cleanup"@ {
                    i is Cleanup
                } else {
                    i matches Invocation::Unknown(s) && s@ == arg@
                },
            },
    {
        match first {
            None => Invocation::Daemon,
            Some(arg) => if text::same(arg, "--help") || text::same(arg, "-h") {
                Invocation::Help
            } else if text::same(arg, "--version") || text::same(arg, "-V") {
                Invocation::Version
            } else if text::same(arg, "--cleanup") {
                Invocation::Cleanup
            } else {
                Invocation::Unknown(arg.to_string())
            },
        }
    }

    /// Whether the program has to run as root for this: everything but the texts about itself.
    pub fn needs_root(&self) -> (r: bool)
        ensures
            r <==> !(self is Help) && !(self is Version),
    {
        !matches!(self, Invocation::Help | Invocation::Version)
    }
}

} // verus!
