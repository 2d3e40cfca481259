//! What the user asks for.

use vstd::prelude::*;
use crate::text::str_eq;

verus! {

/// Possible actions that the user may request when running the application.
#[derive(Debug, PartialEq)]
pub enum Action {
    Build(Vec<String>, bool),
    Clean,
    Dist,
    Fetch(String),
    FetchConfig,
    Migrate(Vec<String>, String, String),
    Pool,
    Remove(Vec<String>),
    Update(String, String),
    UpdateRepository,
}

/// The command line, as it was parsed: the command and the command below
/// it, with the values of their arguments.
#[derive(Debug, Clone)]
pub struct Arguments {
    pub command: String,
    pub inner: Option<String>,
    pub packages: Vec<String>,
    pub force: bool,
    pub key: Option<String>,
    pub value: Option<String>,
    pub from: Option<String>,
    pub to: Option<String>,
}

impl Action {
    /// Whether `action` is what the command line asks for.
    ///
    /// `build` with `packages` builds these, with `pool` or `dist` only that
    /// part, without a command below it the whole repository. `config`
    /// shows everything without a key, the value of a key without a value,
    /// and sets the key with one. `migrate` needs both its components. A
    /// command that is not known asks for nothing.
    pub open spec fn is_asked(args: Arguments, action: Option<Action>) -> bool {
        if args.command@ == "build"@ {
            match args.inner {
                Some(inner) => if inner@ == "packages"@ {
                    action == Some(Action::Build(args.packages, args.force))
                } else if inner@ == "pool"@ {
                    action == Some(Action::Pool)
                } else if inner@ == "dist"@ {
                    action == Some(Action::Dist)
                } else {
                    action == Some(Action::UpdateRepository)
                },
                None => action == Some(Action::UpdateRepository),
            }
        } else if args.command@ == "clean"@ {
            action == Some(Action::Clean)
        } else if args.command@ == "config"@ {
            match (args.key, args.value) {
                (None, _) => action == Some(Action::FetchConfig),
                (Some(key), None) => action == Some(Action::Fetch(key)),
                (Some(key), Some(value)) => action == Some(Action::Update(key, value)),
            }
        } else if args.command@ == "remove"@ {
            action == Some(Action::Remove(args.packages))
        } else if args.command@ == "migrate"@ {
            match (args.from, args.to) {
                (Some(from), Some(to)) => action == Some(Action::Migrate(args.packages, from, to)),
                _ => action is None,
            }
        } else {
            action is None
        }
    }

    /// What the command line asks for.
    pub fn new(args: Arguments) -> (action: Option<Action>)
        ensures
            Action::is_asked(args, action),
    {
        if str_eq(args.command.as_str(), "build") {
            match args.inner {
                Some(inner) => if str_eq(inner.as_str(), "packages") {
                    Some(Action::Build(args.packages, args.force))
                } else if str_eq(inner.as_str(), "pool") {
                    Some(Action::Pool)
                } else if str_eq(inner.as_str(), "dist") {
                    Some(Action::Dist)
                } else {
                    Some(Action::UpdateRepository)
                },
                None => Some(Action::UpdateRepository),
            }
        } else if str_eq(args.command.as_str(), "clean") {
            Some(Action::Clean)
        } else if str_eq(args.command.as_str(), "config") {
            match (args.key, args.value) {
                (None, _) => Some(Action::FetchConfig),
                (Some(key), None) => Some(Action::Fetch(key)),
                (Some(key), Some(value)) => Some(Action::Update(key, value)),
            }
        } else if str_eq(args.command.as_str(), "remove") {
            Some(Action::Remove(args.packages))
        } else if str_eq(args.command.as_str(), "migrate") {
            match (args.from, args.to) {
                (Some(from), Some(to)) => Some(Action::Migrate(args.packages, from, to)),
                _ => None,
            }
        } else {
            None
        }
    }
}

} // verus!
