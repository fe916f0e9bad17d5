//! The two positional command-line arguments and the action they select.

use vstd::prelude::*;
use crate::strutil::str_eq;

verus! {

/// What the command line asked for.
#[derive(PartialEq, Eq, Structural, Clone, Copy, Debug)]
pub enum Action {
    /// `new module`: run the generation pipeline.
    NewModule,
}

/// Why the command line was rejected.
#[derive(PartialEq, Eq, Structural, Clone, Copy, Debug)]
pub enum CliError {
    /// The action/sub-action pair names nothing this tool does.
    UnknownAction,
}

pub open spec fn action_new() -> Seq<char> {
    seq!['n', 'e', 'w']
}

pub open spec fn sub_action_module() -> Seq<char> {
    seq!['m', 'o', 'd', 'u', 'l', 'e']
}

/// Maps the two positional arguments to an action: exactly `new module`
/// selects the generation pipeline; any other pair is reported as
/// unknown, never silently ignored.
pub fn parse_action(action: &str, sub_action: &str) -> (r: Result<Action, CliError>)
    ensures
        r == (if action@ == action_new() && sub_action@ == sub_action_module() {
            Ok::<Action, CliError>(Action::NewModule)
        } else {
            Err::<Action, CliError>(CliError::UnknownAction)
        }),
{
    proof {
        reveal_strlit("new");
        reveal_strlit("module");
        assert("new"@ =~= action_new());
        assert("module"@ =~= sub_action_module());
    }
    if str_eq(action, "new") && str_eq(sub_action, "module") {
        Ok(Action::NewModule)
    } else {
        Err(CliError::UnknownAction)
    }
}

} // verus!
