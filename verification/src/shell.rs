//! Shell-choice resolution.
//!
//! A command may name the interpreter that should run it; the configuration
//! may name a global default; and when neither does, a bundled interpreter is
//! the hard default.  Resolution is a pure precedence decision: whether the
//! chosen name refers to something runnable is discovered only when the
//! command is spawned.

use vstd::prelude::*;

verus! {

/// The interpreter that will run a command: either the bundled one (extracted
/// to a cache location by the caller) or an external one found by name.
pub enum ShellChoice {
    Bundled,
    External(String),
}

/// The name of the bundled interpreter, which doubles as its selector: a
/// per-variable or global shell set to this name also selects the bundled
/// binary.
pub open spec fn bundled_name() -> Seq<char> {
    "fish"@
}

/// The shell name selected by the precedence chain: the per-variable override
/// if present, else the global default if present, else the bundled name.
pub open spec fn chosen_name(per_variable: Option<&str>, global_default: Option<&str>) -> Seq<char> {
    if per_variable is Some {
        per_variable->0@
    } else if global_default is Some {
        global_default->0@
    } else {
        bundled_name()
    }
}

/// The shell name selected for a spec whose override is `per_variable`,
/// under global default `global_default`, stated over the owned options the
/// configuration holds.
pub open spec fn spec_shell_name(per_variable: Option<String>, global_default: Option<String>) -> Seq<char> {
    if per_variable is Some {
        per_variable->0@
    } else if global_default is Some {
        global_default->0@
    } else {
        bundled_name()
    }
}

/// Whether `choice` is the resolution of the precedence chain
/// `per_variable` > `global_default` > bundled hard default.
pub open spec fn choice_ok(choice: ShellChoice, per_variable: Option<String>, global_default: Option<String>) -> bool {
    &&& choice.spec_name() == spec_shell_name(per_variable, global_default)
    &&& (choice is Bundled <==> spec_shell_name(per_variable, global_default) == bundled_name())
}

impl ShellChoice {
    /// The name this choice stands for.
    pub open spec fn spec_name(self) -> Seq<char> {
        match self {
            ShellChoice::Bundled => bundled_name(),
            ShellChoice::External(name) => name@,
        }
    }
}

/// Decides which interpreter satisfies the precedence chain
/// per-variable > global default > bundled hard default.
pub fn resolve(per_variable: Option<&str>, global_default: Option<&str>) -> (choice: ShellChoice)
    ensures
        choice.spec_name() == chosen_name(per_variable, global_default),
        choice is Bundled <==> chosen_name(per_variable, global_default) == bundled_name(),
{
    let name: &str = match per_variable {
        Some(name) => name,
        None => match global_default {
            Some(name) => name,
            None => "fish",
        },
    };
    if crate::text::str_eq(name, "fish") {
        ShellChoice::Bundled
    } else {
        ShellChoice::External(name.to_owned())
    }
}

/// The program to invoke for a choice, given the path of the bundled
/// interpreter binary: the bundled path for the bundled choice, the bare name
/// (looked up through the spawn search path) otherwise.
pub fn shell_program(choice: &ShellChoice, bundled_path: &str) -> (program: String)
    ensures
        choice is Bundled ==> program@ == bundled_path@,
        choice matches ShellChoice::External(name) ==> program@ == name@,
{
    match choice {
        ShellChoice::Bundled => bundled_path.to_owned(),
        ShellChoice::External(name) => name.clone(),
    }
}

} // verus!
