//! The configuration data model.
//!
//! A [`VarSpec`] describes how one template value or one filter is produced:
//! a script body evaluated as an expression, a single command, a sequence of
//! commands joined with newlines, or — when `function` is set — a scripted
//! function exposed as a template filter.  A [`RootConfig`] holds the global
//! default shell and the ordered variable specifications.  These types carry
//! plain values only; loading them from a configuration file happens outside
//! the library.

use vstd::prelude::*;
use crate::text::trim_chars;

verus! {

/// One named parameter of a scripted function.
pub struct ArgumentSpec {
    pub name: String,
}

/// One name/value pair of an environment overlay.
pub struct EnvPair {
    pub name: String,
    pub value: String,
}

/// One configuration entry describing how to produce a named template value
/// or a named filter.
pub struct VarSpec {
    /// Name of the variable exposed to the template context; required for
    /// script/command variables, absent for filters.
    pub name: Option<String>,
    /// Scripted function name to expose as a template filter.
    pub function: Option<String>,
    /// Parameters of the scripted function, in order.
    pub arguments: Vec<ArgumentSpec>,
    /// Script source: an expression for a variable, a function body for a
    /// filter.
    pub script: String,
    /// Single command to run.
    pub cmd: Option<String>,
    /// Commands to run in order, outputs joined with newlines.
    pub cmds: Option<Vec<String>>,
    /// Per-variable shell override.
    pub shell: Option<String>,
    /// Per-variable working directory override.
    pub cwd: Option<String>,
    /// Per-variable environment overlay, added to the spawned process's
    /// inherited environment.
    pub env: Option<Vec<EnvPair>>,
}

/// Top-level configuration: global default shell and the ordered variable
/// specifications.
pub struct RootConfig {
    pub default_shell: Option<String>,
    pub vars: Vec<VarSpec>,
}

/// The command-line surface: a template path, or an informational flag that
/// prints diagnostics instead of rendering.
pub struct Cli {
    pub template: Option<String>,
    pub info: bool,
}

impl Cli {
    /// The template path, owed exactly when one was given; the error carries
    /// the usage message otherwise.
    pub fn template_path(&self) -> (r: Result<&String, &'static str>)
        ensures
            r is Ok <==> self.template is Some,
            r matches Ok(p) ==> p@ == self.template->0@,
    {
        match &self.template {
            Some(path) => Ok(path),
            None => Err("Error: --template <PATH> is required unless using --info"),
        }
    }
}

/// Whether `s` produces a context entry by evaluating its script body as an
/// expression: it is named, defines no filter, and its body is not blank.
pub open spec fn script_branch(s: VarSpec) -> bool {
    s.name is Some && s.function is None && trim_chars(s.script@).len() != 0
}

/// Whether `s` produces a context entry by running a single command.
pub open spec fn cmd_branch(s: VarSpec) -> bool {
    s.name is Some && s.cmd is Some
}

/// Whether `s` produces a context entry by running several commands and
/// joining their outputs.
pub open spec fn cmds_branch(s: VarSpec) -> bool {
    s.name is Some && s.cmds is Some
}

/// Whether `s` produces a context entry at all.  A misconfigured spec may
/// match several branches; all of them execute and the later insertion wins.
pub open spec fn produces_entry(s: VarSpec) -> bool {
    script_branch(s) || cmd_branch(s) || cmds_branch(s)
}

/// Whether `s` defines a filter.
pub open spec fn defines_filter(s: VarSpec) -> bool {
    s.function is Some
}

/// Whether `s` exercises exactly one of the three production branches — a
/// well-formed variable spec, as opposed to a misconfigured one that sets,
/// say, both a script body and a command.
pub open spec fn exactly_one_branch(s: VarSpec) -> bool {
    ||| (script_branch(s) && !cmd_branch(s) && !cmds_branch(s))
    ||| (!script_branch(s) && cmd_branch(s) && !cmds_branch(s))
    ||| (!script_branch(s) && !cmd_branch(s) && cmds_branch(s))
}

/// How many commands spec `s` asks to run.
pub open spec fn cmd_count(s: VarSpec) -> nat {
    (if cmd_branch(s) {
        1nat
    } else {
        0nat
    }) + (if cmds_branch(s) {
        s.cmds->0@.len()
    } else {
        0nat
    })
}

/// How many commands the specs before index `i` ask to run, in declaration
/// order.
pub open spec fn cmds_before(specs: Seq<VarSpec>, i: int) -> nat
    decreases i,
{
    if i <= 0 {
        0nat
    } else {
        cmds_before(specs, i - 1) + cmd_count(specs[i - 1])
    }
}

/// How many commands the whole sequence asks to run.
pub open spec fn plan_count(specs: Seq<VarSpec>) -> nat {
    cmds_before(specs, specs.len() as int)
}

/// The commands of each spec before `i` fit, in order, below the command
/// count of the first `i` specs.
pub proof fn lemma_cmds_before_all(specs: Seq<VarSpec>, i: int)
    requires
        0 <= i,
    ensures
        forall|j: int|
            0 <= j < i ==> #[trigger] cmds_before(specs, j) + cmd_count(specs[j]) <= cmds_before(
                specs,
                i,
            ),
    decreases i,
{
    if i > 0 {
        lemma_cmds_before_all(specs, i - 1);
        assert forall|j: int| 0 <= j < i implies #[trigger] cmds_before(specs, j) + cmd_count(
            specs[j],
        ) <= cmds_before(specs, i) by {
            if j < i - 1 {
                assert(cmds_before(specs, j) + cmd_count(specs[j]) <= cmds_before(specs, i - 1));
            }
        }
    }
}

/// How many script-expression evaluations spec `s` asks for.
pub open spec fn script_count(s: VarSpec) -> nat {
    if script_branch(s) {
        1nat
    } else {
        0nat
    }
}

/// How many script-expression evaluations the specs before index `i` ask for.
pub open spec fn scripts_before(specs: Seq<VarSpec>, i: int) -> nat
    decreases i,
{
    if i <= 0 {
        0nat
    } else {
        scripts_before(specs, i - 1) + script_count(specs[i - 1])
    }
}

} // verus!
