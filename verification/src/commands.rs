//! Command execution, modelled as data.
//!
//! The library decides everything about a command run — which interpreter,
//! which working directory, which environment overlay — and processes what
//! came back, but does not spawn processes itself.  [`command_plan`] lays out
//! every command a configuration asks for, in declaration order; the caller
//! runs each request and reports a [`CmdOutcome`]; [`outcome_value`] turns an
//! outcome into the context value: captured output decoded and trimmed, or a
//! visible `"ERROR: ..."` marker for a failed spawn.  A failed command thus
//! never aborts resolution; it degrades to a marker in the rendered output.

use vstd::prelude::*;
use vstd::string::*;
use vstd::utf8::{valid_utf8, decode_utf8};
use crate::config::{VarSpec, RootConfig, EnvPair, cmd_branch, cmds_branch, cmd_count, cmds_before, plan_count};
use crate::shell::{ShellChoice, resolve, choice_ok};
use crate::text::trim_chars;

verus! {

/// What running one command came to: captured standard output, or the
/// description of a spawn failure (interpreter not found, permission denied).
/// Exit code and standard error do not matter for the value.
pub enum CmdOutcome {
    Captured(Vec<u8>),
    SpawnFailed(String),
}

/// The characters that decoding a byte sequence as UTF-8 yields, with every
/// invalid sequence replaced.
pub uninterp spec fn lossy_of(bytes: Seq<u8>) -> Seq<char>;

/// Relies on String::from_utf8_lossy: decodes UTF-8, replacing invalid
/// sequences, and returns valid input unchanged.
#[verifier::external_body]
fn decode_lossy(bytes: &Vec<u8>) -> (r: String)
    ensures
        r@ == lossy_of(bytes@),
        valid_utf8(bytes@) ==> r@ == decode_utf8(bytes@),
{
    String::from_utf8_lossy(bytes.as_slice()).into_owned()
}

/// The context value of captured output: decoded, then stripped of
/// surrounding whitespace.
pub open spec fn spec_capture_value(bytes: Seq<u8>) -> Seq<char> {
    trim_chars(lossy_of(bytes))
}

/// The visible marker a spawn failure degrades to.
pub open spec fn spec_failure_value(err: Seq<char>) -> Seq<char> {
    "ERROR: "@ + err
}

/// The context value of an outcome.
pub open spec fn spec_outcome_value(o: CmdOutcome) -> Seq<char> {
    match o {
        CmdOutcome::Captured(bytes) => spec_capture_value(bytes@),
        CmdOutcome::SpawnFailed(err) => spec_failure_value(err@),
    }
}

/// Decodes captured standard output and trims surrounding whitespace.
pub fn capture_value(bytes: &Vec<u8>) -> (r: String)
    ensures
        r@ == spec_capture_value(bytes@),
{
    let decoded = decode_lossy(bytes);
    crate::text::trim_str(decoded.as_str())
}

/// The `"ERROR: ..."` string a failed spawn resolves to, so that the failure
/// is visible in the rendered output instead of aborting the run.
pub fn spawn_failure_value(err: &str) -> (r: String)
    ensures
        r@ == spec_failure_value(err@),
{
    let mut m = "ERROR: ".to_owned();
    m.append(err);
    m
}

/// LAW: a spawn failure degrades to a visibly marked value — its context
/// value starts with `"ERROR: "`, whatever the failure's description says —
/// instead of aborting resolution.
pub proof fn lemma_fail_soft_marker(o: CmdOutcome)
    requires
        o is SpawnFailed,
    ensures
        spec_outcome_value(o).len() >= 7,
        spec_outcome_value(o).subrange(0, 7) =~= "ERROR: "@,
{
    reveal_strlit("ERROR: ");
}

/// The context value of one command outcome.
pub fn outcome_value(o: &CmdOutcome) -> (r: String)
    ensures
        r@ == spec_outcome_value(*o),
{
    match o {
        CmdOutcome::Captured(bytes) => capture_value(bytes),
        CmdOutcome::SpawnFailed(err) => spawn_failure_value(err.as_str()),
    }
}

/// Everything one command run needs: the command string, the resolved
/// interpreter choice, the working directory override and the environment
/// overlay (empty when none was configured).
pub struct CommandRequest {
    pub command: String,
    pub shell: ShellChoice,
    pub cwd: Option<String>,
    pub env: Vec<EnvPair>,
}

/// Whether request `r` runs command `c` for spec `s` under global default
/// shell `d`.
pub open spec fn req_matches(r: CommandRequest, s: VarSpec, d: Option<String>, c: String) -> bool {
    &&& r.command == c
    &&& choice_ok(r.shell, s.shell, d)
    &&& r.cwd == s.cwd
    &&& r.env@ == (if s.env is Some {
        s.env->0@
    } else {
        Seq::<EnvPair>::empty()
    })
}

/// The plan slot of command `k` of the command sequence of spec `i`.
pub open spec fn cmds_slot(specs: Seq<VarSpec>, i: int, k: int) -> int {
    cmds_before(specs, i) + (if cmd_branch(specs[i]) {
        1int
    } else {
        0int
    }) + k
}

/// Clones the environment overlay of a spec, empty when none is configured.
fn overlay_of(spec: &VarSpec) -> (r: Vec<EnvPair>)
    ensures
        r@ == (if spec.env is Some {
            spec.env->0@
        } else {
            Seq::<EnvPair>::empty()
        }),
{
    let mut out: Vec<EnvPair> = Vec::new();
    match &spec.env {
        None => {},
        Some(pairs) => {
            let mut i: usize = 0;
            while i < pairs.len()
                invariant
                    0 <= i <= pairs.len(),
                    out@ =~= pairs@.subrange(0, i as int),
                decreases pairs.len() - i,
            {
                out.push(EnvPair { name: pairs[i].name.clone(), value: pairs[i].value.clone() });
                proof {
                    assert(out@ =~= pairs@.subrange(0, i + 1));
                }
                i = i + 1;
            }
            proof {
                assert(pairs@.subrange(0, pairs@.len() as int) =~= pairs@);
            }
        },
    }
    out
}

/// Builds the request for one command of a spec.
fn request_for(spec: &VarSpec, default_shell: &Option<String>, command: &String) -> (r:
    CommandRequest)
    ensures
        req_matches(r, *spec, *default_shell, *command),
{
    let per: Option<&str> = match &spec.shell {
        Some(s) => Some(s.as_str()),
        None => None,
    };
    let global: Option<&str> = match default_shell {
        Some(s) => Some(s.as_str()),
        None => None,
    };
    let choice = resolve(per, global);
    let cwd: Option<String> = match &spec.cwd {
        Some(d) => Some(d.clone()),
        None => None,
    };
    CommandRequest { command: command.clone(), shell: choice, cwd, env: overlay_of(spec) }
}

/// Lays out, in declaration order, every command the configuration asks to
/// run: for each named spec its single command first, then its command
/// sequence in order.  The requests carry the resolved shell choice, the
/// working directory override and the environment overlay of their spec.
pub fn command_plan(root: &RootConfig) -> (reqs: Vec<CommandRequest>)
    ensures
        reqs@.len() == plan_count(root.vars@),
        forall|i: int|
            0 <= i < root.vars@.len() && cmd_branch(root.vars@[i]) ==> req_matches(
                reqs@[#[trigger] cmds_before(root.vars@, i) as int],
                root.vars@[i],
                root.default_shell,
                root.vars@[i].cmd->0,
            ),
        forall|i: int, k: int|
            #![trigger cmds_slot(root.vars@, i, k)]
            0 <= i < root.vars@.len() && cmds_branch(root.vars@[i]) && 0 <= k
                < root.vars@[i].cmds->0@.len() ==> req_matches(
                reqs@[cmds_slot(root.vars@, i, k)],
                root.vars@[i],
                root.default_shell,
                root.vars@[i].cmds->0@[k],
            ),
{
    let ghost specs = root.vars@;
    let mut reqs: Vec<CommandRequest> = Vec::new();
    let mut i: usize = 0;
    while i < root.vars.len()
        invariant
            0 <= i <= root.vars@.len(),
            specs == root.vars@,
            reqs@.len() == cmds_before(specs, i as int),
            forall|j: int|
                0 <= j < i && cmd_branch(specs[j]) ==> req_matches(
                    reqs@[#[trigger] cmds_before(specs, j) as int],
                    specs[j],
                    root.default_shell,
                    specs[j].cmd->0,
                ),
            forall|j: int, k: int|
                #![trigger cmds_slot(specs, j, k)]
                0 <= j < i && cmds_branch(specs[j]) && 0 <= k < specs[j].cmds->0@.len()
                    ==> req_matches(
                    reqs@[cmds_slot(specs, j, k)],
                    specs[j],
                    root.default_shell,
                    specs[j].cmds->0@[k],
                ),
        decreases root.vars@.len() - i,
    {
        let spec = &root.vars[i];
        proof {
            assert(cmds_before(specs, i + 1) == cmds_before(specs, i as int) + cmd_count(
                specs[i as int],
            ));
            crate::config::lemma_cmds_before_all(specs, i as int);
            crate::config::lemma_cmds_before_all(specs, i + 1);
        }
        if spec.name.is_some() {
            if let Some(cmd) = &spec.cmd {
                let req = request_for(spec, &root.default_shell, cmd);
                reqs.push(req);
            }
            if let Some(cmds) = &spec.cmds {
                let base = reqs.len();
                let mut k: usize = 0;
                while k < cmds.len()
                    invariant
                        0 <= k <= cmds@.len(),
                        specs == root.vars@,
                        0 <= (i as int) < specs.len(),
                        *spec == specs[i as int],
                        cmds@ == specs[i as int].cmds->0@,
                        cmds_branch(specs[i as int]),
                        base == cmds_before(specs, i as int) + (if cmd_branch(specs[i as int]) {
                            1int
                        } else {
                            0int
                        }),
                        reqs@.len() == base + k,
                        forall|j: int|
                            0 <= j < i && cmd_branch(specs[j]) ==> req_matches(
                                reqs@[#[trigger] cmds_before(specs, j) as int],
                                specs[j],
                                root.default_shell,
                                specs[j].cmd->0,
                            ),
                        forall|j: int, m: int|
                            #![trigger cmds_slot(specs, j, m)]
                            0 <= j < i && cmds_branch(specs[j]) && 0 <= m < specs[j].cmds->0@.len()
                                ==> req_matches(
                                reqs@[cmds_slot(specs, j, m)],
                                specs[j],
                                root.default_shell,
                                specs[j].cmds->0@[m],
                            ),
                        cmd_branch(specs[i as int]) ==> req_matches(
                            reqs@[cmds_before(specs, i as int) as int],
                            specs[i as int],
                            root.default_shell,
                            specs[i as int].cmd->0,
                        ),
                        forall|m: int|
                            0 <= m < k ==> req_matches(
                                reqs@[#[trigger] cmds_slot(specs, i as int, m)],
                                specs[i as int],
                                root.default_shell,
                                specs[i as int].cmds->0@[m],
                            ),
                    decreases cmds@.len() - k,
                {
                    proof {
                        crate::config::lemma_cmds_before_all(specs, i as int);
                        crate::config::lemma_cmds_before_all(specs, i + 1);
                    }
                    let req = request_for(spec, &root.default_shell, &cmds[k]);
                    reqs.push(req);
                    k = k + 1;
                }
            }
        }
        proof {
            if !(specs[i as int].name is Some) {
                assert(cmd_count(specs[i as int]) == 0);
            }
        }
        i = i + 1;
    }
    reqs
}

} // verus!
