//! Context resolution.
//!
//! A single pass over the variable specifications, in declaration order,
//! turns each named spec into a context entry: a script body is evaluated as
//! an expression, a single command's processed outcome is taken as is, and a
//! command sequence's processed outcomes are joined with newlines.  A spec
//! that matches several branches executes all of them, and the later
//! insertion overwrites the earlier one; the same holds for two specs
//! declaring the same name — last writer wins.
//!
//! Command outcomes are inputs here: the caller ran the plan laid out by
//! [`crate::commands::command_plan`] and reports what came of each request.
//! Script evaluation happens inside, through the engine wrappers; a script
//! failure aborts resolution, a command failure never does.

use vstd::prelude::*;
use vstd::string::*;
use crate::commands::{CmdOutcome, spec_outcome_value, outcome_value};
use crate::config::{
    VarSpec,
    RootConfig,
    script_branch,
    cmd_branch,
    cmds_branch,
    produces_entry,
    exactly_one_branch,
    cmd_count,
    cmds_before,
    plan_count,
    script_count,
    scripts_before,
    lemma_cmds_before_all,
};
use crate::text::{join_nl, join_with, is_blank};

verus! {

/// The name-to-value mapping handed to the renderer.  Entries are kept in
/// insertion order; the mapping it stands for is read through [`Self::as_map`],
/// under which a later insertion of an existing name wins.
#[derive(Debug)]
pub struct ResolvedContext {
    entries: Vec<(String, String)>,
}

/// The mapping a journal of insertions stands for: every entry applied in
/// order, so the last writer of a name wins.
pub open spec fn map_of(entries: Seq<(String, String)>) -> Map<Seq<char>, Seq<char>>
    decreases entries.len(),
{
    if entries.len() == 0 {
        Map::empty()
    } else {
        map_of(entries.drop_last()).insert(entries.last().0@, entries.last().1@)
    }
}

/// A name held by no entry is not in the mapping.
proof fn lemma_map_of_no_match(entries: Seq<(String, String)>, k: Seq<char>)
    requires
        forall|j: int| 0 <= j < entries.len() ==> (#[trigger] entries[j].0)@ != k,
    ensures
        !map_of(entries).contains_key(k),
    decreases entries.len(),
{
    if entries.len() > 0 {
        assert(forall|j: int|
            0 <= j < entries.drop_last().len() ==> #[trigger] entries.drop_last()[j]
                == entries[j]);
        lemma_map_of_no_match(entries.drop_last(), k);
    }
}

/// The value of a name is the value of its last entry.
proof fn lemma_map_of_last_match(entries: Seq<(String, String)>, k: Seq<char>, p: int)
    requires
        0 <= p < entries.len(),
        entries[p].0@ == k,
        forall|j: int| p < j < entries.len() ==> (#[trigger] entries[j].0)@ != k,
    ensures
        map_of(entries).contains_key(k),
        map_of(entries)[k] == entries[p].1@,
    decreases entries.len(),
{
    if p < entries.len() - 1 {
        assert(forall|j: int|
            0 <= j < entries.drop_last().len() ==> #[trigger] entries.drop_last()[j]
                == entries[j]);
        lemma_map_of_last_match(entries.drop_last(), k, p);
    }
}

/// A name is in the mapping exactly when some entry binds it.
proof fn lemma_map_of_contains(entries: Seq<(String, String)>, k: Seq<char>)
    ensures
        map_of(entries).contains_key(k) <==> exists|j: int|
            0 <= j < entries.len() && (#[trigger] entries[j].0)@ == k,
    decreases entries.len(),
{
    if entries.len() > 0 {
        assert(forall|j: int|
            0 <= j < entries.drop_last().len() ==> #[trigger] entries.drop_last()[j]
                == entries[j]);
        lemma_map_of_contains(entries.drop_last(), k);
        if map_of(entries).contains_key(k) {
            if entries.last().0@ == k {
                assert((entries[entries.len() - 1].0)@ == k);
            } else {
                let j = choose|j: int|
                    0 <= j < entries.drop_last().len() && (#[trigger] entries.drop_last()[j].0)@
                        == k;
                assert((entries[j].0)@ == k);
            }
        }
        if exists|j: int| 0 <= j < entries.len() && (#[trigger] entries[j].0)@ == k {
            let j = choose|j: int| 0 <= j < entries.len() && (#[trigger] entries[j].0)@ == k;
            if j < entries.len() - 1 {
                assert((entries.drop_last()[j].0)@ == k);
            }
        }
    }
}

/// Whether any entry binds this name.
fn holds_name(entries: &Vec<(String, String)>, name: &str) -> (r: bool)
    ensures
        r == exists|j: int| 0 <= j < entries@.len() && (#[trigger] entries@[j].0)@ == name@,
{
    let mut i: usize = 0;
    while i < entries.len()
        invariant
            0 <= i <= entries@.len(),
            forall|j: int| 0 <= j < i ==> (#[trigger] entries@[j].0)@ != name@,
        decreases entries@.len() - i,
    {
        if crate::text::str_eq(entries[i].0.as_str(), name) {
            proof {
                assert((entries@[i as int].0)@ == name@);
            }
            return true;
        }
        i = i + 1;
    }
    false
}

impl ResolvedContext {
    /// The insertion journal.
    pub closed spec fn entries_seq(self) -> Seq<(String, String)> {
        self.entries@
    }

    /// The mapping this context stands for.
    pub open spec fn as_map(self) -> Map<Seq<char>, Seq<char>> {
        map_of(self.entries_seq())
    }

    /// An empty context.
    pub fn new() -> (r: Self)
        ensures
            r.as_map() == Map::<Seq<char>, Seq<char>>::empty(),
            r.entries_seq().len() == 0,
    {
        ResolvedContext { entries: Vec::new() }
    }

    /// Binds `name` to `value`, overwriting any earlier binding of the name.
    pub fn insert(&mut self, name: String, value: String)
        ensures
            final(self).as_map() == old(self).as_map().insert(name@, value@),
            final(self).entries_seq() == old(self).entries_seq().push((name, value)),
    {
        self.entries.push((name, value));
        proof {
            assert(self.entries@.drop_last() =~= old(self).entries@);
        }
    }

    /// The value bound to `name`, present exactly when some entry bound it.
    pub fn get(&self, name: &str) -> (r: Option<&String>)
        ensures
            r is Some <==> self.as_map().contains_key(name@),
            r matches Some(v) ==> self.as_map()[name@] == v@,
    {
        let n = self.entries.len();
        let mut i: usize = n;
        while i > 0
            invariant
                0 <= i <= n,
                n == self.entries@.len(),
                forall|j: int| i <= j < n ==> (#[trigger] self.entries@[j].0)@ != name@,
            decreases i,
        {
            i = i - 1;
            if crate::text::str_eq(self.entries[i].0.as_str(), name) {
                proof {
                    lemma_map_of_last_match(self.entries@, name@, i as int);
                }
                return Some(&self.entries[i].1);
            }
        }
        proof {
            lemma_map_of_no_match(self.entries@, name@);
        }
        None
    }

    /// The entries in insertion order, for a consumer that walks them; a
    /// later entry of a name supersedes an earlier one.
    pub fn entries(&self) -> (r: &Vec<(String, String)>)
        ensures
            r@ == self.entries_seq(),
    {
        &self.entries
    }

    /// The insertion journal collapsed to the mapping it stands for: each
    /// name once, bound to its final value.
    pub fn dedup_entries(&self) -> (r: Vec<(String, String)>)
        ensures
            map_of(r@) == self.as_map(),
            forall|p: int, q: int|
                0 <= p < q < r@.len() ==> (#[trigger] r@[p].0)@ != (#[trigger] r@[q].0)@,
    {
        let ghost journal = self.entries@;
        let mut out: Vec<(String, String)> = Vec::new();
        let n = self.entries.len();
        let mut i: usize = n;
        while i > 0
            invariant
                0 <= i <= n,
                n == journal.len(),
                journal == self.entries@,
                forall|p: int, q: int|
                    0 <= p < q < out@.len() ==> (#[trigger] out@[p].0)@ != (#[trigger]
                    out@[q].0)@,
                forall|p: int|
                    0 <= p < out@.len() ==> map_of(journal).contains_key(
                        (#[trigger] out@[p].0)@,
                    ) && map_of(journal)[(out@[p].0)@] == (out@[p].1)@,
                forall|j: int|
                    i <= j < n ==> exists|p: int|
                        0 <= p < out@.len() && (#[trigger] journal[j].0)@ == (out@[p].0)@,
            decreases i,
        {
            i = i - 1;
            let present = holds_name(&out, self.entries[i].0.as_str());
            let ghost out_before = out@;
            if !present {
                proof {
                    assert forall|j: int| i < j < n implies (#[trigger] journal[j].0)@ != (
                    journal[i as int].0)@ by {
                        let p = choose|p: int|
                            0 <= p < out@.len() && (journal[j].0)@ == (out@[p].0)@;
                        assert((out@[p].0)@ != (journal[i as int].0)@);
                    }
                    lemma_map_of_last_match(journal, (journal[i as int].0)@, i as int);
                }
                let pair = (self.entries[i].0.clone(), self.entries[i].1.clone());
                out.push(pair);
            }
            proof {
                assert forall|j: int| i <= j < n implies exists|p: int|
                    0 <= p < out@.len() && (#[trigger] journal[j].0)@ == (out@[p].0)@ by {
                    if j > i {
                        let p = choose|p: int|
                            0 <= p < out_before.len() && (journal[j].0)@ == (out_before[p].0)@;
                        assert((out@[p].0)@ == (journal[j].0)@);
                    } else if present {
                        let p = choose|p: int|
                            0 <= p < out_before.len() && (out_before[p].0)@ == (journal[i as int].0)@;
                        assert((out@[p].0)@ == (journal[j].0)@);
                    } else {
                        assert((out@[out@.len() - 1].0)@ == (journal[j].0)@);
                    }
                }
            }
        }
        proof {
            assert forall|k: Seq<char>| #[trigger] map_of(out@).contains_key(k) implies self
                .as_map().contains_key(k) && map_of(out@)[k] == self.as_map()[k] by {
                lemma_map_of_contains(out@, k);
                let p = choose|p: int| 0 <= p < out@.len() && (#[trigger] out@[p].0)@ == k;
                lemma_map_of_last_match(out@, k, p);
            }
            assert forall|k: Seq<char>| #[trigger] self.as_map().contains_key(k) implies map_of(
                out@,
            ).contains_key(k) by {
                lemma_map_of_contains(journal, k);
                let j = choose|j: int|
                    0 <= j < journal.len() && (#[trigger] journal[j].0)@ == k;
                lemma_map_of_contains(out@, k);
            }
            assert(map_of(out@) =~= self.as_map());
        }
        out
    }
}

/// One resolution step: the insertions spec `s` makes into mapping `m`, given
/// the value `sv` its script evaluated to (when it has a script branch) and
/// the outcomes `outs` of exactly its commands.  Branches apply in order —
/// script, single command, command sequence — so the last matching branch
/// wins the name.
pub open spec fn spec_step(
    m: Map<Seq<char>, Seq<char>>,
    s: VarSpec,
    sv: Option<Seq<char>>,
    outs: Seq<CmdOutcome>,
) -> Map<Seq<char>, Seq<char>> {
    let m1 = if script_branch(s) {
        m.insert(s.name->0@, sv->0)
    } else {
        m
    };
    let m2 = if cmd_branch(s) {
        m1.insert(s.name->0@, spec_outcome_value(outs[0]))
    } else {
        m1
    };
    if cmds_branch(s) {
        let start: int = if cmd_branch(s) {
            1int
        } else {
            0int
        };
        m2.insert(
            s.name->0@,
            join_nl(
                outs.subrange(start, outs.len() as int).map_values(
                    |o: CmdOutcome| spec_outcome_value(o),
                ),
            ),
        )
    } else {
        m2
    }
}

/// The script value spec `i` consumes out of the evaluation sequence.
pub open spec fn spec_script_value(scripts: Seq<Seq<char>>, specs: Seq<VarSpec>, i: int) -> Option<
    Seq<char>,
> {
    if script_branch(specs[i]) {
        Some(scripts[scripts_before(specs, i) as int])
    } else {
        None
    }
}

/// The slice of outcomes belonging to spec `i`'s commands.
pub open spec fn outs_for(outcomes: Seq<CmdOutcome>, specs: Seq<VarSpec>, i: int) -> Seq<
    CmdOutcome,
> {
    outcomes.subrange(
        cmds_before(specs, i) as int,
        cmds_before(specs, i) + cmd_count(specs[i]) as int,
    )
}

/// The mapping after resolving the first `i` specs, given the sequence of
/// script values and the sequence of command outcomes.
pub open spec fn context_upto(
    specs: Seq<VarSpec>,
    scripts: Seq<Seq<char>>,
    outcomes: Seq<CmdOutcome>,
    i: int,
) -> Map<Seq<char>, Seq<char>>
    decreases i,
{
    if i <= 0 {
        Map::empty()
    } else {
        spec_step(
            context_upto(specs, scripts, outcomes, i - 1),
            specs[i - 1],
            spec_script_value(scripts, specs, i - 1),
            outs_for(outcomes, specs, i - 1),
        )
    }
}

/// The mapping after resolving every spec.
pub open spec fn spec_context(
    specs: Seq<VarSpec>,
    scripts: Seq<Seq<char>>,
    outcomes: Seq<CmdOutcome>,
) -> Map<Seq<char>, Seq<char>> {
    context_upto(specs, scripts, outcomes, specs.len() as int)
}

/// The first `i` resolution steps read only the first `scripts_before(i)`
/// script values, so two evaluation sequences agreeing there resolve alike.
proof fn lemma_context_scripts_agree(
    specs: Seq<VarSpec>,
    s1: Seq<Seq<char>>,
    s2: Seq<Seq<char>>,
    outcomes: Seq<CmdOutcome>,
    i: int,
)
    requires
        forall|j: int| 0 <= j < scripts_before(specs, i) ==> s1[j] == s2[j],
    ensures
        context_upto(specs, s1, outcomes, i) == context_upto(specs, s2, outcomes, i),
    decreases i,
{
    if i > 0 {
        assert(scripts_before(specs, i) == scripts_before(specs, i - 1) + script_count(
            specs[i - 1],
        ));
        lemma_context_scripts_agree(specs, s1, s2, outcomes, i - 1);
        if script_branch(specs[i - 1]) {
            assert(scripts_before(specs, i - 1) < scripts_before(specs, i));
        }
    }
}

/// The names that resolving the first `i` specs binds.
pub open spec fn names_upto(specs: Seq<VarSpec>, i: int) -> Set<Seq<char>>
    decreases i,
{
    if i <= 0 {
        Set::empty()
    } else if produces_entry(specs[i - 1]) {
        names_upto(specs, i - 1).insert(specs[i - 1].name->0@)
    } else {
        names_upto(specs, i - 1)
    }
}

/// Resolution binds exactly the declared names of the specs that produce an
/// entry, whatever the scripts evaluated to and whatever the commands
/// printed.
pub proof fn lemma_context_upto_dom(
    specs: Seq<VarSpec>,
    scripts: Seq<Seq<char>>,
    outcomes: Seq<CmdOutcome>,
    i: int,
)
    ensures
        context_upto(specs, scripts, outcomes, i).dom() =~= names_upto(specs, i),
    decreases i,
{
    if i > 0 {
        lemma_context_upto_dom(specs, scripts, outcomes, i - 1);
    }
}

/// A name is bound after `i` steps exactly when an earlier entry-producing
/// spec declared it.
proof fn lemma_names_upto_mem(specs: Seq<VarSpec>, i: int, n: Seq<char>)
    ensures
        names_upto(specs, i).contains(n) <==> exists|j: int|
            0 <= j < i && produces_entry(#[trigger] specs[j]) && specs[j].name->0@ == n,
    decreases i,
{
    if i > 0 {
        lemma_names_upto_mem(specs, i - 1, n);
    }
}

/// With distinct names, each entry-producing spec grows the bound-name set by
/// one.
proof fn lemma_names_upto_card(specs: Seq<VarSpec>, i: int)
    requires
        0 <= i <= specs.len(),
        forall|j: int| 0 <= j < specs.len() ==> produces_entry(#[trigger] specs[j]),
        forall|j: int, k: int|
            0 <= j < k < specs.len() ==> (#[trigger] specs[j].name)->0@ != (#[trigger]
            specs[k].name)->0@,
    ensures
        names_upto(specs, i).finite(),
        names_upto(specs, i).len() == i,
    decreases i,
{
    if i > 0 {
        lemma_names_upto_card(specs, i - 1);
        lemma_names_upto_mem(specs, i - 1, specs[i - 1].name->0@);
        assert(!names_upto(specs, i - 1).contains(specs[i - 1].name->0@));
    }
}

/// Once a spec's name is bound, later specs with other names leave its value
/// alone.
proof fn lemma_value_preserved(
    specs: Seq<VarSpec>,
    scripts: Seq<Seq<char>>,
    outcomes: Seq<CmdOutcome>,
    i: int,
    j: int,
)
    requires
        0 <= i < j <= specs.len(),
        forall|k: int|
            i < k < specs.len() ==> (#[trigger] specs[k].name) is Some ==> specs[k].name->0@
                != specs[i].name->0@,
        specs[i].name is Some,
    ensures
        context_upto(specs, scripts, outcomes, j).contains_pair(
            specs[i].name->0@,
            context_upto(specs, scripts, outcomes, i + 1)[specs[i].name->0@],
        ) <== context_upto(specs, scripts, outcomes, i + 1).contains_key(specs[i].name->0@),
    decreases j,
{
    if j > i + 1 {
        lemma_value_preserved(specs, scripts, outcomes, i, j - 1);
    }
}

/// LAW: for specs with distinct declared names, the final context binds each
/// spec's name to exactly what its branch produced: the script's value for a
/// script variable, the processed outcome of its command for a
/// single-command variable, and the newline join of its commands' processed
/// outcomes for a multi-command variable.
pub proof fn lemma_branch_values(
    specs: Seq<VarSpec>,
    scripts: Seq<Seq<char>>,
    outcomes: Seq<CmdOutcome>,
)
    requires
        outcomes.len() == plan_count(specs),
        forall|i: int| 0 <= i < specs.len() ==> exactly_one_branch(#[trigger] specs[i]),
        forall|i: int, j: int|
            0 <= i < j < specs.len() ==> (#[trigger] specs[i].name)->0@ != (#[trigger]
            specs[j].name)->0@,
    ensures
        forall|i: int|
            0 <= i < specs.len() && script_branch(#[trigger] specs[i]) ==> spec_context(
                specs,
                scripts,
                outcomes,
            ).contains_pair(specs[i].name->0@, scripts[scripts_before(specs, i) as int]),
        forall|i: int|
            0 <= i < specs.len() && cmd_branch(#[trigger] specs[i]) ==> spec_context(
                specs,
                scripts,
                outcomes,
            ).contains_pair(
                specs[i].name->0@,
                spec_outcome_value(outcomes[cmds_before(specs, i) as int]),
            ),
        forall|i: int|
            0 <= i < specs.len() && cmds_branch(#[trigger] specs[i]) ==> spec_context(
                specs,
                scripts,
                outcomes,
            ).contains_pair(
                specs[i].name->0@,
                join_nl(
                    outs_for(outcomes, specs, i).map_values(
                        |o: CmdOutcome| spec_outcome_value(o),
                    ),
                ),
            ),
{
    assert forall|i: int| 0 <= i < specs.len() implies ({
        &&& script_branch(specs[i]) ==> spec_context(specs, scripts, outcomes).contains_pair(
            specs[i].name->0@,
            scripts[scripts_before(specs, i) as int],
        )
        &&& cmd_branch(specs[i]) ==> spec_context(specs, scripts, outcomes).contains_pair(
            specs[i].name->0@,
            spec_outcome_value(outcomes[cmds_before(specs, i) as int]),
        )
        &&& cmds_branch(specs[i]) ==> spec_context(specs, scripts, outcomes).contains_pair(
            specs[i].name->0@,
            join_nl(outs_for(outcomes, specs, i).map_values(|o: CmdOutcome| spec_outcome_value(o))),
        )
    }) by {
        let name = specs[i].name->0@;
        let after = context_upto(specs, scripts, outcomes, i + 1);
        let outs = outs_for(outcomes, specs, i);
        lemma_cmds_before_all(specs, specs.len() as int);
        assert(cmds_before(specs, i) + cmd_count(specs[i]) <= plan_count(specs));
        if script_branch(specs[i]) {
            assert(after[name] == scripts[scripts_before(specs, i) as int]);
        }
        if cmd_branch(specs[i]) {
            assert(outs[0] == outcomes[cmds_before(specs, i) as int]);
            assert(after[name] == spec_outcome_value(outcomes[cmds_before(specs, i) as int]));
        }
        if cmds_branch(specs[i]) {
            assert(outs.subrange(0, outs.len() as int) =~= outs);
            assert(after[name] == join_nl(
                outs.map_values(|o: CmdOutcome| spec_outcome_value(o)),
            ));
        }
        if i + 1 <= specs.len() - 1 {
            lemma_value_preserved(specs, scripts, outcomes, i, specs.len() as int);
        }
    }
}

/// LAW: for a sequence of specs each exercising exactly one production
/// branch, with distinct declared names, resolution yields exactly one entry
/// per spec, keyed by its declared name — whatever values the scripts and
/// commands produced.
pub proof fn lemma_one_entry_per_spec(
    specs: Seq<VarSpec>,
    scripts: Seq<Seq<char>>,
    outcomes: Seq<CmdOutcome>,
)
    requires
        forall|i: int| 0 <= i < specs.len() ==> exactly_one_branch(#[trigger] specs[i]),
        forall|i: int, j: int|
            0 <= i < j < specs.len() ==> (#[trigger] specs[i].name)->0@ != (#[trigger]
            specs[j].name)->0@,
    ensures
        spec_context(specs, scripts, outcomes).dom() =~= names_upto(
            specs,
            specs.len() as int,
        ),
        spec_context(specs, scripts, outcomes).dom().finite(),
        spec_context(specs, scripts, outcomes).dom().len() == specs.len(),
        forall|i: int|
            0 <= i < specs.len() ==> spec_context(specs, scripts, outcomes).dom().contains(
                (#[trigger] specs[i].name)->0@,
            ),
{
    lemma_context_upto_dom(specs, scripts, outcomes, specs.len() as int);
    lemma_names_upto_card(specs, specs.len() as int);
    assert forall|i: int| 0 <= i < specs.len() implies spec_context(
        specs,
        scripts,
        outcomes,
    ).dom().contains((#[trigger] specs[i].name)->0@) by {
        lemma_names_upto_mem(specs, specs.len() as int, specs[i].name->0@);
    }
}

/// Resolves every variable specification into the final context, in
/// declaration order, given the outcome of every planned command.  Scripts
/// are evaluated here; an evaluation failure aborts with the engine's
/// message, so resolution is owed exactly when no spec carries a script
/// branch.  Command failures never abort: their outcomes were already
/// degraded to `"ERROR: ..."` values.
pub fn build_context(root: &RootConfig, outcomes: &Vec<CmdOutcome>) -> (r: Result<
    ResolvedContext,
    String,
>)
    requires
        outcomes@.len() == plan_count(root.vars@),
    ensures
        r matches Ok(ctx) ==> exists|sv: Seq<Seq<char>>|
            #[trigger] spec_context(root.vars@, sv, outcomes@) == ctx.as_map() && sv.len()
                == scripts_before(root.vars@, root.vars@.len() as int),
        r matches Ok(ctx) ==> ctx.as_map().dom() =~= names_upto(
            root.vars@,
            root.vars@.len() as int,
        ),
        (forall|i: int|
            0 <= i < root.vars@.len() ==> !script_branch(#[trigger] root.vars@[i])) ==> r is Ok,
        r matches Err(m) ==> exists|t: Seq<char>| m@ == "Rhai Script Error: "@ + t,
{
    let engine = crate::script::engine_new();
    let total: usize = outcomes.len();
    let mut ctx = ResolvedContext::new();
    let ghost specs = root.vars@;
    let ghost mut sv: Seq<Seq<char>> = Seq::empty();
    let mut cidx: usize = 0;
    let mut i: usize = 0;
    while i < root.vars.len()
        invariant
            0 <= i <= specs.len(),
            specs == root.vars@,
            outcomes@.len() == plan_count(specs),
            total == outcomes@.len(),
            cidx == cmds_before(specs, i as int),
            sv.len() == scripts_before(specs, i as int),
            ctx.as_map() == context_upto(specs, sv, outcomes@, i as int),
        decreases specs.len() - i,
    {
        let spec = &root.vars[i];
        let ghost sv_before = sv;
        let ghost map_before = ctx.as_map();
        proof {
            lemma_cmds_before_all(specs, specs.len() as int);
            assert(cmds_before(specs, i as int) + cmd_count(specs[i as int]) <= plan_count(specs));
            assert(cmds_before(specs, i + 1) == cmds_before(specs, i as int) + cmd_count(
                specs[i as int],
            ));
            assert(scripts_before(specs, i + 1) == scripts_before(specs, i as int) + script_count(
                specs[i as int],
            ));
        }
        if let Some(name) = &spec.name {
            if spec.function.is_none() && !is_blank(spec.script.as_str()) {
                proof {
                    assert(script_branch(specs[i as int]));
                }
                match crate::script::eval_expression(&engine, spec.script.as_str()) {
                    Ok(value) => {
                        proof {
                            sv = sv.push(value@);
                        }
                        ctx.insert(name.clone(), value);
                    },
                    Err(err) => {
                        let mut m = "Rhai Script Error: ".to_owned();
                        m.append(err.as_str());
                        proof {
                            assert(m@ == "Rhai Script Error: "@ + err@);
                        }
                        return Err(m);
                    },
                }
            }
            if let Some(cmd) = &spec.cmd {
                proof {
                    assert(cidx + 1 <= total);
                }
                let value = outcome_value(&outcomes[cidx]);
                ctx.insert(name.clone(), value);
                cidx = cidx + 1;
            }
            if let Some(cmds) = &spec.cmds {
                let ghost flag: int = if cmd_branch(specs[i as int]) {
                    1int
                } else {
                    0int
                };
                proof {
                    assert(cidx == cmds_before(specs, i as int) + flag);
                }
                let mut vals: Vec<String> = Vec::new();
                let mut k: usize = 0;
                while k < cmds.len()
                    invariant
                        0 <= k <= cmds@.len(),
                        specs == root.vars@,
                        0 <= (i as int) < specs.len(),
                        *spec == specs[i as int],
                        cmds@ == specs[i as int].cmds->0@,
                        cmds_branch(specs[i as int]),
                        flag == (if cmd_branch(specs[i as int]) {
                            1int
                        } else {
                            0int
                        }),
                        cidx == cmds_before(specs, i as int) + flag,
                        total == outcomes@.len(),
                        cidx + cmds@.len() <= outcomes@.len(),
                        vals@.len() == k,
                        forall|m: int|
                            0 <= m < k ==> (#[trigger] vals@[m])@ == spec_outcome_value(
                                outcomes@[cidx + m],
                            ),
                    decreases cmds@.len() - k,
                {
                    let value = outcome_value(&outcomes[cidx + k]);
                    vals.push(value);
                    k = k + 1;
                }
                let joined = join_with(&vals, "\n");
                proof {
                    let outs = outs_for(outcomes@, specs, i as int);
                    let tail = outs.subrange(flag, outs.len() as int).map_values(
                        |o: CmdOutcome| spec_outcome_value(o),
                    );
                    assert(vals.deep_view() =~= tail);
                    reveal_strlit("\n");
                    assert("\n"@ =~= seq!['\n']);
                    assert(joined@ == join_nl(tail));
                }
                ctx.insert(name.clone(), joined);
                proof {
                    assert(cidx + cmds@.len() <= total);
                }
                cidx = cidx + cmds.len();
            }
        }
        proof {
            lemma_context_scripts_agree(specs, sv_before, sv, outcomes@, i as int);
            let outs = outs_for(outcomes@, specs, i as int);
            if cmd_branch(specs[i as int]) {
                assert(outs[0] == outcomes@[cmds_before(specs, i as int) as int]);
            }
            assert(ctx.as_map() == spec_step(
                context_upto(specs, sv, outcomes@, i as int),
                specs[i as int],
                spec_script_value(sv, specs, i as int),
                outs,
            ));
            assert(ctx.as_map() == context_upto(specs, sv, outcomes@, i + 1));
        }
        i = i + 1;
    }
    proof {
        assert(spec_context(specs, sv, outcomes@) == ctx.as_map());
        lemma_context_upto_dom(specs, sv, outcomes@, specs.len() as int);
    }
    Ok(ctx)
}

} // verus!
