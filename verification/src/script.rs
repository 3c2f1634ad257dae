//! The embedded script engine.
//!
//! Variables may be produced by evaluating a script expression, and filters
//! by calling a scripted function that was compiled beforehand.  The library
//! assembles the function definitions itself — one `fn name(args) { body }`
//! line per filter spec, in declaration order — and goes through trusted
//! wrappers for compiling and evaluating, since the engine is an outside
//! runtime.  A compilation or evaluation failure is a hard error for the
//! caller: the configuration itself is broken, unlike a failing command.

use vstd::prelude::*;
use vstd::string::*;
use crate::config::{ArgumentSpec, VarSpec};
use crate::text::join_sep;

verus! {

#[verifier::external_type_specification]
#[verifier::external_body]
pub struct ExEngine(rhai::Engine);

#[verifier::external_type_specification]
#[verifier::external_body]
pub struct ExAst(rhai::AST);

/// Relies on rhai's Engine::new: a fresh engine with the default feature set.
#[verifier::external_body]
pub(crate) fn engine_new() -> rhai::Engine {
    rhai::Engine::new()
}

/// Relies on rhai's Engine::eval_with_scope: evaluates one expression in a
/// fresh scope; the value's default stringification on success, the engine's
/// error text on a syntax or runtime error.  Scripts may read the clock, so
/// nothing is claimed of the result.
#[verifier::external_body]
pub(crate) fn eval_expression(engine: &rhai::Engine, src: &str) -> Result<String, String> {
    let mut scope = rhai::Scope::new();
    match engine.eval_with_scope::<rhai::Dynamic>(&mut scope, src) {
        Ok(value) => Ok(value.to_string()),
        Err(err) => Err(err.to_string()),
    }
}

/// Whether the engine accepts this source: compilation under the default
/// engine is a function of the source alone, and succeeds exactly on
/// syntactically well-formed definitions.
pub uninterp spec fn compiles_ok(src: Seq<char>) -> bool;

/// Relies on rhai's Engine::compile: compiles function definitions into a
/// reusable program; the engine's error text on any syntax error.  Success
/// depends on the source alone.
#[verifier::external_body]
pub(crate) fn compile_functions(engine: &rhai::Engine, src: &str) -> (r: Result<rhai::AST, String>)
    ensures
        r is Ok <==> compiles_ok(src@),
{
    match engine.compile(src) {
        Ok(ast) => Ok(ast),
        Err(err) => Err(err.to_string()),
    }
}

/// Relies on rhai's Engine::call_fn: calls a compiled function by name, in a
/// fresh scope, with one positional argument; the result's default
/// stringification, or the engine's error text when the function is absent,
/// the arity mismatches, or the body fails.
#[verifier::external_body]
pub(crate) fn call_function(
    engine: &rhai::Engine,
    ast: &rhai::AST,
    name: &str,
    arg: String,
) -> Result<String, String> {
    let mut scope = rhai::Scope::new();
    match engine.call_fn::<rhai::Dynamic>(&mut scope, ast, name, (arg,)) {
        Ok(value) => Ok(value.to_string()),
        Err(err) => Err(err.to_string()),
    }
}

/// The parameter list of a function definition: the argument names joined
/// with comma separators.
pub open spec fn spec_arg_list(args: Seq<ArgumentSpec>) -> Seq<char> {
    join_sep(args.map_values(|a: ArgumentSpec| a.name@), ", "@)
}

/// The source text of one function definition.
pub open spec fn spec_function_source(name: Seq<char>, args: Seq<ArgumentSpec>, body: Seq<char>) -> Seq<char> {
    "fn "@ + name + "("@ + spec_arg_list(args) + ") { "@ + body + " }\n"@
}

/// The concatenated definitions of every filter among the first `i` specs,
/// in declaration order.
pub open spec fn defs_upto(specs: Seq<VarSpec>, i: int) -> Seq<char>
    decreases i,
{
    if i <= 0 {
        Seq::empty()
    } else {
        defs_upto(specs, i - 1) + (if specs[i - 1].function is Some {
            spec_function_source(
                specs[i - 1].function->0@,
                specs[i - 1].arguments@,
                specs[i - 1].script@,
            )
        } else {
            Seq::<char>::empty()
        })
    }
}

/// The complete filter-definition program of a configuration.
pub open spec fn spec_function_defs(specs: Seq<VarSpec>) -> Seq<char> {
    defs_upto(specs, specs.len() as int)
}

/// The argument names of a spec, in order.
fn arg_names(args: &Vec<ArgumentSpec>) -> (r: Vec<String>)
    ensures
        r.deep_view() =~= args@.map_values(|a: ArgumentSpec| a.name@),
{
    let mut out: Vec<String> = Vec::new();
    let mut i: usize = 0;
    while i < args.len()
        invariant
            0 <= i <= args.len(),
            out@.len() == i,
            forall|j: int| 0 <= j < i ==> out@[j]@ == args@[j].name@,
        decreases args.len() - i,
    {
        out.push(args[i].name.clone());
        i = i + 1;
    }
    proof {
        assert(out.deep_view() =~= args@.map_values(|a: ArgumentSpec| a.name@));
    }
    out
}

/// Assembles the source of one function definition from its name, its
/// parameter names and its body.
pub fn function_source(name: &str, args: &Vec<ArgumentSpec>, body: &str) -> (r: String)
    ensures
        r@ == spec_function_source(name@, args@, body@),
{
    let arg_list = crate::text::join_with(&arg_names(args), ", ");
    let mut out = "fn ".to_owned();
    out.append(name);
    out.append("(");
    out.append(arg_list.as_str());
    out.append(") { ");
    out.append(body);
    out.append(" }\n");
    proof {
        assert(out@ =~= spec_function_source(name@, args@, body@));
    }
    out
}

/// Assembles the filter-definition program: one function definition per spec
/// that defines a filter, in declaration order.
pub fn all_function_sources(specs: &Vec<VarSpec>) -> (r: String)
    ensures
        r@ == spec_function_defs(specs@),
{
    let mut out = String::new();
    let mut i: usize = 0;
    while i < specs.len()
        invariant
            0 <= i <= specs.len(),
            out@ == defs_upto(specs@, i as int),
        decreases specs.len() - i,
    {
        if let Some(name) = &specs[i].function {
            let piece = function_source(name.as_str(), &specs[i].arguments, specs[i].script.as_str());
            out.append(piece.as_str());
        }
        proof {
            assert(out@ =~= defs_upto(specs@, i + 1));
        }
        i = i + 1;
    }
    out
}

/// Applies a compiled filter to one value: calls the scripted function of
/// that name with the value as its single argument.  A failure carries the
/// engine's message behind a fixed prefix and is meant to abort rendering —
/// a broken filter has no safe default output.
pub fn run_filter(ast: &rhai::AST, name: &str, input: String) -> (r: Result<String, String>)
    ensures
        r matches Err(m) ==> exists|t: Seq<char>| m@ == "Rhai Call Error: "@ + t,
{
    let engine = engine_new();
    match call_function(&engine, ast, name, input) {
        Ok(value) => Ok(value),
        Err(err) => {
            let mut m = "Rhai Call Error: ".to_owned();
            m.append(err.as_str());
            proof {
                assert(m@ == "Rhai Call Error: "@ + err@);
            }
            Err(m)
        },
    }
}

} // verus!
