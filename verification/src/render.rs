//! Template rendering.
//!
//! The renderer compiles the filter-definition program, registers one filter
//! per filter spec — each applying its scripted function to a single string
//! argument — resolves the context, registers the template under one logical
//! name and renders it.  The template engine is an outside runtime reached
//! through trusted wrappers; its documented "undefined renders as empty"
//! policy means a reference to an unbound name yields an empty string, never
//! an error.  Compilation, script-evaluation, template-syntax and
//! filter-invocation failures all abort rendering with a message.

use vstd::prelude::*;
use crate::commands::CmdOutcome;
use crate::config::{RootConfig, plan_count};
use crate::context::{ResolvedContext, build_context};
use crate::script::{engine_new, compile_functions, compiles_ok, all_function_sources, spec_function_defs};

verus! {

#[verifier::external_type_specification]
#[verifier::external_body]
pub struct ExEnvironment<'source>(minijinja::Environment<'source>);

#[verifier::external_type_specification]
#[verifier::external_body]
pub struct ExTemplate<'env: 'source, 'source>(minijinja::Template<'env, 'source>);

/// The compiled filter program: every scripted function definition of the
/// configuration, compiled once before any variable is resolved, so that a
/// broken definition aborts the run first.
pub struct FilterProgram {
    ast: rhai::AST,
}

/// Relies on minijinja's Environment::new: a fresh environment with default
/// settings, under which an undefined template variable renders as empty.
#[verifier::external_body]
fn environment_new() -> minijinja::Environment<'static> {
    minijinja::Environment::new()
}

/// Whether the template engine accepts this template source: registration
/// under default settings parses the source, and succeeds exactly when it is
/// syntactically well formed — a function of the source alone.
pub uninterp spec fn parses_ok(src: Seq<char>) -> bool;

/// Relies on minijinja's Environment::add_template_owned: registers the
/// template source under a name; the engine's error text on a syntax error.
/// Success depends on the source alone.
#[verifier::external_body]
fn add_template(
    env: &mut minijinja::Environment<'static>,
    name: &str,
    source: &str,
) -> (r: Result<(), String>)
    ensures
        r is Ok <==> parses_ok(source@),
{
    match env.add_template_owned(name.to_string(), source.to_string()) {
        Ok(()) => Ok(()),
        Err(err) => Err(err.to_string()),
    }
}

/// Relies on minijinja's Environment::add_filter: registers a one-argument
/// string filter.  The closure only calls [`crate::script::run_filter`] and
/// converts its error into the engine's error type, so a failing filter
/// aborts rendering.
#[verifier::external_body]
fn add_scripted_filter(env: &mut minijinja::Environment<'static>, name: &str, ast: &rhai::AST) {
    let filter_ast = ast.clone();
    let filter_name = name.to_string();
    env.add_filter(
        name.to_string(),
        move |input: String| -> Result<String, minijinja::Error> {
            crate::script::run_filter(&filter_ast, &filter_name, input).map_err(
                |msg| minijinja::Error::new(minijinja::ErrorKind::InvalidOperation, msg),
            )
        },
    );
}

/// Relies on minijinja's Environment::get_template: the registered template,
/// or the engine's error text for an unknown name.
#[verifier::external_body]
fn get_template<'env>(
    env: &'env minijinja::Environment<'static>,
    name: &str,
) -> Result<minijinja::Template<'env, 'env>, String> {
    match env.get_template(name) {
        Ok(tmpl) => Ok(tmpl),
        Err(err) => Err(err.to_string()),
    }
}

/// Relies on minijinja's Template::render: renders with the given
/// name/value bindings — the callers hand in distinct names, so the
/// conversion here collapses nothing — and on its default undefined policy,
/// under which an unbound name renders as empty; the engine's error text on
/// a template or filter failure.
#[verifier::external_body]
fn render_template(
    tmpl: &minijinja::Template<'_, '_>,
    bindings: &Vec<(String, String)>,
) -> Result<String, String> {
    let map: std::collections::HashMap<String, String> = bindings.iter().cloned().collect();
    match tmpl.render(map) {
        Ok(out) => Ok(out),
        Err(err) => Err(err.to_string()),
    }
}

/// Compiles every filter definition of the configuration into one reusable
/// program, succeeding exactly when the engine accepts the assembled
/// definition text.  This happens before any variable resolution: a single
/// broken definition blocks the whole template.
pub fn compile_filters(root: &RootConfig) -> (r: Result<FilterProgram, String>)
    ensures
        r is Ok <==> compiles_ok(spec_function_defs(root.vars@)),
{
    let defs = all_function_sources(&root.vars);
    let engine = engine_new();
    match compile_functions(&engine, defs.as_str()) {
        Ok(ast) => Ok(FilterProgram { ast }),
        Err(err) => Err(err),
    }
}

/// Renders the template against the configuration: registers one filter per
/// filter spec, resolves the context from the reported command outcomes,
/// registers the template and renders it.  What comes back is the engine's
/// output, so nothing is claimed of it; the context it renders against is
/// pinned by [`build_context`]'s contract.
pub fn render_output(
    root: &RootConfig,
    program: &FilterProgram,
    template_text: &str,
    outcomes: &Vec<CmdOutcome>,
) -> (r: Result<String, String>)
    requires
        outcomes@.len() == plan_count(root.vars@),
    ensures
        r is Ok ==> parses_ok(template_text@),
{
    let mut env = environment_new();
    let mut i: usize = 0;
    while i < root.vars.len()
        decreases root.vars@.len() - i,
    {
        if let Some(name) = &root.vars[i].function {
            add_scripted_filter(&mut env, name.as_str(), &program.ast);
        }
        i = i + 1;
    }
    let ctx = match build_context(root, outcomes) {
        Ok(ctx) => ctx,
        Err(err) => {
            return Err(err);
        },
    };
    match add_template(&mut env, "main", template_text) {
        Ok(()) => {},
        Err(err) => {
            return Err(err);
        },
    }
    let tmpl = match get_template(&env, "main") {
        Ok(tmpl) => tmpl,
        Err(err) => {
            return Err(err);
        },
    };
    render_template(&tmpl, &ctx.dedup_entries())
}

/// Renders a template that uses no filters and no scripted variables: the
/// context is built and handed in by the caller.  This is the rendering path
/// a test reaches without a configuration.
pub fn render_with_context(template_text: &str, ctx: &ResolvedContext) -> (r: Result<
    String,
    String,
>)
    ensures
        r is Ok ==> parses_ok(template_text@),
{
    let mut env = environment_new();
    match add_template(&mut env, "main", template_text) {
        Ok(()) => {},
        Err(err) => {
            return Err(err);
        },
    }
    let tmpl = match get_template(&env, "main") {
        Ok(tmpl) => tmpl,
        Err(err) => {
            return Err(err);
        },
    };
    render_template(&tmpl, &ctx.dedup_entries())
}

} // verus!
