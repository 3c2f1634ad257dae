// The script and template engines the library drives, exercised directly:
// these pin the collaborator behaviour the library's trusted wrappers rely
// on.
use std::collections::HashMap;

use jinja_rs::script::run_filter;
use minijinja::{value::Value, Environment};
use rhai::{Dynamic, Engine, Scope};

#[test]
fn test_rhai_simple_arithmetic() {
    let engine = Engine::new();
    let mut scope = Scope::new();
    let result: Dynamic = engine.eval_with_scope(&mut scope, "2 + 2").unwrap();
    assert_eq!(result.to_string(), "4");
}

#[test]
fn test_rhai_string_operations() {
    let engine = Engine::new();
    let mut scope = Scope::new();
    let result: Dynamic = engine
        .eval_with_scope(&mut scope, r#""hello".to_upper()"#)
        .unwrap();
    assert_eq!(result.to_string(), "HELLO");
}

#[test]
fn test_rhai_function_compilation() {
    let engine = Engine::new();
    let script = "fn double(x) { x * 2.0 }";
    let ast = engine.compile(script).unwrap();
    let mut scope = Scope::new();
    let result: Dynamic = engine.call_fn(&mut scope, &ast, "double", (5.0,)).unwrap();
    assert_eq!(result.to_string(), "10.0");
}

#[test]
fn test_rhai_multiple_functions() {
    let engine = Engine::new();
    let script = r#"
fn add(a, b) { a + b }
fn multiply(a, b) { a * b }
        "#;
    let ast = engine.compile(script).unwrap();
    let mut scope = Scope::new();

    let result1: Dynamic = engine.call_fn(&mut scope, &ast, "add", (3, 4)).unwrap();
    assert_eq!(result1.to_string(), "7");

    let result2: Dynamic = engine
        .call_fn(&mut scope, &ast, "multiply", (3, 4))
        .unwrap();
    assert_eq!(result2.to_string(), "12");
}

#[test]
fn test_rhai_string_function() {
    let engine = Engine::new();
    let script = r#"fn greet(name) { "Hello, " + name + "!" }"#;
    let ast = engine.compile(script).unwrap();
    let mut scope = Scope::new();
    let result: Dynamic = engine
        .call_fn(&mut scope, &ast, "greet", ("World".to_string(),))
        .unwrap();
    assert_eq!(result.to_string(), "Hello, World!");
}

#[test]
fn test_rhai_invalid_script() {
    let engine = Engine::new();
    let result = engine.compile("this is not valid rhai syntax +++");
    assert!(result.is_err());
}

#[test]
fn test_very_long_script() {
    let long_script = format!(r#""{}""#, "a".repeat(1000));
    let engine = Engine::new();
    let mut scope = Scope::new();
    let result: Dynamic = engine.eval_with_scope(&mut scope, &long_script).unwrap();
    assert_eq!(result.to_string().len(), 1000);
}

#[test]
fn test_minijinja_simple_variable() {
    let mut env = Environment::new();
    env.add_template("test", "Hello {{ name }}!").unwrap();
    let tmpl = env.get_template("test").unwrap();

    let mut ctx = HashMap::new();
    ctx.insert("name".to_string(), Value::from("Alice"));

    let output = tmpl.render(ctx).unwrap();
    assert_eq!(output, "Hello Alice!");
}

#[test]
fn test_minijinja_multiple_variables() {
    let mut env = Environment::new();
    env.add_template("test", "{{ greeting }} {{ name }}!")
        .unwrap();
    let tmpl = env.get_template("test").unwrap();

    let mut ctx = HashMap::new();
    ctx.insert("greeting".to_string(), Value::from("Hi"));
    ctx.insert("name".to_string(), Value::from("Bob"));

    let output = tmpl.render(ctx).unwrap();
    assert_eq!(output, "Hi Bob!");
}

#[test]
fn test_minijinja_with_filter() {
    let mut env = Environment::new();
    env.add_filter("upper", |s: String| s.to_uppercase());
    env.add_template("test", "{{ name | upper }}").unwrap();
    let tmpl = env.get_template("test").unwrap();

    let mut ctx = HashMap::new();
    ctx.insert("name".to_string(), Value::from("alice"));

    let output = tmpl.render(ctx).unwrap();
    assert_eq!(output, "ALICE");
}

#[test]
fn test_minijinja_multiline_template() {
    let mut env = Environment::new();
    env.add_template("test", "Line 1: {{ var1 }}\nLine 2: {{ var2 }}")
        .unwrap();
    let tmpl = env.get_template("test").unwrap();

    let mut ctx = HashMap::new();
    ctx.insert("var1".to_string(), Value::from("first"));
    ctx.insert("var2".to_string(), Value::from("second"));

    let output = tmpl.render(ctx).unwrap();
    assert_eq!(output, "Line 1: first\nLine 2: second");
}

#[test]
fn test_minijinja_missing_variable() {
    let mut env = Environment::new();
    env.add_template("test", "{{ missing }}").unwrap();
    let tmpl = env.get_template("test").unwrap();

    let ctx: HashMap<String, Value> = HashMap::new();
    let output = tmpl.render(ctx).unwrap();
    // MiniJinja renders missing variables as empty string by default
    assert_eq!(output, "");
}

#[test]
fn test_special_characters_in_template() {
    let mut env = Environment::new();
    env.add_template("test", "Special: {{ var }} & < > \" '")
        .unwrap();
    let tmpl = env.get_template("test").unwrap();

    let mut ctx = HashMap::new();
    ctx.insert("var".to_string(), Value::from("value"));

    let output = tmpl.render(ctx).unwrap();
    assert_eq!(output, "Special: value & < > \" '");
}

#[test]
fn scripted_filter_applies_compiled_function() {
    let engine = Engine::new();
    let ast = engine.compile("fn double(num) { parse_int(num) * 2 }\n").unwrap();
    let result = run_filter(&ast, &"double".to_string(), "5".to_string()).unwrap();
    assert_eq!(result, "10");

    let err = run_filter(&ast, &"absent".to_string(), "5".to_string()).unwrap_err();
    assert!(err.starts_with("Rhai Call Error: "));
}
