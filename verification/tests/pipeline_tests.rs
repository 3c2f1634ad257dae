use jinja_rs::commands::{capture_value, command_plan, outcome_value, spawn_failure_value, CmdOutcome};
use jinja_rs::config::{ArgumentSpec, Cli, EnvPair, RootConfig, VarSpec};
use jinja_rs::context::{build_context, ResolvedContext};
use jinja_rs::render::{compile_filters, render_output, render_with_context};
use jinja_rs::script::{all_function_sources, function_source};
use jinja_rs::shell::{resolve, shell_program, ShellChoice};

fn blank_spec() -> VarSpec {
    VarSpec {
        name: None,
        function: None,
        arguments: Vec::new(),
        script: String::new(),
        cmd: None,
        cmds: None,
        shell: None,
        cwd: None,
        env: None,
    }
}

#[test]
fn shell_precedence_per_variable_wins() {
    let choice = resolve(Some("A"), Some("B"));
    assert!(matches!(choice, ShellChoice::External(ref name) if name == "A"));
}

#[test]
fn shell_precedence_global_default_next() {
    let choice = resolve(None, Some("B"));
    assert!(matches!(choice, ShellChoice::External(ref name) if name == "B"));
}

#[test]
fn shell_precedence_hard_default_last() {
    let choice = resolve(None, None);
    assert!(matches!(choice, ShellChoice::Bundled));
    assert_eq!(shell_program(&choice, "/cache/fish_runtime"), "/cache/fish_runtime");
}

#[test]
fn shell_named_fish_selects_bundled() {
    let choice = resolve(Some("fish"), Some("bash"));
    assert!(matches!(choice, ShellChoice::Bundled));
}

#[test]
fn capture_trims_surrounding_whitespace() {
    assert_eq!(capture_value(&b"  spaces  \n".to_vec()), "spaces");
}

#[test]
fn capture_keeps_inner_newlines() {
    assert_eq!(capture_value(&b"line1\nline2\nline3".to_vec()), "line1\nline2\nline3");
}

#[test]
fn capture_of_empty_output_is_empty() {
    assert_eq!(capture_value(&b"".to_vec()), "");
}

#[test]
fn capture_replaces_invalid_utf8() {
    assert_eq!(capture_value(&vec![0xff]), "\u{FFFD}");
    assert_eq!(capture_value(&b"ok".to_vec()), "ok");
}

#[test]
fn spawn_failure_gets_error_marker() {
    assert_eq!(spawn_failure_value("boom"), "ERROR: boom");
    let failed = CmdOutcome::SpawnFailed("No such file or directory".to_string());
    assert_eq!(outcome_value(&failed), "ERROR: No such file or directory");
}

#[test]
fn plan_carries_env_overlay_and_cwd() {
    let mut spec = blank_spec();
    spec.name = Some("test".to_string());
    spec.cmd = Some("echo $FOO".to_string());
    spec.cwd = Some("/tmp".to_string());
    spec.env = Some(vec![EnvPair { name: "FOO".to_string(), value: "bar".to_string() }]);
    let root = RootConfig { default_shell: None, vars: vec![spec] };
    let plan = command_plan(&root);
    assert_eq!(plan.len(), 1);
    assert_eq!(plan[0].command, "echo $FOO");
    assert!(matches!(plan[0].shell, ShellChoice::Bundled));
    assert_eq!(plan[0].cwd.as_deref(), Some("/tmp"));
    assert_eq!(plan[0].env.len(), 1);
    assert_eq!(plan[0].env[0].name, "FOO");
    assert_eq!(plan[0].env[0].value, "bar");
}

#[test]
fn plan_resolves_shell_per_spec() {
    let mut first = blank_spec();
    first.name = Some("a".to_string());
    first.cmd = Some("echo a".to_string());
    first.shell = Some("sh".to_string());
    let mut second = blank_spec();
    second.name = Some("b".to_string());
    second.cmds = Some(vec!["echo b1".to_string(), "echo b2".to_string()]);
    let root = RootConfig { default_shell: Some("bash".to_string()), vars: vec![first, second] };
    let plan = command_plan(&root);
    assert_eq!(plan.len(), 3);
    assert!(matches!(plan[0].shell, ShellChoice::External(ref n) if n == "sh"));
    assert!(matches!(plan[1].shell, ShellChoice::External(ref n) if n == "bash"));
    assert_eq!(plan[1].command, "echo b1");
    assert_eq!(plan[2].command, "echo b2");
}

#[test]
fn multi_command_outputs_join_with_newlines() {
    let mut spec = blank_spec();
    spec.name = Some("lines".to_string());
    spec.cmds = Some(vec![
        "echo 'first'".to_string(),
        "echo 'second'".to_string(),
        "echo 'third'".to_string(),
    ]);
    let root = RootConfig { default_shell: None, vars: vec![spec] };
    let outcomes = vec![
        CmdOutcome::Captured(b"first\n".to_vec()),
        CmdOutcome::Captured(b"second\n".to_vec()),
        CmdOutcome::Captured(b"third\n".to_vec()),
    ];
    let ctx = build_context(&root, &outcomes).unwrap();
    assert_eq!(ctx.get("lines").unwrap().as_str(), "first\nsecond\nthird");
}

#[test]
fn one_entry_per_named_spec() {
    let mut script_var = blank_spec();
    script_var.name = Some("calc".to_string());
    script_var.script = "2 + 2".to_string();
    let mut cmd_var = blank_spec();
    cmd_var.name = Some("host".to_string());
    cmd_var.cmd = Some("hostname".to_string());
    let mut cmds_var = blank_spec();
    cmds_var.name = Some("info".to_string());
    cmds_var.cmds = Some(vec!["uname -s".to_string(), "uname -m".to_string()]);
    let root = RootConfig { default_shell: None, vars: vec![script_var, cmd_var, cmds_var] };
    let outcomes = vec![
        CmdOutcome::Captured(b"box\n".to_vec()),
        CmdOutcome::Captured(b"Linux\n".to_vec()),
        CmdOutcome::Captured(b"x86_64\n".to_vec()),
    ];
    let ctx = build_context(&root, &outcomes).unwrap();
    assert_eq!(ctx.entries().len(), 3);
    assert_eq!(ctx.get("calc").unwrap().as_str(), "4");
    assert_eq!(ctx.get("host").unwrap().as_str(), "box");
    assert_eq!(ctx.get("info").unwrap().as_str(), "Linux\nx86_64");
}

#[test]
fn failed_command_does_not_abort_resolution() {
    let mut bad = blank_spec();
    bad.name = Some("bad".to_string());
    bad.cmd = Some("nonexistent_command_xyz".to_string());
    let mut good = blank_spec();
    good.name = Some("good".to_string());
    good.cmd = Some("echo ok".to_string());
    let root = RootConfig { default_shell: None, vars: vec![bad, good] };
    let outcomes = vec![
        CmdOutcome::SpawnFailed("No such file or directory (os error 2)".to_string()),
        CmdOutcome::Captured(b"ok\n".to_vec()),
    ];
    let ctx = build_context(&root, &outcomes).unwrap();
    assert!(ctx.get("bad").unwrap().starts_with("ERROR:"));
    assert_eq!(ctx.get("good").unwrap().as_str(), "ok");
}

#[test]
fn broken_script_aborts_resolution() {
    let mut spec = blank_spec();
    spec.name = Some("broken".to_string());
    spec.script = "this is not valid rhai syntax +++".to_string();
    let root = RootConfig { default_shell: None, vars: vec![spec] };
    let outcomes: Vec<CmdOutcome> = Vec::new();
    let result = build_context(&root, &outcomes);
    assert!(result.is_err());
    assert!(result.unwrap_err().starts_with("Rhai Script Error: "));
}

#[test]
fn blank_script_produces_no_entry() {
    let mut spec = blank_spec();
    spec.name = Some("empty".to_string());
    spec.script = "   ".to_string();
    let root = RootConfig { default_shell: None, vars: vec![spec] };
    let outcomes: Vec<CmdOutcome> = Vec::new();
    let ctx = build_context(&root, &outcomes).unwrap();
    assert!(ctx.get("empty").is_none());
    assert_eq!(ctx.entries().len(), 0);
}

#[test]
fn overlapping_branches_let_last_writer_win() {
    let mut spec = blank_spec();
    spec.name = Some("both".to_string());
    spec.script = "\"from script\"".to_string();
    spec.cmd = Some("echo from command".to_string());
    let root = RootConfig { default_shell: None, vars: vec![spec] };
    let outcomes = vec![CmdOutcome::Captured(b"from command\n".to_vec())];
    let ctx = build_context(&root, &outcomes).unwrap();
    assert_eq!(ctx.get("both").unwrap().as_str(), "from command");
}

#[test]
fn duplicate_names_let_last_writer_win() {
    let mut first = blank_spec();
    first.name = Some("who".to_string());
    first.cmd = Some("echo one".to_string());
    let mut second = blank_spec();
    second.name = Some("who".to_string());
    second.cmd = Some("echo two".to_string());
    let root = RootConfig { default_shell: None, vars: vec![first, second] };
    let outcomes = vec![
        CmdOutcome::Captured(b"one".to_vec()),
        CmdOutcome::Captured(b"two".to_vec()),
    ];
    let ctx = build_context(&root, &outcomes).unwrap();
    assert_eq!(ctx.get("who").unwrap().as_str(), "two");
}

#[test]
fn rendering_uses_last_binding_of_duplicate_name() {
    let mut ctx = ResolvedContext::new();
    ctx.insert("who".to_string(), "one".to_string());
    ctx.insert("who".to_string(), "two".to_string());
    let output = render_with_context("{{ who }}", &ctx).unwrap();
    assert_eq!(output, "two");
}

#[test]
fn context_insert_overwrites_for_get() {
    let mut ctx = ResolvedContext::new();
    ctx.insert("key".to_string(), "old".to_string());
    ctx.insert("key".to_string(), "new".to_string());
    assert_eq!(ctx.get("key").unwrap().as_str(), "new");
    assert!(ctx.get("other").is_none());
}

#[test]
fn function_source_is_assembled_exactly() {
    let args = vec![ArgumentSpec { name: "num".to_string() }];
    let source = function_source("double", &args, "parse_int(num) * 2");
    assert_eq!(source, "fn double(num) { parse_int(num) * 2 }\n");
}

#[test]
fn function_sources_follow_declaration_order() {
    let mut filter_a = blank_spec();
    filter_a.function = Some("add".to_string());
    filter_a.arguments = vec![
        ArgumentSpec { name: "a".to_string() },
        ArgumentSpec { name: "b".to_string() },
    ];
    filter_a.script = "a + b".to_string();
    let mut plain = blank_spec();
    plain.name = Some("x".to_string());
    plain.script = "1".to_string();
    let mut filter_b = blank_spec();
    filter_b.function = Some("shout".to_string());
    filter_b.arguments = vec![ArgumentSpec { name: "text".to_string() }];
    filter_b.script = "text.to_upper()".to_string();
    let specs = vec![filter_a, plain, filter_b];
    let defs = all_function_sources(&specs);
    assert_eq!(defs, "fn add(a, b) { a + b }\nfn shout(text) { text.to_upper() }\n");
}

#[test]
fn filter_round_trip_renders_shouted_value() {
    let mut who = blank_spec();
    who.name = Some("who".to_string());
    who.cmd = Some("echo world".to_string());
    let mut shout = blank_spec();
    shout.function = Some("shout".to_string());
    shout.arguments = vec![ArgumentSpec { name: "text".to_string() }];
    shout.script = "text.to_upper() + \"!\"".to_string();
    let root = RootConfig { default_shell: None, vars: vec![who, shout] };
    let program = compile_filters(&root).unwrap();
    let outcomes = vec![CmdOutcome::Captured(b"world\n".to_vec())];
    let output = render_output(&root, &program, "{{ who | shout }}", &outcomes).unwrap();
    assert_eq!(output, "WORLD!");
}

#[test]
fn undefined_variable_renders_empty() {
    let ctx = ResolvedContext::new();
    let output = render_with_context("{{ missing }}", &ctx).unwrap();
    assert_eq!(output, "");
}

#[test]
fn rendering_mixes_variables_and_filters() {
    let mut greeting = blank_spec();
    greeting.name = Some("greeting".to_string());
    greeting.script = "\"Hello\"".to_string();
    let mut who = blank_spec();
    who.name = Some("who".to_string());
    who.cmd = Some("echo 'World'".to_string());
    let mut shout = blank_spec();
    shout.function = Some("shout".to_string());
    shout.arguments = vec![ArgumentSpec { name: "text".to_string() }];
    shout.script = "text.to_upper() + \"!\"".to_string();
    let root = RootConfig { default_shell: Some("sh".to_string()), vars: vec![greeting, who, shout] };
    let program = compile_filters(&root).unwrap();
    let outcomes = vec![CmdOutcome::Captured(b"World\n".to_vec())];
    let output = render_output(&root, &program, "{{ greeting }} {{ who | shout }}", &outcomes).unwrap();
    assert_eq!(output, "Hello WORLD!");
}

#[test]
fn broken_filter_definition_fails_compilation() {
    let mut spec = blank_spec();
    spec.function = Some("broken".to_string());
    spec.arguments = vec![ArgumentSpec { name: "x".to_string() }];
    spec.script = "this is not valid rhai syntax +++".to_string();
    let root = RootConfig { default_shell: None, vars: vec![spec] };
    assert!(compile_filters(&root).is_err());
}

#[test]
fn template_syntax_error_aborts_rendering() {
    let ctx = ResolvedContext::new();
    assert!(render_with_context("{{ unterminated", &ctx).is_err());
}

#[test]
fn missing_filter_aborts_rendering() {
    let root = RootConfig { default_shell: None, vars: Vec::new() };
    let program = compile_filters(&root).unwrap();
    let outcomes: Vec<CmdOutcome> = Vec::new();
    assert!(render_output(&root, &program, "{{ 'x' | absent }}", &outcomes).is_err());
}

#[test]
fn cli_requires_template_unless_info() {
    let with_path = Cli { template: Some("page.j2".to_string()), info: false };
    assert_eq!(with_path.template_path().unwrap().as_str(), "page.j2");
    let without = Cli { template: None, info: true };
    assert!(without.template_path().is_err());
}
