use javetas::args::{parse, Command};

fn args(v: &[&str]) -> Vec<String> {
    v.iter().map(|s| s.to_string()).collect()
}

fn p(v: &[&str]) -> Result<Command, String> {
    parse(&args(v))
}

fn s(x: &str) -> Option<String> {
    Some(x.to_string())
}

#[test]
fn no_arguments_is_help() {
    assert_eq!(p(&[]), Ok(Command::Help));
}

#[test]
fn help_spellings() {
    for a in ["-h", "--help", "help"] {
        assert_eq!(p(&[a]), Ok(Command::Help));
        assert_eq!(p(&[a, "ignored"]), Ok(Command::Help));
    }
}

#[test]
fn version_spellings() {
    for a in ["-v", "--version", "version"] {
        assert_eq!(p(&[a]), Ok(Command::Version));
    }
}

#[test]
fn new_with_name() {
    assert_eq!(p(&["new", "demo"]), Ok(Command::New { name: s("demo"), package: None }));
    assert_eq!(p(&["new"]), Ok(Command::New { name: None, package: None }));
}

#[test]
fn new_with_package_forms() {
    let want = Ok(Command::New { name: s("demo"), package: s("com.ejemplo") });
    assert_eq!(p(&["new", "demo", "--package", "com.ejemplo"]), want);
    assert_eq!(p(&["new", "demo", "-p", "com.ejemplo"]), want);
    assert_eq!(p(&["new", "--package=com.ejemplo", "demo"]), want);
    assert_eq!(p(&["new", "-p", "com.a", "demo", "--package=com.ejemplo"]), want);
    assert_eq!(
        p(&["new", "--package=", "demo"]),
        Ok(Command::New { name: s("demo"), package: s("") })
    );
}

#[test]
fn new_package_needs_value() {
    assert_eq!(
        p(&["new", "demo", "--package"]),
        Err("`--package` needs a value (e.g. `--package com.ejemplo`)".to_string())
    );
    assert_eq!(
        p(&["new", "-p"]),
        Err("`--package` needs a value (e.g. `--package com.ejemplo`)".to_string())
    );
}

#[test]
fn new_rejects_flags_and_extra_names() {
    assert_eq!(p(&["new", "-x"]), Err("unknown flag: -x".to_string()));
    assert_eq!(p(&["new", "demo", "--interface"]), Err("unknown flag: --interface".to_string()));
    assert_eq!(p(&["new", "a", "b"]), Err("unexpected argument: b".to_string()));
}

#[test]
fn add_forms() {
    assert_eq!(
        p(&["add", "Persona"]),
        Ok(Command::Add { class: s("Persona"), package: None, interface: false })
    );
    assert_eq!(
        p(&["add", "Persona", "--package", "com.otro"]),
        Ok(Command::Add { class: s("Persona"), package: s("com.otro"), interface: false })
    );
    assert_eq!(
        p(&["add", "Contrato", "--interface"]),
        Ok(Command::Add { class: s("Contrato"), package: None, interface: true })
    );
    assert_eq!(
        p(&["add", "-i", "-p", "x.y", "Contrato"]),
        Ok(Command::Add { class: s("Contrato"), package: s("x.y"), interface: true })
    );
    assert_eq!(p(&["add"]), Ok(Command::Add { class: None, package: None, interface: false }));
}

#[test]
fn add_rejects() {
    assert_eq!(p(&["add", "A", "B"]), Err("unexpected argument: B".to_string()));
    assert_eq!(p(&["add", "--force"]), Err("unknown flag: --force".to_string()));
    assert_eq!(
        p(&["add", "A", "--package"]),
        Err("`--package` needs a value (e.g. `--package com.ejemplo`)".to_string())
    );
}

#[test]
fn build_takes_no_arguments() {
    assert_eq!(p(&["build"]), Ok(Command::Build));
    assert_eq!(p(&["build", "x"]), Err("unexpected argument: x".to_string()));
}

#[test]
fn run_forms() {
    assert_eq!(p(&["run"]), Ok(Command::Run { class: None }));
    assert_eq!(p(&["run", "Persona"]), Ok(Command::Run { class: s("Persona") }));
    assert_eq!(p(&["run", "com.otro.Persona"]), Ok(Command::Run { class: s("com.otro.Persona") }));
    assert_eq!(p(&["run", "-x"]), Err("unknown flag: -x".to_string()));
    assert_eq!(p(&["run", "A", "B"]), Err("unexpected argument: B".to_string()));
}

#[test]
fn update_forms() {
    assert_eq!(p(&["update"]), Ok(Command::Update { yes: false }));
    assert_eq!(p(&["update", "--yes"]), Ok(Command::Update { yes: true }));
    assert_eq!(p(&["update", "-y"]), Ok(Command::Update { yes: true }));
    assert_eq!(p(&["update", "--force"]), Err("unknown flag: --force".to_string()));
    assert_eq!(p(&["update", "now"]), Err("unexpected argument: now".to_string()));
}

#[test]
fn unknown_command() {
    assert_eq!(p(&["frobnicate"]), Err("unknown command: frobnicate".to_string()));
    assert_eq!(p(&["Help"]), Err("unknown command: Help".to_string()));
}

#[test]
fn non_ascii_arguments() {
    assert_eq!(p(&["new", "proyecto_ñ"]), Ok(Command::New { name: s("proyecto_ñ"), package: None }));
    assert_eq!(p(&["run", "—x"]), Ok(Command::Run { class: s("—x") }));
}
