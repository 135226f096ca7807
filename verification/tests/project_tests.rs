use javetas::project::{contains_char, join_path, package_path, parse_config, plain_root, Project};

fn project(root: &str, package: Option<&str>, main: &str) -> Project {
    Project {
        root: root.to_string(),
        package: package.map(|p| p.to_string()),
        main: main.to_string(),
    }
}

#[test]
fn joins_paths_as_unix_pathbuf() {
    assert_eq!(join_path("demo", "src", false), "demo/src");
    assert_eq!(join_path("demo/", "src", false), "demo/src");
    assert_eq!(join_path("", "src", false), "src");
    assert_eq!(join_path("/home/u/demo", "out", false), "/home/u/demo/out");
    assert_eq!(join_path("demo", "/abs", false), "/abs");
}

#[test]
fn src_and_out_dirs() {
    let p = project("/home/u/demo", None, "Main");
    assert_eq!(p.src_dir(false), "/home/u/demo/src");
    assert_eq!(p.out_dir(false), "/home/u/demo/out");
}

#[test]
fn class_dir_follows_package() {
    assert_eq!(project("demo", Some("com.ejemplo"), "Main").class_dir(false), "demo/src/com/ejemplo");
    assert_eq!(project("demo", None, "Main").class_dir(false), "demo/src");
    assert_eq!(package_path("a.b.c"), "a/b/c");
    assert_eq!(package_path("abc"), "abc");
}

#[test]
fn full_class_names() {
    let p = project("demo", Some("com.ejemplo"), "Main");
    assert_eq!(p.full_class("Persona"), "com.ejemplo.Persona");
    assert_eq!(p.full_class("com.otro.Persona"), "com.otro.Persona");
    let q = project("demo", None, "Main");
    assert_eq!(q.full_class("Persona"), "Persona");
}

#[test]
fn run_target_defaults_to_main() {
    let p = project("demo", Some("com.ejemplo"), "Main");
    assert_eq!(p.run_target(None), "com.ejemplo.Main");
    assert_eq!(p.run_target(Some("")), "com.ejemplo.Main");
    assert_eq!(p.run_target(Some("Persona")), "com.ejemplo.Persona");
    assert_eq!(p.run_target(Some("com.otro.Persona")), "com.otro.Persona");
    let q = project("demo", None, "App");
    assert_eq!(q.run_target(None), "App");
}

#[test]
fn contains_char_cases() {
    assert!(contains_char("a.b", '.'));
    assert!(!contains_char("ab", '.'));
    assert!(!contains_char("", '.'));
}

#[test]
fn config_defaults() {
    assert_eq!(parse_config("", "x/.javetas"), Ok((None, "Main".to_string())));
    assert_eq!(parse_config("# only a comment\n\n", "x"), Ok((None, "Main".to_string())));
}

#[test]
fn config_values_trimmed() {
    let text = "  package = com.ejemplo  \r\n main=App\r\nother=1\n";
    assert_eq!(parse_config(text, "p"), Ok((Some("com.ejemplo".to_string()), "App".to_string())));
}

#[test]
fn config_empty_package_is_none() {
    assert_eq!(parse_config("package=\nmain=Main\n", "p"), Ok((None, "Main".to_string())));
    assert_eq!(parse_config("package=a\npackage=  \n", "p"), Ok((None, "Main".to_string())));
}

#[test]
fn config_later_lines_win() {
    assert_eq!(
        parse_config("package=a\nmain=X\npackage=b\nmain=Y", "p"),
        Ok((Some("b".to_string()), "Y".to_string()))
    );
}

#[test]
fn config_value_may_hold_equals() {
    assert_eq!(parse_config("main=a=b\n", "p"), Ok((None, "a=b".to_string())));
}

#[test]
fn config_invalid_line() {
    assert_eq!(
        parse_config("package=a\n  not a pair  \n", "demo/.javetas"),
        Err("invalid line in demo/.javetas: not a pair".to_string())
    );
    assert_eq!(
        parse_config("garbage", "c"),
        Err("invalid line in c: garbage".to_string())
    );
}

#[test]
fn joins_paths_as_windows_pathbuf() {
    assert_eq!(join_path("demo", "src", true), "demo\\src");
    assert_eq!(join_path("demo\\", "src", true), "demo\\src");
    assert_eq!(join_path("demo/", "src", true), "demo/src");
    assert_eq!(join_path("", "src", true), "src");
    assert_eq!(join_path("C:", "src", true), "C:src");
    assert_eq!(join_path("C:\\w", "D:x", true), "D:x");
    assert_eq!(join_path("C:\\w", "\\x", true), "C:\\x");
    assert_eq!(join_path("w", "/x", true), "/x");
    assert_eq!(join_path("C:\\w\\demo\\src", "com/ejemplo", true), "C:\\w\\demo\\src\\com/ejemplo");
}

#[test]
fn windows_project_dirs() {
    let p = project("C:\\w\\demo", Some("com.ejemplo"), "Main");
    assert_eq!(p.src_dir(true), "C:\\w\\demo\\src");
    assert_eq!(p.out_dir(true), "C:\\w\\demo\\out");
    assert_eq!(p.class_dir(true), "C:\\w\\demo\\src\\com/ejemplo");
}

#[test]
fn verbatim_roots_made_plain() {
    assert_eq!(plain_root("\\\\?\\C:\\w\\demo"), "C:\\w\\demo");
    assert_eq!(plain_root("\\\\?\\C:"), "C:");
    assert_eq!(plain_root("\\\\?\\UNC\\srv\\share\\demo"), "\\\\srv\\share\\demo");
    assert_eq!(plain_root("\\\\?\\C:x"), "\\\\?\\C:x");
    assert_eq!(plain_root("\\\\?\\Volume{1}\\x"), "\\\\?\\Volume{1}\\x");
    assert_eq!(plain_root("C:\\w"), "C:\\w");
    assert_eq!(plain_root("/home/u"), "/home/u");
}

#[test]
fn network_root_joins() {
    let p = project("\\\\srv\\share\\demo", None, "Main");
    assert_eq!(p.src_dir(true), "\\\\srv\\share\\demo\\src");
}
