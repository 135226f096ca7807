use javetas::style::{bold, dim, green, paint, red, yellow};

#[test]
fn colours_when_enabled() {
    assert_eq!(green("ok:", true), "\x1b[32mok:\x1b[0m");
    assert_eq!(red("error:", true), "\x1b[31merror:\x1b[0m");
    assert_eq!(yellow("warn:", true), "\x1b[33mwarn:\x1b[0m");
    assert_eq!(bold("demo", true), "\x1b[1mdemo\x1b[0m");
    assert_eq!(dim("hint:", true), "\x1b[2mhint:\x1b[0m");
}

#[test]
fn plain_when_disabled() {
    for f in [green, red, yellow, bold, dim] {
        assert_eq!(f("text", false), "text");
    }
    assert_eq!(paint("35", "", false), "");
}

#[test]
fn paint_any_code() {
    assert_eq!(paint("35", "x", true), format!("\x1b[{}m{}\x1b[0m", "35", "x"));
}
