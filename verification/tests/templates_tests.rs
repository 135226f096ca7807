use javetas::templates::{
    class_java, config, gitignore, help_text, interface_java, main_java, makefile, package_line,
    readme,
};

const REPO_URL: &str = "https://github.com/YuriRiegaAlva/javetas";

fn expected_main_java(package: Option<&str>) -> String {
    let package_line = match package {
        Some(p) => format!("package {p};\n\n"),
        None => {
            String::from("// This project has no package: classes live directly inside src/.\n\n")
        }
    };
    format!(
        r#"// Comments start with // and are ignored by the compiler.
// They exist for you and for anyone else reading the code.

{package_line}/**
 * Main.java
 *
 * This is the entry point of the program: it contains the `main` method,
 * which is the first thing Java runs.
 *
 *   public  : anyone can call it
 *   static  : it belongs to the class, no object needed
 *   void    : it returns nothing
 *   String[] args : command-line arguments
 */
public class Main {{
    public static void main(String[] args) {{
        System.out.println("Hello, World!");

        // Try it: add your own lines below, then run:
        //   make run          (or `javetas run`)
    }}
}}
"#
    )
}

fn expected_class_java(package: Option<&str>, name: &str) -> String {
    let package_line = match package {
        Some(p) => format!("package {p};\n\n"),
        None => {
            String::from("// This project has no package: classes live directly inside src/.\n\n")
        }
    };
    format!(
        r#"{package_line}/**
 * {name}.java
 *
 * A class is a blueprint for objects.
 *
 * - Fields store state (what the object knows).
 * - Methods define behavior (what the object can do).
 *
 * Add yours below, then use {name} from Main:
 *   {name} x = new {name}();
 */
public class {name} {{
}}
"#
    )
}

fn expected_makefile(main_class: &str) -> String {
    format!(
        r#"# Shortcuts for compiling and running this project.
# Run `make`, `make run` or `make clean`.

JAVAC = javac
JAVA  = java
OUT   = out
SRC   = $(shell find src -name '*.java')

.PHONY: all build run clean

all: build

build: $(SRC)
	mkdir -p $(OUT)
	$(JAVAC) -d $(OUT) $(SRC)

run: build
	$(JAVA) -cp $(OUT) {main_class}

clean:
	rm -rf $(OUT)
"#
    )
}

fn expected_config(package: Option<&str>) -> String {
    let package = package.map_or_else(String::new, |p| p.to_string());
    format!(
        r#"# javetas project configuration.
# package : Java package of the sources (empty = none)
# main    : class run by `javetas run` and `make run`
package={package}
main=Main
"#
    )
}

fn expected_gitignore() -> String {
    r#"# Compiled classes
out/
*.class

# IDE files
.idea/
.vscode/
*.iml
"#
    .to_string()
}

fn expected_readme(name: &str, main_class: &str) -> String {
    format!(
        r#"# {name}

A Java learning project created with [javetas]({REPO_URL}).

## Layout

```
{name}/
├── Makefile      # build / run / clean shortcuts
├── .javetas      # javetas config (package, main class)
├── .gitignore    # files git should ignore
└── src/          # your .java source files
```

## Requirements

- JDK 25 or newer. Check with `java -version` and `javac -version`.

## Compile and run

With the Makefile (Linux/macOS):

```sh
make          # compile
make run      # compile and run Main
make clean    # delete compiled classes
```

Or with javetas, from anywhere inside this project:

```sh
javetas build
javetas run
javetas run SomeOtherClass   # run a different class
```

## How it works (the learning part)

1. `make build` runs `javac -d out <all .java files under src/>`.
   `javac` compiles your source into `.class` bytecode inside `out/`.
2. `make run` runs `java -cp out {main_class}`.
   `java` starts the JVM and runs the `main` method of that class.
3. `-cp out` is the *classpath*: it tells Java where to look for
   compiled classes.

Try adding a second class and using it from Main:

```sh
javetas add Persona
```

Then edit `src/**/Main.java` to create a `Persona` and call its methods.
"#
    )
}


#[test]
fn main_java_matches_layout() {
    assert_eq!(main_java(None), expected_main_java(None));
    assert_eq!(main_java(Some("com.ejemplo")), expected_main_java(Some("com.ejemplo")));
    assert!(main_java(Some("com.ejemplo")).contains("\npackage com.ejemplo;\n\n/**\n * Main.java"));
}

#[test]
fn class_java_matches_layout() {
    assert_eq!(class_java(None, "Persona"), expected_class_java(None, "Persona"));
    assert_eq!(class_java(Some("com.otro"), "Persona"), expected_class_java(Some("com.otro"), "Persona"));
    assert!(class_java(None, "Persona").ends_with("public class Persona {\n}\n"));
}

#[test]
fn interface_java_declares_interface() {
    let text = interface_java(Some("com.x"), "Contrato");
    assert!(text.starts_with("package com.x;\n\n/**\n * Contrato.java\n"));
    assert!(text.ends_with("public interface Contrato {\n}\n"));
    assert!(text.contains("implements Contrato { ... }"));
    assert!(interface_java(None, "A").starts_with("// This project has no package"));
}

#[test]
fn makefile_runs_main_class() {
    assert_eq!(makefile("Main"), expected_makefile("Main"));
    assert_eq!(makefile("com.ejemplo.Main"), expected_makefile("com.ejemplo.Main"));
    assert!(makefile("com.ejemplo.Main").contains("\t$(JAVA) -cp $(OUT) com.ejemplo.Main\n"));
}

#[test]
fn config_file_text() {
    assert_eq!(config(None), expected_config(None));
    assert_eq!(config(Some("com.ejemplo")), expected_config(Some("com.ejemplo")));
    assert!(config(Some("a.b")).ends_with("package=a.b\nmain=Main\n"));
}

#[test]
fn gitignore_text() {
    assert_eq!(gitignore(), expected_gitignore());
}

#[test]
fn readme_text() {
    assert_eq!(readme("demo", "Main"), expected_readme("demo", "Main"));
    assert_eq!(readme("demo", "com.ejemplo.Main"), expected_readme("demo", "com.ejemplo.Main"));
}

#[test]
fn package_line_both_ways() {
    assert_eq!(package_line(Some("a.b")), "package a.b;\n\n");
    assert_eq!(
        package_line(None),
        "// This project has no package: classes live directly inside src/.\n\n"
    );
}

#[test]
fn help_text_first_line_and_usage() {
    let h = help_text("1.2.3");
    assert!(h.starts_with("javetas 1.2.3\nCreate and manage simple Java projects for learning.\n"));
    assert!(h.contains("  javetas update [--yes]                 Self-update to the latest release\n"));
    assert!(h.ends_with("  javetas run"));
}
