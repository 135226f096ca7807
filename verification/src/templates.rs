//! The files that a new project or a new class starts from, and the help text.
//!
//! Each template is the concatenation of fixed pieces (the constants below)
//! and the names it is given; the spec functions state that composition.

use vstd::prelude::*;
use crate::text::{concat2, concat3};

verus! {

/// Opening comment lines of `Main.java`.
pub const MAIN_HEAD: &'static str = r#"// Comments start with // and are ignored by the compiler.
// They exist for you and for anyone else reading the code.

"#;

/// Stands where the `package` line would, in a project without a package.
pub const NO_PACKAGE_LINE: &'static str = r#"// This project has no package: classes live directly inside src/.

"#;

/// The `Main` class, after the package line.
pub const MAIN_BODY: &'static str = r#"/**
 * Main.java
 *
 * This is the entry point of the program: it contains the `main` method,
 * which is the first thing Java runs.
 *
 *   public  : anyone can call it
 *   static  : it belongs to the class, no object needed
 *   void    : it returns nothing
 *   String[] args : command-line arguments
 */
public class Main {
    public static void main(String[] args) {
        System.out.println("Hello, World!");

        // Try it: add your own lines below, then run:
        //   make run          (or `javetas run`)
    }
}
"#;

/// The Makefile up to the class that `make run` starts.
pub const MAKEFILE_HEAD: &'static str = r#"# Shortcuts for compiling and running this project.
# Run `make`, `make run` or `make clean`.

JAVAC = javac
JAVA  = java
OUT   = out
SRC   = $(shell find src -name '*.java')

.PHONY: all build run clean

all: build

build: $(SRC)
	mkdir -p $(OUT)
	$(JAVAC) -d $(OUT) $(SRC)

run: build
	$(JAVA) -cp $(OUT) "#;

/// The Makefile after the class that `make run` starts.
pub const MAKEFILE_TAIL: &'static str = r#"

clean:
	rm -rf $(OUT)
"#;

/// The `.javetas` file up to the package value.
pub const CONFIG_HEAD: &'static str = r#"# javetas project configuration.
# package : Java package of the sources (empty = none)
# main    : class run by `javetas run` and `make run`
package="#;

/// The `.javetas` file after the package value.
pub const CONFIG_TAIL: &'static str = r#"
main=Main
"#;

/// The `.gitignore` of a new project.
pub const GITIGNORE: &'static str = r#"# Compiled classes
out/
*.class

# IDE files
.idea/
.vscode/
*.iml
"#;

/// Where the tool's sources and releases live.
pub const REPO_URL: &'static str = r#"https://github.com/YuriRiegaAlva/javetas"#;

/// The README between the title and the link to the tool.
pub const README_INTRO: &'static str = r#"

A Java learning project created with [javetas]("#;

/// The README between the link to the tool and the layout tree.
pub const README_BEFORE_LAYOUT: &'static str = r#").

## Layout

```
"#;

/// The README from the layout tree to the class that `make run` starts.
pub const README_LAYOUT: &'static str = r#"/
├── Makefile      # build / run / clean shortcuts
├── .javetas      # javetas config (package, main class)
├── .gitignore    # files git should ignore
└── src/          # your .java source files
```

## Requirements

- JDK 25 or newer. Check with `java -version` and `javac -version`.

## Compile and run

With the Makefile (Linux/macOS):

```sh
make          # compile
make run      # compile and run Main
make clean    # delete compiled classes
```

Or with javetas, from anywhere inside this project:

```sh
javetas build
javetas run
javetas run SomeOtherClass   # run a different class
```

## How it works (the learning part)

1. `make build` runs `javac -d out <all .java files under src/>`.
   `javac` compiles your source into `.class` bytecode inside `out/`.
2. `make run` runs `java -cp out "#;

/// The README after the class that `make run` starts.
pub const README_END: &'static str = r#"`.
   `java` starts the JVM and runs the `main` method of that class.
3. `-cp out` is the *classpath*: it tells Java where to look for
   compiled classes.

Try adding a second class and using it from Main:

```sh
javetas add Persona
```

Then edit `src/**/Main.java` to create a `Persona` and call its methods.
"#;

/// The help text after its first line's version.
pub const HELP_BODY: &'static str = r#"
Create and manage simple Java projects for learning.

Usage:
  javetas new <name> [--package <pkg>]   Create a new project
  javetas add <Name> [--package <pkg>] [--interface]
                                     Add a class (or an interface with --interface)
  javetas build                          Compile all sources into out/
  javetas run [ClassName]                Compile and run (default: Main)
  javetas update [--yes]                 Self-update to the latest release
  javetas help                           Show this help
  javetas version                        Show the version

Options:
  -p, --package <pkg>   Package for a new project or class (e.g. com.ejemplo)
  -i, --interface       With `add`: create an interface instead of a class
  -y, --yes             Skip the update confirmation prompt
  -h, --help            Show this help
  -v, --version         Show the version

Examples:
  javetas new demo
  javetas new demo --package com.ejemplo
  cd demo
  javetas add Persona
  javetas add Persona --package com.otro
  javetas add Contrato --interface
  javetas run"#;

/// The characters of an optional string slice.
pub open spec fn opt_chars(o: Option<&str>) -> Option<Seq<char>> {
    match o {
        Some(p) => Some(p@),
        None => None,
    }
}

/// The line that opens a Java source: its package, or a note that there is none.
pub open spec fn package_line_spec(package: Option<Seq<char>>) -> Seq<char> {
    match package {
        Some(p) => "package "@ + p + ";\n\n"@,
        None => NO_PACKAGE_LINE@,
    }
}

pub open spec fn main_java_spec(package: Option<Seq<char>>) -> Seq<char> {
    MAIN_HEAD@ + package_line_spec(package) + MAIN_BODY@
}

pub open spec fn class_java_spec(package: Option<Seq<char>>, name: Seq<char>) -> Seq<char> {
    package_line_spec(package) + "/**\n * "@ + name
        + ".java\n *\n * A class is a blueprint for objects.\n *\n * - Fields store state (what the object knows).\n * - Methods define behavior (what the object can do).\n *\n * Add yours below, then use "@
        + name + " from Main:\n *   "@ + name + " x = new "@ + name + "();\n */\npublic class "@
        + name + " {\n}\n"@
}

pub open spec fn interface_java_spec(package: Option<Seq<char>>, name: Seq<char>) -> Seq<char> {
    package_line_spec(package) + "/**\n * "@ + name
        + ".java\n *\n * An interface is a contract: it lists methods without their bodies.\n *\n * A class promises to provide them with `implements`:\n *   public class Example implements "@
        + name + " { ... }\n */\npublic interface "@ + name + " {\n}\n"@
}

pub open spec fn makefile_spec(main_class: Seq<char>) -> Seq<char> {
    MAKEFILE_HEAD@ + main_class + MAKEFILE_TAIL@
}

/// The `.javetas` file: comments, `package=<package or nothing>`, `main=Main`.
pub open spec fn config_spec(package: Option<Seq<char>>) -> Seq<char> {
    CONFIG_HEAD@ + match package {
        Some(p) => p,
        None => Seq::<char>::empty(),
    } + CONFIG_TAIL@
}

pub open spec fn readme_spec(name: Seq<char>, main_class: Seq<char>) -> Seq<char> {
    "# "@ + name + README_INTRO@ + REPO_URL@ + README_BEFORE_LAYOUT@ + name + README_LAYOUT@
        + main_class + README_END@
}

pub open spec fn help_spec(version: Seq<char>) -> Seq<char> {
    "javetas "@ + version + HELP_BODY@
}

pub fn package_line(package: Option<&str>) -> (r: String)
    ensures
        r@ == package_line_spec(opt_chars(package)),
{
    match package {
        Some(p) => concat3("package ", p, ";\n\n"),
        None => String::from_str(NO_PACKAGE_LINE),
    }
}

/// `Main.java` of a new project.
pub fn main_java(package: Option<&str>) -> (r: String)
    ensures
        r@ == main_java_spec(opt_chars(package)),
{
    let line = package_line(package);
    concat3(MAIN_HEAD, line.as_str(), MAIN_BODY)
}

/// An empty class `name`.
pub fn class_java(package: Option<&str>, name: &str) -> (r: String)
    ensures
        r@ == class_java_spec(opt_chars(package), name@),
{
    let mut r = package_line(package);
    r.append("/**\n * ");
    r.append(name);
    r.append(
        ".java\n *\n * A class is a blueprint for objects.\n *\n * - Fields store state (what the object knows).\n * - Methods define behavior (what the object can do).\n *\n * Add yours below, then use ",
    );
    r.append(name);
    r.append(" from Main:\n *   ");
    r.append(name);
    r.append(" x = new ");
    r.append(name);
    r.append("();\n */\npublic class ");
    r.append(name);
    r.append(" {\n}\n");
    r
}

/// An empty interface `name`.
pub fn interface_java(package: Option<&str>, name: &str) -> (r: String)
    ensures
        r@ == interface_java_spec(opt_chars(package), name@),
{
    let mut r = package_line(package);
    r.append("/**\n * ");
    r.append(name);
    r.append(
        ".java\n *\n * An interface is a contract: it lists methods without their bodies.\n *\n * A class promises to provide them with `implements`:\n *   public class Example implements ",
    );
    r.append(name);
    r.append(" { ... }\n */\npublic interface ");
    r.append(name);
    r.append(" {\n}\n");
    r
}

/// The Makefile of a new project, whose `make run` starts `main_class`.
pub fn makefile(main_class: &str) -> (r: String)
    ensures
        r@ == makefile_spec(main_class@),
{
    concat3(MAKEFILE_HEAD, main_class, MAKEFILE_TAIL)
}

/// The `.javetas` configuration file of a new project.
pub fn config(package: Option<&str>) -> (r: String)
    ensures
        r@ == config_spec(opt_chars(package)),
{
    match package {
        Some(p) => concat3(CONFIG_HEAD, p, CONFIG_TAIL),
        None => {
            assert(CONFIG_HEAD@ + Seq::<char>::empty() =~= CONFIG_HEAD@);
            concat2(CONFIG_HEAD, CONFIG_TAIL)
        },
    }
}

/// The `.gitignore` of a new project.
pub fn gitignore() -> (r: String)
    ensures
        r@ == GITIGNORE@,
{
    String::from_str(GITIGNORE)
}

/// The README of a new project `name` whose main class is `main_class`.
pub fn readme(name: &str, main_class: &str) -> (r: String)
    ensures
        r@ == readme_spec(name@, main_class@),
{
    let mut r = concat2("# ", name);
    r.append(README_INTRO);
    r.append(REPO_URL);
    r.append(README_BEFORE_LAYOUT);
    r.append(name);
    r.append(README_LAYOUT);
    r.append(main_class);
    r.append(README_END);
    r
}

/// The usage text of the tool at `version`.
pub fn help_text(version: &str) -> (r: String)
    ensures
        r@ == help_spec(version@),
{
    concat3("javetas ", version, HELP_BODY)
}

} // verus!
