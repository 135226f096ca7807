//! The decisions behind `new` and `add`: which names are accepted, and which
//! files, with which contents, a new project or class consists of.
//!
//! The caller asks for missing names, checks the disk and writes the files.

use vstd::prelude::*;
use crate::text::{
    concat2, concat3, index_of_char, lemma_sep_index_bounds, opt_str, split_on,
};
use crate::project::{
    Project, class_dir_modelled, class_dir_spec, contains_char, has_drive, is_sep, join_modelled,
    join_path, join_spec, package_path, package_path_spec,
};
use crate::templates::{
    opt_chars, GITIGNORE, config_spec, makefile_spec, readme_spec, main_java_spec, class_java_spec,
    interface_java_spec, gitignore, config, makefile, readme, main_java, class_java, interface_java,
};

verus! {

/// A character that may start a Java identifier (ASCII letters, `_`, `$`).
pub open spec fn is_ident_start(c: char) -> bool {
    ('a' <= c && c <= 'z') || ('A' <= c && c <= 'Z') || c == '_' || c == '$'
}

/// A character that may continue a Java identifier.
pub open spec fn is_ident_char(c: char) -> bool {
    is_ident_start(c) || ('0' <= c && c <= '9')
}

/// A (plain ASCII) Java identifier: a start character, then identifier characters.
pub open spec fn valid_identifier_spec(s: Seq<char>) -> bool {
    &&& s.len() > 0
    &&& is_ident_start(s[0])
    &&& forall|i: int| 1 <= i < s.len() ==> is_ident_char(#[trigger] s[i])
}

/// Every piece is an identifier.
pub open spec fn all_identifiers(parts: Seq<Seq<char>>) -> bool {
    forall|k: int| 0 <= k < parts.len() ==> valid_identifier_spec(#[trigger] parts[k])
}

/// A package name: not empty, and each of its dot-separated parts an identifier.
pub open spec fn valid_package_spec(p: Seq<char>) -> bool {
    p.len() > 0 && all_identifiers(split_on(p, '.'))
}

pub open spec fn name_required_msg() -> Seq<char> {
    "a project name is required"@
}

pub open spec fn bad_project_name_msg(name: Seq<char>) -> Seq<char> {
    "`"@ + name + "` is not a valid project name"@
}

pub open spec fn bad_package_msg(p: Seq<char>) -> Seq<char> {
    "`"@ + p + "` is not a valid package name"@
}

pub open spec fn class_required_msg() -> Seq<char> {
    "a class name is required"@
}

pub open spec fn bad_class_msg(c: Seq<char>) -> Seq<char> {
    "`"@ + c + "` is not a valid class name"@
}

/// The error for a project name, if it has one: it must be given, and hold no
/// `/`, `\` or space.
pub open spec fn project_name_error(name: Seq<char>) -> Option<Seq<char>> {
    if name.len() == 0 {
        Some(name_required_msg())
    } else if name.contains('/') || name.contains('\\') || name.contains(' ') {
        Some(bad_project_name_msg(name))
    } else {
        None
    }
}

/// A package option: given and not empty, or none.
pub open spec fn given_package(package: Option<Seq<char>>) -> Option<Seq<char>> {
    match package {
        Some(p) => if p.len() > 0 {
            Some(p)
        } else {
            None
        },
        None => None,
    }
}

/// The class that a new project runs: `Main`, in the project's package.
pub open spec fn main_class_spec(package: Option<Seq<char>>) -> Seq<char> {
    match package {
        Some(p) => p + ".Main"@,
        None => "Main"@,
    }
}

/// A file to write: its path and its contents.
pub struct ProjectFile {
    pub path: String,
    pub content: String,
}

/// What `new` creates.
pub struct NewProject {
    /// The project directory.
    pub root: String,
    /// The directory that holds `Main.java`.
    pub class_dir: String,
    /// The class that the Makefile runs.
    pub main_class: String,
    /// In order: `.gitignore`, `.javetas`, `Makefile`, `README.md`, `Main.java`.
    pub files: Vec<ProjectFile>,
}

/// What `add` creates.
pub struct NewClass {
    /// The directory of the new source file.
    pub dir: String,
    /// The new source file.
    pub file: String,
    /// Its contents.
    pub content: String,
    /// The name starts with a lower-case letter, which Java style avoids.
    pub lowercase_warning: bool,
}

/// The contents of `new` for a name and a package that passed the checks.
pub open spec fn new_project_ok(
    r: NewProject,
    name: Seq<char>,
    package: Option<Seq<char>>,
    windows: bool,
) -> bool {
    let class_dir = class_dir_spec(join_spec(name, "src"@, windows), package, windows);
    let main_class = main_class_spec(package);
    &&& r.root@ == name
    &&& r.class_dir@ == class_dir
    &&& r.main_class@ == main_class
    &&& r.files@.len() == 5
    &&& r.files@[0].path@ == join_spec(name, ".gitignore"@, windows)
    &&& r.files@[0].content@ == GITIGNORE@
    &&& r.files@[1].path@ == join_spec(name, ".javetas"@, windows)
    &&& r.files@[1].content@ == config_spec(package)
    &&& r.files@[2].path@ == join_spec(name, "Makefile"@, windows)
    &&& r.files@[2].content@ == makefile_spec(main_class)
    &&& r.files@[3].path@ == join_spec(name, "README.md"@, windows)
    &&& r.files@[3].content@ == readme_spec(name, main_class)
    &&& r.files@[4].path@ == join_spec(class_dir, "Main.java"@, windows)
    &&& r.files@[4].content@ == main_java_spec(package)
}

/// The contents of `add` for a class name and package that passed the checks.
pub open spec fn new_class_ok(
    r: NewClass,
    project: Project,
    class: Seq<char>,
    package: Option<Seq<char>>,
    interface: bool,
    windows: bool,
) -> bool {
    let pkg = match package {
        Some(p) => Some(p),
        None => opt_str(project.package),
    };
    let src = join_spec(project.root@, "src"@, windows);
    let dir = class_dir_spec(src, pkg, windows);
    let dir_modelled = join_modelled(project.root@, "src"@, windows) && class_dir_modelled(
        src,
        pkg,
        windows,
    );
    &&& dir_modelled ==> r.dir@ == dir
    &&& dir_modelled && join_modelled(dir, class + ".java"@, windows) ==> r.file@ == join_spec(
        dir,
        class + ".java"@,
        windows,
    )
    &&& r.content@ == if interface {
        interface_java_spec(pkg, class)
    } else {
        class_java_spec(pkg, class)
    }
    &&& r.lowercase_warning == ('a' <= class[0] && class[0] <= 'z')
}

/// A join onto a base that does not start with a separator, of a part that
/// does not either, is one that `join_spec` states, and its result starts
/// like the base when the part has no drive.
pub proof fn lemma_plain_join(base: Seq<char>, part: Seq<char>, windows: bool)
    requires
        base.len() > 0,
        !is_sep(base[0], true),
        part.len() == 0 || !is_sep(part[0], true),
        !has_drive(part),
    ensures
        join_modelled(base, part, windows),
        join_spec(base, part, windows).len() > 0,
        join_spec(base, part, windows)[0] == base[0],
{
}

/// The first character of a literal path piece.
proof fn lemma_plain_pieces()
    ensures
        !is_sep("src"@[0], true) && !has_drive("src"@),
        !is_sep(".gitignore"@[0], true) && !has_drive(".gitignore"@),
        !is_sep(".javetas"@[0], true) && !has_drive(".javetas"@),
        !is_sep("Makefile"@[0], true) && !has_drive("Makefile"@),
        !is_sep("README.md"@[0], true) && !has_drive("README.md"@),
        !is_sep("Main.java"@[0], true) && !has_drive("Main.java"@),
{
    reveal_strlit("src");
    reveal_strlit(".gitignore");
    reveal_strlit(".javetas");
    reveal_strlit("Makefile");
    reveal_strlit("README.md");
    reveal_strlit("Main.java");
}

pub proof fn lemma_all_identifiers_cons(a: Seq<char>, rest: Seq<Seq<char>>)
    ensures
        all_identifiers(seq![a] + rest) == (valid_identifier_spec(a) && all_identifiers(rest)),
{
    let s = seq![a] + rest;
    assert(s[0] == a);
    if all_identifiers(s) {
        assert forall|k: int| 0 <= k < rest.len() implies valid_identifier_spec(#[trigger] rest[k]) by {
            assert(s[k + 1] == rest[k]);
        }
    }
    if valid_identifier_spec(a) && all_identifiers(rest) {
        assert forall|k: int| 0 <= k < s.len() implies valid_identifier_spec(#[trigger] s[k]) by {
            if k > 0 {
                assert(s[k] == rest[k - 1]);
            }
        }
    }
}

/// Whether `s` is a Java identifier.
pub fn valid_identifier(s: &str) -> (r: bool)
    ensures
        r == valid_identifier_spec(s@),
{
    let n = s.unicode_len();
    if n == 0 {
        return false;
    }
    let c = s.get_char(0);
    if !(('a' <= c && c <= 'z') || ('A' <= c && c <= 'Z') || c == '_' || c == '$') {
        return false;
    }
    let mut i: usize = 1;
    while i < n
        invariant
            n == s@.len(),
            1 <= i <= n,
            forall|k: int| 1 <= k < i ==> is_ident_char(#[trigger] s@[k]),
        decreases n - i,
    {
        let d = s.get_char(i);
        if !(('a' <= d && d <= 'z') || ('A' <= d && d <= 'Z') || d == '_' || d == '$' || ('0' <= d
            && d <= '9')) {
            return false;
        }
        i = i + 1;
    }
    true
}

/// Whether `p` is a package name.
pub fn valid_package(p: &str) -> (r: bool)
    ensures
        r == valid_package_spec(p@),
{
    let n = p.unicode_len();
    if n == 0 {
        return false;
    }
    let mut start: usize = 0;
    assert(p@.skip(0) =~= p@);
    loop
        invariant
            n == p@.len(),
            start <= n,
            all_identifiers(split_on(p@, '.')) == all_identifiers(split_on(p@.skip(start as int), '.')),
        decreases n - start,
    {
        let end = index_of_char(p, '.', start);
        let ghost rest = p@.skip(start as int);
        proof {
            lemma_sep_index_bounds(rest, '.');
        }
        let part = p.substring_char(start, end);
        proof {
            assert(part@ =~= rest.take(end - start));
            if end < n {
                assert(rest.skip(end - start + 1) =~= p@.skip(end + 1));
                assert(split_on(rest, '.') == seq![part@] + split_on(p@.skip(end + 1), '.'));
                lemma_all_identifiers_cons(part@, split_on(p@.skip(end + 1), '.'));
            } else {
                assert(rest.take(end - start) =~= rest);
                assert(split_on(rest, '.') == seq![part@]);
                lemma_all_identifiers_cons(part@, Seq::empty());
                assert(seq![part@] + Seq::<Seq<char>>::empty() =~= seq![part@]);
            }
        }
        if !valid_identifier(part) {
            return false;
        }
        if end == n {
            return true;
        }
        start = end + 1;
    }
}

/// Checks a project name: `Err` with the message when it is refused.
pub fn check_project_name(name: &str) -> (r: Result<(), String>)
    ensures
        match r {
            Ok(_) => project_name_error(name@) is None,
            Err(e) => project_name_error(name@) == Some(e@),
        },
{
    if name.unicode_len() == 0 {
        return Err(String::from_str("a project name is required"));
    }
    if contains_char(name, '/') || contains_char(name, '\\') || contains_char(name, ' ') {
        return Err(concat3("`", name, "` is not a valid project name"));
    }
    Ok(())
}

/// The files of a new project `name` with an optional package (an empty one
/// counts as none), or the message that refuses the name or the package.
pub fn plan_new_project(name: &str, package: Option<&str>, windows: bool) -> (r: Result<
    NewProject,
    String,
>)
    ensures
        ({
            let pkg = given_package(opt_chars(package));
            match r {
                Ok(plan) => {
                    &&& project_name_error(name@) is None
                    &&& (pkg matches Some(p) ==> valid_package_spec(p))
                    &&& new_project_ok(plan, name@, pkg, windows)
                },
                Err(e) => match project_name_error(name@) {
                    Some(m) => e@ == m,
                    None => pkg matches Some(p) && !valid_package_spec(p) && e@ == bad_package_msg(p),
                },
            }
        }),
{
    match check_project_name(name) {
        Ok(_) => {},
        Err(e) => return Err(e),
    }
    let pkg: Option<&str> = match package {
        Some(p) => if p.unicode_len() > 0 {
            Some(p)
        } else {
            None
        },
        None => None,
    };
    assert(opt_chars(pkg) == given_package(opt_chars(package)));
    if let Some(p) = pkg {
        if !valid_package(p) {
            return Err(concat3("`", p, "` is not a valid package name"));
        }
    }
    proof {
        if name@[0] == '/' {
            assert(name@.contains('/'));
        }
        if name@[0] == '\\' {
            assert(name@.contains('\\'));
        }
        lemma_plain_pieces();
        lemma_plain_join(name@, "src"@, windows);
        lemma_plain_join(name@, ".gitignore"@, windows);
        lemma_plain_join(name@, ".javetas"@, windows);
        lemma_plain_join(name@, "Makefile"@, windows);
        lemma_plain_join(name@, "README.md"@, windows);
        let src = join_spec(name@, "src"@, windows);
        match opt_chars(pkg) {
            Some(p) => {
                crate::laws::lemma_package_chars(p);
                let pp = package_path_spec(p);
                assert(pp[0] == p[0]);
                if pp.len() >= 2 {
                    assert(pp[1] != ':');
                }
                lemma_plain_join(src, pp, windows);
                lemma_plain_join(join_spec(src, pp, windows), "Main.java"@, windows);
            },
            None => {
                lemma_plain_join(src, "Main.java"@, windows);
            },
        }
    }
    let root = String::from_str(name);
    let src = join_path(name, "src", windows);
    let class_dir = match pkg {
        Some(p) => {
            let pp = package_path(p);
            join_path(src.as_str(), pp.as_str(), windows)
        },
        None => src,
    };
    let main_class = match pkg {
        Some(p) => concat2(p, ".Main"),
        None => String::from_str("Main"),
    };
    let mut files: Vec<ProjectFile> = Vec::new();
    files.push(ProjectFile { path: join_path(name, ".gitignore", windows), content: gitignore() });
    files.push(ProjectFile { path: join_path(name, ".javetas", windows), content: config(pkg) });
    files.push(ProjectFile { path: join_path(name, "Makefile", windows), content: makefile(main_class.as_str()) });
    files.push(ProjectFile { path: join_path(name, "README.md", windows), content: readme(name, main_class.as_str()) });
    files.push(ProjectFile { path: join_path(class_dir.as_str(), "Main.java", windows), content: main_java(pkg) });
    Ok(NewProject { root, class_dir, main_class, files })
}

/// The source file of a new class (or interface) `class` in `project`, in
/// `package` when one is given and not empty, else in the project's package;
/// or the message that refuses the name or the package.
pub fn plan_add_class(
    project: &Project,
    class: &str,
    package: Option<&str>,
    interface: bool,
    windows: bool,
) -> (r: Result<NewClass, String>)
    ensures
        ({
            let pkg = given_package(opt_chars(package));
            match r {
                Ok(plan) => {
                    &&& valid_identifier_spec(class@)
                    &&& (pkg matches Some(p) ==> valid_package_spec(p))
                    &&& new_class_ok(plan, *project, class@, pkg, interface, windows)
                },
                Err(e) => if class@.len() == 0 {
                    e@ == class_required_msg()
                } else if !valid_identifier_spec(class@) {
                    e@ == bad_class_msg(class@)
                } else {
                    pkg matches Some(p) && !valid_package_spec(p) && e@ == bad_package_msg(p)
                },
            }
        }),
{
    if class.unicode_len() == 0 {
        return Err(String::from_str("a class name is required"));
    }
    if !valid_identifier(class) {
        return Err(concat3("`", class, "` is not a valid class name"));
    }
    let given: Option<&str> = match package {
        Some(p) => if p.unicode_len() > 0 {
            Some(p)
        } else {
            None
        },
        None => None,
    };
    assert(opt_chars(given) == given_package(opt_chars(package)));
    if let Some(p) = given {
        if !valid_package(p) {
            return Err(concat3("`", p, "` is not a valid package name"));
        }
    }
    let pkg: Option<&str> = match given {
        Some(p) => Some(p),
        None => match &project.package {
            Some(q) => Some(q.as_str()),
            None => None,
        },
    };
    let src = project.src_dir(windows);
    let dir = match pkg {
        Some(p) => {
            let pp = package_path(p);
            join_path(src.as_str(), pp.as_str(), windows)
        },
        None => src,
    };
    let fname = concat2(class, ".java");
    let file = join_path(dir.as_str(), fname.as_str(), windows);
    let content = if interface {
        interface_java(pkg, class)
    } else {
        class_java(pkg, class)
    };
    let c = class.get_char(0);
    Ok(NewClass { dir, file, content, lowercase_warning: 'a' <= c && c <= 'z' })
}

} // verus!
