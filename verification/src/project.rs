//! A project on disk, as its `.javetas` file describes it, and the paths and
//! class names derived from it.
//!
//! Paths are held as strings and joined as `PathBuf::join` does on the
//! platform that the caller names (`windows`).

use vstd::prelude::*;
use crate::text::{
    concat2, concat3, has_prefix, index_of_char, lemma_sep_index_bounds, opt_str, sep_index,
    split_on, starts_with, starts_with_char, starts_with_char_exec, str_eq, trim, trim_spec,
};

verus! {

/// A project: its root directory, its Java package (if any) and the class that
/// `run` starts by default.
pub struct Project {
    pub root: String,
    pub package: Option<String>,
    pub main: String,
}

/// A path separator: `/`, and on Windows also `\`.
pub open spec fn is_sep(c: char, windows: bool) -> bool {
    c == '/' || (windows && c == '\\')
}

/// A Windows path that begins with a drive, like `C:`.
pub open spec fn has_drive(s: Seq<char>) -> bool {
    s.len() >= 2 && s[1] == ':' && (('a' <= s[0] && s[0] <= 'z') || ('A' <= s[0] && s[0] <= 'Z'))
}

/// `base` joined with `part` as `PathBuf::join` does.
///
/// On Unix: an absolute `part` replaces `base`; otherwise a `/` goes between
/// them unless `base` is empty or ends with one.
///
/// On Windows: a `part` with a drive replaces `base`; a `part` that starts with
/// a separator keeps only the drive of `base`; otherwise a `\` goes between
/// them unless `base` is empty, ends with a separator or is a drive alone.
/// This is what `PathBuf::join` does on the paths of [`join_modelled`]; the
/// others it parses further (see there).
pub open spec fn join_spec(base: Seq<char>, part: Seq<char>, windows: bool) -> Seq<char> {
    if !windows {
        if starts_with_char(part, '/') {
            part
        } else if base.len() == 0 || base.last() == '/' {
            base + part
        } else {
            base + "/"@ + part
        }
    } else {
        if has_drive(part) {
            part
        } else if part.len() > 0 && is_sep(part[0], true) {
            (if has_drive(base) {
                base.take(2)
            } else {
                Seq::empty()
            }) + part
        } else if base.len() == 0 || is_sep(base.last(), true) || (base.len() == 2 && has_drive(base)) {
            base + part
        } else {
            base + "\\"@ + part
        }
    }
}

/// `s` begins with two separators: on Windows, the start of a network
/// (`\\server\share`), device (`\\.\`) or verbatim (`\\?\`) prefix.
pub open spec fn starts_with_two_seps(s: Seq<char>, windows: bool) -> bool {
    s.len() >= 2 && is_sep(s[0], windows) && is_sep(s[1], windows)
}

/// `s` has a verbatim prefix (`\\?\`), which `PathBuf::join` rebuilds and
/// normalises instead of extending it.
pub open spec fn is_verbatim(s: Seq<char>) -> bool {
    s.len() >= 4 && is_sep(s[0], true) && is_sep(s[1], true) && s[2] == '?' && is_sep(s[3], true)
}

/// The joins that [`join_spec`] states: every join on Unix; on Windows, those
/// where `base` has no verbatim prefix, `part` does not start with two
/// separators, and a `part` that starts with a separator is not joined to a
/// `base` that starts with two (whose network or device prefix it would keep).
pub open spec fn join_modelled(base: Seq<char>, part: Seq<char>, windows: bool) -> bool {
    !windows || (!is_verbatim(base) && !starts_with_two_seps(part, true) && !(starts_with_two_seps(
        base,
        true,
    ) && part.len() > 0 && is_sep(part[0], true)))
}

/// The joins of [`class_dir_spec`] are all ones that [`join_spec`] states.
pub open spec fn class_dir_modelled(src: Seq<char>, package: Option<Seq<char>>, windows: bool) -> bool {
    match package {
        Some(p) => join_modelled(src, package_path_spec(p), windows),
        None => true,
    }
}

/// `root` with a verbatim prefix that has a plain equivalent turned into it:
/// `\\?\UNC\server\...` into `\\server\...` and `\\?\C:\...` (or `\\?\C:`) into
/// `C:\...`; any other path as it is.
pub open spec fn plain_root_spec(root: Seq<char>) -> Seq<char> {
    if has_prefix(root, "\\\\?\\UNC\\"@) {
        "\\\\"@ + root.skip(8)
    } else if has_prefix(root, "\\\\?\\"@) && has_drive(root.skip(4)) && (root.len() == 6 || root[6]
        == '\\') {
        root.skip(4)
    } else {
        root
    }
}

/// The directory of a package below the sources: its dots become `/`.
pub open spec fn package_path_spec(package: Seq<char>) -> Seq<char> {
    package.map_values(|c: char| if c == '.' { '/' } else { c })
}

/// The fully qualified name that `java` is given for the class `name`.
pub open spec fn full_class_spec(package: Option<Seq<char>>, name: Seq<char>) -> Seq<char> {
    match package {
        Some(p) => if name.contains('.') {
            name
        } else {
            p + "."@ + name
        },
        None => name,
    }
}

/// The directory that holds the classes of `package`, below the sources `src`.
pub open spec fn class_dir_spec(src: Seq<char>, package: Option<Seq<char>>, windows: bool) -> Seq<
    char,
> {
    match package {
        Some(p) => join_spec(src, package_path_spec(p), windows),
        None => src,
    }
}

pub open spec fn invalid_line_msg(path: Seq<char>, line: Seq<char>) -> Seq<char> {
    "invalid line in "@ + path + ": "@ + line
}

/// One line of a configuration file applied to the values read so far: blank
/// lines and `#` comments change nothing, `package=` and `main=` set their
/// value (an empty package is none), other keys are ignored, and a line
/// without `=` is refused.
pub open spec fn config_line_step(
    line: Seq<char>,
    path: Seq<char>,
    package: Option<Seq<char>>,
    main: Seq<char>,
) -> Result<(Option<Seq<char>>, Seq<char>), Seq<char>> {
    let t = trim_spec(line);
    if t.len() == 0 || starts_with_char(t, '#') {
        Ok((package, main))
    } else {
        let j = sep_index(t, '=');
        if j >= t.len() {
            Err(invalid_line_msg(path, t))
        } else {
            let key = trim_spec(t.take(j as int));
            let value = trim_spec(t.skip(j + 1 as int));
            if key == "package"@ {
                Ok((if value.len() == 0 { None } else { Some(value) }, main))
            } else if key == "main"@ {
                Ok((package, value))
            } else {
                Ok((package, main))
            }
        }
    }
}

/// The lines applied in order, stopping at the first refused one.
pub open spec fn config_lines_spec(
    lines: Seq<Seq<char>>,
    path: Seq<char>,
    package: Option<Seq<char>>,
    main: Seq<char>,
) -> Result<(Option<Seq<char>>, Seq<char>), Seq<char>>
    decreases lines.len(),
{
    if lines.len() == 0 {
        Ok((package, main))
    } else {
        match config_line_step(lines[0], path, package, main) {
            Ok((p, m)) => config_lines_spec(lines.drop_first(), path, p, m),
            Err(e) => Err(e),
        }
    }
}

/// The package and main class that the configuration text `text` (read from
/// `path`) sets, starting from no package and `Main`.
pub open spec fn parse_config_spec(text: Seq<char>, path: Seq<char>) -> Result<
    (Option<Seq<char>>, Seq<char>),
    Seq<char>,
> {
    config_lines_spec(split_on(text, '\n'), path, None, "Main"@)
}

fn drive_exec(s: &str) -> (r: bool)
    ensures
        r == has_drive(s@),
{
    if s.unicode_len() < 2 {
        return false;
    }
    let c = s.get_char(0);
    s.get_char(1) == ':' && (('a' <= c && c <= 'z') || ('A' <= c && c <= 'Z'))
}

/// `base` joined with the path `part`, on Windows when `windows`, else on Unix.
pub fn join_path(base: &str, part: &str, windows: bool) -> (r: String)
    ensures
        join_modelled(base@, part@, windows) ==> r@ == join_spec(base@, part@, windows),
{
    let n = base.unicode_len();
    if !windows {
        if starts_with_char_exec(part, '/') {
            String::from_str(part)
        } else if n == 0 || base.get_char(n - 1) == '/' {
            concat2(base, part)
        } else {
            concat3(base, "/", part)
        }
    } else if drive_exec(part) {
        String::from_str(part)
    } else if part.unicode_len() > 0 && (part.get_char(0) == '/' || part.get_char(0) == '\\') {
        if drive_exec(base) {
            let d = base.substring_char(0, 2);
            concat2(d, part)
        } else {
            proof {
                assert(Seq::<char>::empty() + part@ =~= part@);
            }
            String::from_str(part)
        }
    } else if n == 0 || base.get_char(n - 1) == '/' || base.get_char(n - 1) == '\\' || (n == 2
        && drive_exec(base)) {
        concat2(base, part)
    } else {
        concat3(base, "\\", part)
    }
}

/// A project root as [`plain_root_spec`] says.
pub fn plain_root(root: &str) -> (r: String)
    ensures
        r@ == plain_root_spec(root@),
{
    let n = root.unicode_len();
    if starts_with(root, "\\\\?\\UNC\\") {
        proof {
            reveal_strlit("\\\\?\\UNC\\");
        }
        concat2("\\\\", root.substring_char(8, n))
    } else if starts_with(root, "\\\\?\\") {
        proof {
            reveal_strlit("\\\\?\\");
        }
        let rest = root.substring_char(4, n);
        if drive_exec(rest) && (n == 6 || root.get_char(6) == '\\') {
            String::from_str(rest)
        } else {
            String::from_str(root)
        }
    } else {
        String::from_str(root)
    }
}

/// The directory of `package` relative to the sources.
pub fn package_path(package: &str) -> (r: String)
    ensures
        r@ == package_path_spec(package@),
{
    let n = package.unicode_len();
    let mut r = String::new();
    let mut i: usize = 0;
    while i < n
        invariant
            n == package@.len(),
            i <= n,
            r@ =~= package_path_spec(package@.take(i as int)),
        decreases n - i,
    {
        let c = package.get_char(i);
        if c == '.' {
            proof {
                reveal_strlit("/");
            }
            r.append("/");
        } else {
            let one = package.substring_char(i, i + 1);
            assert(one@ =~= seq![c]);
            r.append(one);
        }
        assert(package@.take(i + 1 as int) =~= package@.take(i as int).push(c));
        i = i + 1;
    }
    assert(package@.take(n as int) =~= package@);
    r
}

/// Whether `s` contains the character `c`.
pub fn contains_char(s: &str, c: char) -> (r: bool)
    ensures
        r == s@.contains(c),
{
    let j = index_of_char(s, c, 0);
    proof {
        assert(s@.skip(0) =~= s@);
        lemma_sep_index_bounds(s@, c);
    }
    j < s.unicode_len()
}

/// The configuration text of the project at `path`: its package and main class.
pub fn parse_config(text: &str, path: &str) -> (r: Result<(Option<String>, String), String>)
    ensures
        match r {
            Ok((p, m)) => parse_config_spec(text@, path@) == Ok::<_, Seq<char>>((opt_str(p), m@)),
            Err(e) => parse_config_spec(text@, path@) == Err::<(Option<Seq<char>>, Seq<char>), _>(
                e@,
            ),
        },
{
    let n = text.unicode_len();
    let mut package: Option<String> = None;
    let mut main = String::from_str("Main");
    let mut start: usize = 0;
    assert(text@.skip(0) =~= text@);
    loop
        invariant
            n == text@.len(),
            start <= n,
            parse_config_spec(text@, path@) == config_lines_spec(
                split_on(text@.skip(start as int), '\n'),
                path@,
                opt_str(package),
                main@,
            ),
        decreases n - start,
    {
        let end = index_of_char(text, '\n', start);
        let ghost rest = text@.skip(start as int);
        let ghost lines = split_on(rest, '\n');
        let ghost pkg0 = opt_str(package);
        let ghost main0 = main@;
        proof {
            lemma_sep_index_bounds(rest, '\n');
        }
        let line = text.substring_char(start, end);
        proof {
            assert(line@ =~= rest.take(end - start));
            if end < n {
                assert(rest.skip(end - start + 1) =~= text@.skip(end + 1));
            } else {
                assert(rest.take(end - start) =~= rest);
            }
            assert(lines[0] == line@);
            if end < n {
                assert(lines.drop_first() =~= split_on(text@.skip(end + 1), '\n'));
            } else {
                assert(lines.drop_first().len() == 0);
            }
        }
        let t = trim(line);
        let tl = t.unicode_len();
        if tl == 0 || starts_with_char_exec(t, '#') {
        } else {
            let j = index_of_char(t, '=', 0);
            proof {
                assert(t@.skip(0) =~= t@);
            }
            if j == tl {
                let mut e = concat3("invalid line in ", path, ": ");
                e.append(t);
                return Err(e);
            }
            let kpart = t.substring_char(0, j);
            let key = trim(kpart);
            let value = trim(t.substring_char(j + 1, tl));
            proof {
                assert(kpart@ =~= t@.take(j as int));
            }
            if str_eq(key, "package") {
                if value.unicode_len() == 0 {
                    package = None;
                } else {
                    package = Some(String::from_str(value));
                }
            } else if str_eq(key, "main") {
                main = String::from_str(value);
            }
        }
        assert(config_line_step(line@, path@, pkg0, main0) == Ok::<_, Seq<char>>(
            (opt_str(package), main@),
        ));
        if end == n {
            assert(config_lines_spec(lines.drop_first(), path@, opt_str(package), main@)
                == Ok::<_, Seq<char>>((opt_str(package), main@)));
            return Ok((package, main));
        }
        start = end + 1;
    }
}

impl Project {
    /// The directory of the sources.
    pub fn src_dir(&self, windows: bool) -> (r: String)
        ensures
            join_modelled(self.root@, "src"@, windows) ==> r@ == join_spec(self.root@, "src"@, windows),
    {
        join_path(self.root.as_str(), "src", windows)
    }

    /// The directory of the compiled classes.
    pub fn out_dir(&self, windows: bool) -> (r: String)
        ensures
            join_modelled(self.root@, "out"@, windows) ==> r@ == join_spec(self.root@, "out"@, windows),
    {
        join_path(self.root.as_str(), "out", windows)
    }

    /// The directory where the classes of the project's package live.
    pub fn class_dir(&self, windows: bool) -> (r: String)
        ensures
            join_modelled(self.root@, "src"@, windows) && class_dir_modelled(
                join_spec(self.root@, "src"@, windows),
                opt_str(self.package),
                windows,
            ) ==> r@ == class_dir_spec(join_spec(self.root@, "src"@, windows), opt_str(self.package), windows),
    {
        let src = self.src_dir(windows);
        match &self.package {
            Some(p) => {
                let pp = package_path(p.as_str());
                join_path(src.as_str(), pp.as_str(), windows)
            },
            None => src,
        }
    }

    /// Full class name for `java -cp out ...`: the package is put in front of a
    /// name that has no dot.
    pub fn full_class(&self, name: &str) -> (r: String)
        ensures
            r@ == full_class_spec(opt_str(self.package), name@),
    {
        match &self.package {
            Some(p) => if contains_char(name, '.') {
                String::from_str(name)
            } else {
                concat3(p.as_str(), ".", name)
            },
            None => String::from_str(name),
        }
    }

    /// The class that `run` starts: the one named, or the project's main class
    /// when none (or an empty name) is given; fully qualified.
    pub fn run_target(&self, class: Option<&str>) -> (r: String)
        ensures
            r@ == full_class_spec(
                opt_str(self.package),
                match class {
                    Some(c) => if c@.len() > 0 {
                        c@
                    } else {
                        self.main@
                    },
                    None => self.main@,
                },
            ),
    {
        match class {
            Some(c) => if c.unicode_len() > 0 {
                self.full_class(c)
            } else {
                self.full_class(self.main.as_str())
            },
            None => self.full_class(self.main.as_str()),
        }
    }
}

} // verus!
