//! Properties that span several functions of the library.

use vstd::prelude::*;
use crate::args::{
    CommandView, is_interface_flag, is_package_flag, parse_run_spec, parse_spec, parse_target_spec,
};
use crate::text::{
    has_prefix, is_ws, lemma_sep_index_bounds, lemma_sep_index_is, lemma_split_cons,
    lemma_split_none, lemma_trim_fixed, lemma_trim_id, sep_index, split_on, starts_with_char,
    trim_spec,
};
use crate::project::{
    class_dir_modelled, class_dir_spec, config_line_step, config_lines_spec, full_class_spec,
    join_modelled, join_spec, parse_config_spec, Project,
};
use crate::templates::{
    class_java_spec, config_spec, interface_java_spec, makefile_spec, package_line_spec,
};
use crate::update::{check_update_spec, extract_tag_spec, parse_version_spec, version_le};
use crate::commands::{
    given_package, project_name_error, is_ident_char, is_ident_start, lemma_all_identifiers_cons, new_class_ok,
    new_project_ok, valid_identifier_spec, valid_package_spec, NewClass, NewProject,
};

verus! {

/// Every character of a package name is an identifier character or a dot; it
/// starts with an identifier's first character and ends with an identifier
/// character.
pub proof fn lemma_package_chars(p: Seq<char>)
    requires
        valid_package_spec(p),
    ensures
        is_ident_start(p[0]),
        is_ident_char(p.last()),
        forall|i: int| 0 <= i < p.len() ==> is_ident_char(#[trigger] p[i]) || p[i] == '.',
    decreases p.len(),
{
    let j = sep_index(p, '.');
    lemma_sep_index_bounds(p, '.');
    let seg = p.take(j as int);
    if j < p.len() {
        let rest = p.skip(j + 1 as int);
        lemma_all_identifiers_cons(seg, split_on(rest, '.'));
        if rest.len() == 0 {
            // a trailing dot leaves an empty last part, which is no identifier
            lemma_split_none(rest, '.');
            assert(split_on(rest, '.')[0] == rest);
            assert(false);
        }
        lemma_package_chars(rest);
        assert(p.last() == rest.last());
        assert forall|i: int| 0 <= i < p.len() implies is_ident_char(#[trigger] p[i]) || p[i] == '.' by {
            if i < j {
                assert(p[i] == seg[i]);
            } else if i > j {
                assert(p[i] == rest[i - j - 1]);
            }
        }
        assert(p[0] == seg[0]);
    } else {
        assert(seg =~= p);
        assert(split_on(p, '.') == seq![p]);
        assert(split_on(p, '.')[0] == p);
    }
}

/// A single identifier is a package name.
pub proof fn law_identifier_is_package(s: Seq<char>)
    requires
        valid_identifier_spec(s),
    ensures
        valid_package_spec(s),
{
    assert forall|k: int| 0 <= k < s.len() implies s[k] != '.' by {
        if k > 0 {
            assert(is_ident_char(s[k]));
        }
    }
    lemma_split_none(s, '.');
    assert(split_on(s, '.')[0] == s);
}


/// A line of the configuration file that is a comment is skipped.
proof fn lemma_comment_line(l: Seq<char>, path: Seq<char>, pkg: Option<Seq<char>>, main: Seq<char>)
    requires
        l.len() > 0,
        l[0] == '#',
        !is_ws(l.last()),
    ensures
        config_line_step(l, path, pkg, main) == Ok::<_, Seq<char>>((pkg, main)),
{
    lemma_trim_id(l);
}

/// A line `key=value` whose key and value have no white space at their ends.
proof fn lemma_key_line(key: Seq<char>, value: Seq<char>)
    requires
        key.len() > 0,
        !is_ws(key[0]),
        !is_ws(key.last()),
        key[0] != '#',
        forall|k: int| 0 <= k < key.len() ==> key[k] != '=',
        value.len() == 0 || (!is_ws(value[0]) && !is_ws(value.last())),
    ensures
        ({
            let l = key + "="@ + value;
            &&& trim_spec(l) == l
            &&& sep_index(l, '=') == key.len()
            &&& l.take(key.len() as int) == key
            &&& l.skip(key.len() + 1 as int) == value
            &&& trim_spec(key) == key
            &&& trim_spec(value) == value
        }),
{
    reveal_strlit("=");
    let l = key + "="@ + value;
    assert(l[key.len() as int] == '=');
    if value.len() > 0 {
        assert(l.last() == value.last());
    } else {
        assert(l.last() == '=');
    }
    lemma_trim_id(l);
    lemma_trim_id(key);
    lemma_trim_id(value);
    assert forall|k: int| 0 <= k < key.len() implies l[k] != '=' by {
        assert(l[k] == key[k]);
    }
    lemma_sep_index_is(l, '=', key.len() as int);
    assert(l.take(key.len() as int) =~= key);
    assert(l.skip(key.len() + 1 as int) =~= value);
}

spec fn config_comment_1() -> Seq<char> {
    "# javetas project configuration."@
}

spec fn config_comment_2() -> Seq<char> {
    "# package : Java package of the sources (empty = none)"@
}

spec fn config_comment_3() -> Seq<char> {
    "# main    : class run by `javetas run` and `make run`"@
}

spec fn package_value(package: Option<Seq<char>>) -> Seq<char> {
    match package {
        Some(p) => p,
        None => Seq::<char>::empty(),
    }
}

spec fn config_package_line(package: Option<Seq<char>>) -> Seq<char> {
    "package"@ + "="@ + package_value(package)
}

spec fn config_main_line() -> Seq<char> {
    "main"@ + "="@ + "Main"@
}

/// A value that the configuration file can hold as it is: no line break, and
/// no white space at either end.
pub open spec fn config_value_ok(p: Seq<char>) -> bool {
    &&& forall|k: int| 0 <= k < p.len() ==> p[k] != '\n'
    &&& trim_spec(p) == p
}

/// A package name is such a value.
pub proof fn lemma_package_is_config_value(p: Seq<char>)
    requires
        valid_package_spec(p),
    ensures
        config_value_ok(p),
{
    lemma_package_chars(p);
    assert forall|k: int| 0 <= k < p.len() implies p[k] != '\n' by {
        assert(is_ident_char(p[k]) || p[k] == '.');
    }
    lemma_trim_id(p);
}

/// The lines of the configuration file written for `package`.
proof fn lemma_config_lines(package: Option<Seq<char>>)
    requires
        package matches Some(p) ==> config_value_ok(p),
    ensures
        split_on(config_spec(package), '\n') == seq![
            config_comment_1(),
            config_comment_2(),
            config_comment_3(),
            config_package_line(package),
            config_main_line(),
            Seq::<char>::empty(),
        ],
{
    reveal_strlit("# javetas project configuration.");
    reveal_strlit("# package : Java package of the sources (empty = none)");
    reveal_strlit("# main    : class run by `javetas run` and `make run`");
    reveal_strlit("# javetas project configuration.
# package : Java package of the sources (empty = none)
# main    : class run by `javetas run` and `make run`
package=");
    reveal_strlit("\nmain=Main\n");
    reveal_strlit("package");
    reveal_strlit("main");
    reveal_strlit("Main");
    reveal_strlit("=");
    let l1 = config_comment_1();
    let l2 = config_comment_2();
    let l3 = config_comment_3();
    let v = package_value(package);
    let l4 = config_package_line(package);
    let l5 = config_main_line();
    let e = Seq::<char>::empty();
    let nl = seq!['\n'];
    assert(config_spec(package) =~= l1 + nl + (l2 + nl + (l3 + nl + (l4 + nl + (l5 + nl + e)))));
    assert forall|k: int| 0 <= k < l4.len() implies l4[k] != '\n' by {
        if k >= 8 {
            assert(l4[k] == v[k - 8]);
        }
    }
    assert forall|k: int| 0 <= k < l1.len() implies l1[k] != '\n' by {}
    assert forall|k: int| 0 <= k < l2.len() implies l2[k] != '\n' by {}
    assert forall|k: int| 0 <= k < l3.len() implies l3[k] != '\n' by {}
    assert forall|k: int| 0 <= k < l5.len() implies l5[k] != '\n' by {}
    lemma_split_none(e, '\n');
    lemma_split_cons(l5, '\n', e);
    lemma_split_cons(l4, '\n', l5 + nl + e);
    lemma_split_cons(l3, '\n', l4 + nl + (l5 + nl + e));
    lemma_split_cons(l2, '\n', l3 + nl + (l4 + nl + (l5 + nl + e)));
    lemma_split_cons(l1, '\n', l2 + nl + (l3 + nl + (l4 + nl + (l5 + nl + e))));
    assert(split_on(config_spec(package), '\n') =~= seq![l1, l2, l3, l4, l5, e]);
}

/// Each line of the configuration file written for `package`, applied in turn.
proof fn lemma_config_steps(package: Option<Seq<char>>, path: Seq<char>)
    requires
        package matches Some(p) ==> config_value_ok(p),
    ensures
        config_line_step(config_comment_1(), path, None, "Main"@) == Ok::<_, Seq<char>>(
            (None::<Seq<char>>, "Main"@),
        ),
        config_line_step(config_comment_2(), path, None, "Main"@) == Ok::<_, Seq<char>>(
            (None::<Seq<char>>, "Main"@),
        ),
        config_line_step(config_comment_3(), path, None, "Main"@) == Ok::<_, Seq<char>>(
            (None::<Seq<char>>, "Main"@),
        ),
        config_line_step(config_package_line(package), path, None, "Main"@) == Ok::<_, Seq<char>>(
            (given_package(package), "Main"@),
        ),
        config_line_step(config_main_line(), path, given_package(package), "Main"@) == Ok::<
            _,
            Seq<char>,
        >((given_package(package), "Main"@)),
        config_line_step(Seq::<char>::empty(), path, given_package(package), "Main"@) == Ok::<
            _,
            Seq<char>,
        >((given_package(package), "Main"@)),
{
    reveal_strlit("# javetas project configuration.");
    reveal_strlit("# package : Java package of the sources (empty = none)");
    reveal_strlit("# main    : class run by `javetas run` and `make run`");
    reveal_strlit("package");
    reveal_strlit("main");
    reveal_strlit("Main");
    let m = "Main"@;
    let v = package_value(package);
    if let Some(p) = package {
        if p.len() > 0 {
            lemma_trim_fixed(p);
        }
    }
    lemma_comment_line(config_comment_1(), path, None, m);
    lemma_comment_line(config_comment_2(), path, None, m);
    lemma_comment_line(config_comment_3(), path, None, m);
    assert forall|k: int| 0 <= k < "package"@.len() implies "package"@[k] != '=' by {}
    assert forall|k: int| 0 <= k < "main"@.len() implies "main"@[k] != '=' by {}
    lemma_key_line("package"@, v);
    lemma_key_line("main"@, m);
}

/// What a configuration file written for a package value says is read back:
/// that value (none when it is absent or empty), and `Main` as the class to
/// run. It holds for every value without a line break and without white space
/// at either end.
pub proof fn law_config_roundtrip(package: Option<Seq<char>>, path: Seq<char>)
    requires
        package matches Some(p) ==> config_value_ok(p),
    ensures
        parse_config_spec(config_spec(package), path) == Ok::<_, Seq<char>>(
            (given_package(package), "Main"@),
        ),
{
    let m = "Main"@;
    let g = given_package(package);
    lemma_config_lines(package);
    lemma_config_steps(package, path);
    let l1 = config_comment_1();
    let l2 = config_comment_2();
    let l3 = config_comment_3();
    let l4 = config_package_line(package);
    let l5 = config_main_line();
    let e = Seq::<char>::empty();
    let lines = seq![l1, l2, l3, l4, l5, e];
    assert(lines.drop_first() =~= seq![l2, l3, l4, l5, e]);
    assert(seq![l2, l3, l4, l5, e].drop_first() =~= seq![l3, l4, l5, e]);
    assert(seq![l3, l4, l5, e].drop_first() =~= seq![l4, l5, e]);
    assert(seq![l4, l5, e].drop_first() =~= seq![l5, e]);
    assert(seq![l5, e].drop_first() =~= seq![e]);
    assert(seq![e].drop_first() =~= Seq::<Seq<char>>::empty());
    assert(config_lines_spec(Seq::<Seq<char>>::empty(), path, g, m) == Ok::<_, Seq<char>>(
        (g, m),
    ));
    assert(config_lines_spec(seq![e], path, g, m) == Ok::<_, Seq<char>>((g, m)));
    assert(config_lines_spec(seq![l5, e], path, g, m) == Ok::<_, Seq<char>>((g, m)));
    assert(config_lines_spec(seq![l4, l5, e], path, None, m) == Ok::<_, Seq<char>>((g, m)));
    assert(config_lines_spec(seq![l3, l4, l5, e], path, None, m) == Ok::<_, Seq<char>>((g, m)));
    assert(config_lines_spec(seq![l2, l3, l4, l5, e], path, None, m) == Ok::<_, Seq<char>>(
        (g, m),
    ));
    assert(config_lines_spec(lines, path, None, m) == Ok::<_, Seq<char>>((g, m)));
}


/// A project that `new` created, once its configuration file is read back,
/// runs (`javetas run` with no class) the class that its Makefile runs.
pub proof fn law_new_project_runs_its_main_class(
    plan: NewProject,
    name: Seq<char>,
    package: Option<Seq<char>>,
    config_path: Seq<char>,
    windows: bool,
)
    requires
        new_project_ok(plan, name, package, windows),
        package matches Some(p) ==> valid_package_spec(p),
    ensures
        parse_config_spec(plan.files@[1].content@, config_path) == Ok::<_, Seq<char>>(
            (package, "Main"@),
        ),
        full_class_spec(package, "Main"@) == plan.main_class@,
        plan.files@[2].content@ == makefile_spec(plan.main_class@),
{
    if let Some(p) = package {
        lemma_package_is_config_value(p);
    }
    law_config_roundtrip(package, config_path);
    reveal_strlit("Main");
    reveal_strlit(".Main");
    reveal_strlit(".");
    assert(!"Main"@.contains('.')) by {
        assert forall|k: int| 0 <= k < "Main"@.len() implies "Main"@[k] != '.' by {}
    }
    if let Some(p) = package {
        assert(p + "."@ + "Main"@ =~= p + ".Main"@);
    }
}

/// A class that `add` created without a package of its own lies in the
/// project's class directory, and `javetas run <Name>` names it with the
/// project's package in front.
pub proof fn law_added_class_in_project_package(
    r: NewClass,
    project: Project,
    class: Seq<char>,
    interface: bool,
    windows: bool,
)
    requires
        new_class_ok(r, project, class, None, interface, windows),
        valid_identifier_spec(class),
    ensures
        join_modelled(project.root@, "src"@, windows) && class_dir_modelled(
            join_spec(project.root@, "src"@, windows),
            crate::text::opt_str(project.package),
            windows,
        ) ==> r.dir@ == class_dir_spec(
            join_spec(project.root@, "src"@, windows),
            crate::text::opt_str(project.package),
            windows,
        ),
        full_class_spec(crate::text::opt_str(project.package), class) == match project.package {
            Some(p) => p@ + "."@ + class,
            None => class,
        },
{
    assert(!class.contains('.')) by {
        assert forall|k: int| 0 <= k < class.len() implies class[k] != '.' by {
            if k > 0 {
                assert(is_ident_char(class[k]));
            }
        }
    }
}

/// A release whose tag is the running version is no update.
pub proof fn law_same_version_is_up_to_date(current: Seq<char>, json: Seq<char>)
    requires
        extract_tag_spec(json) == Some(current),
        parse_version_spec(current) is Some,
    ensures
        check_update_spec(current, json) == Ok::<Option<Seq<char>>, Seq<char>>(None),
{
}


proof fn lemma_target_not_flag(
    rest: Seq<Seq<char>>,
    with_interface: bool,
    target: Option<Seq<char>>,
    package: Option<Seq<char>>,
    interface: bool,
)
    requires
        target matches Some(y) ==> !starts_with_char(y, '-'),
    ensures
        parse_target_spec(rest, with_interface, target, package, interface) matches Ok(
            (Some(x), _, _),
        ) ==> !starts_with_char(x, '-'),
    decreases rest.len(),
{
    if rest.len() > 0 {
        let a = rest[0];
        if is_package_flag(a) {
            if rest.len() >= 2 {
                lemma_target_not_flag(rest.skip(2), with_interface, target, Some(rest[1]), interface);
            }
        } else if has_prefix(a, "--package="@) {
            lemma_target_not_flag(
                rest.skip(1),
                with_interface,
                target,
                Some(a.skip("--package="@.len() as int)),
                interface,
            );
        } else if with_interface && is_interface_flag(a) {
            lemma_target_not_flag(rest.skip(1), with_interface, target, package, true);
        } else if starts_with_char(a, '-') {
        } else if target is None {
            lemma_target_not_flag(rest.skip(1), with_interface, Some(a), package, interface);
        }
    }
}

proof fn lemma_run_not_flag(rest: Seq<Seq<char>>, class: Option<Seq<char>>)
    requires
        class matches Some(y) ==> !starts_with_char(y, '-'),
    ensures
        parse_run_spec(rest, class) matches Ok(Some(x)) ==> !starts_with_char(x, '-'),
    decreases rest.len(),
{
    if rest.len() > 0 {
        let a = rest[0];
        if !starts_with_char(a, '-') && class is None {
            lemma_run_not_flag(rest.skip(1), Some(a));
        }
    }
}

/// An argument that starts with `-` is never taken as the name of a project
/// or a class: it is a flag, or it is refused.
pub proof fn law_names_are_not_flags(args: Seq<Seq<char>>)
    ensures
        match parse_spec(args) {
            Ok(CommandView::New { name: Some(n), .. }) => !starts_with_char(n, '-'),
            Ok(CommandView::Add { class: Some(c), .. }) => !starts_with_char(c, '-'),
            Ok(CommandView::Run { class: Some(c) }) => !starts_with_char(c, '-'),
            _ => true,
        },
{
    if args.len() > 0 {
        lemma_target_not_flag(args.skip(1), false, None, None, false);
        lemma_target_not_flag(args.skip(1), true, None, None, false);
        lemma_run_not_flag(args.skip(1), None);
    }
}


/// Versions are ordered as their (major, minor, patch) triples are,
/// lexicographically: a larger major is always later, then a larger minor,
/// then a larger patch; the order is total and only equal versions are
/// each not later than the other.
pub proof fn law_version_order(a: (u64, u64, u64), b: (u64, u64, u64), c: (u64, u64, u64))
    ensures
        a.0 < b.0 ==> version_le(a, b) && !version_le(b, a),
        a.0 == b.0 && a.1 < b.1 ==> version_le(a, b) && !version_le(b, a),
        a.0 == b.0 && a.1 == b.1 ==> (version_le(a, b) <==> a.2 <= b.2),
        version_le(a, a),
        version_le(a, b) || version_le(b, a),
        version_le(a, b) && version_le(b, a) ==> a == b,
        version_le(a, b) && version_le(b, c) ==> version_le(a, c),
{
}

/// A release whose major (or, with the same major, minor; or, with the same
/// major and minor, patch) is larger than the running version's is an update;
/// one that is smaller or equal in that order is not.
pub proof fn law_later_release_is_update(current: Seq<char>, json: Seq<char>)
    requires
        extract_tag_spec(json) is Some,
        parse_version_spec(current) is Some,
        parse_version_spec(extract_tag_spec(json).unwrap()) is Some,
    ensures
        ({
            let tag = extract_tag_spec(json).unwrap();
            let cur = parse_version_spec(current).unwrap();
            let latest = parse_version_spec(tag).unwrap();
            &&& latest.0 > cur.0 ==> check_update_spec(current, json) == Ok::<
                Option<Seq<char>>,
                Seq<char>,
            >(Some(tag))
            &&& (latest.0 == cur.0 && latest.1 > cur.1) ==> check_update_spec(current, json) == Ok::<
                Option<Seq<char>>,
                Seq<char>,
            >(Some(tag))
            &&& (latest.0 == cur.0 && latest.1 == cur.1 && latest.2 > cur.2) ==> check_update_spec(
                current,
                json,
            ) == Ok::<Option<Seq<char>>, Seq<char>>(Some(tag))
            &&& latest.0 < cur.0 ==> check_update_spec(current, json) == Ok::<
                Option<Seq<char>>,
                Seq<char>,
            >(None)
            &&& latest == cur ==> check_update_spec(current, json) == Ok::<Option<Seq<char>>, Seq<char>>(
                None,
            )
        }),
{
}

/// A class name is accepted exactly when it starts with an ASCII letter, `_`
/// or `$` and goes on with ASCII letters of either case, digits, `_` or `$`.
pub proof fn law_identifier_characters(s: Seq<char>)
    ensures
        valid_identifier_spec(s) <==> {
            &&& s.len() > 0
            &&& (('a' <= s[0] && s[0] <= 'z') || ('A' <= s[0] && s[0] <= 'Z') || s[0] == '_' || s[0]
                == '$')
            &&& forall|i: int|
                1 <= i < s.len() ==> (('a' <= #[trigger] s[i] && s[i] <= 'z') || ('A' <= s[i] && s[i]
                    <= 'Z') || ('0' <= s[i] && s[i] <= '9') || s[i] == '_' || s[i] == '$')
        },
{
}

/// A project name is refused only when it is empty or holds a `/`, a `\` or a
/// space; every other name is accepted.
pub proof fn law_project_name_characters(name: Seq<char>)
    ensures
        (name.len() > 0 && !name.contains('/') && !name.contains('\\') && !name.contains(' '))
            <==> project_name_error(name) is None,
{
}

/// The class that `run` is given: a name with a dot is taken as fully
/// qualified and left as it is; a name without one is put after the project's
/// package and a dot; without a package the name is used as it is.
pub proof fn law_full_class_names(package: Option<Seq<char>>, name: Seq<char>)
    ensures
        name.contains('.') ==> full_class_spec(package, name) == name,
        package is None ==> full_class_spec(package, name) == name,
        package is Some && !name.contains('.') ==> full_class_spec(package, name) == package.unwrap()
            + seq!['.'] + name,
{
    reveal_strlit(".");
}

/// `t` is the end of `s`.
pub open spec fn ends_with(s: Seq<char>, t: Seq<char>) -> bool {
    t.len() <= s.len() && s.skip(s.len() - t.len()) == t
}

/// A new interface's source is its package line, a doc comment opened with
/// `/**` and closed with `*/` on a line of its own, and then the declaration
/// `public interface <name> {}`; so the declaration is not inside the comment.
pub proof fn law_interface_source_shape(package: Option<Seq<char>>, name: Seq<char>)
    ensures
        ({
            let s = interface_java_spec(package, name);
            let decl = "public interface "@ + name + " {\n}\n"@;
            &&& has_prefix(s, package_line_spec(package) + "/**"@)
            &&& ends_with(s, "\n */\n"@ + decl)
            &&& package_line_spec(package).len() + "/**"@.len() + "\n */\n"@.len() + decl.len()
                <= s.len()
        }),
{
    reveal_strlit("/**\n * ");
    reveal_strlit("/**");
    reveal_strlit(" { ... }\n */\npublic interface ");
    reveal_strlit("\n */\n");
    reveal_strlit("public interface ");
    reveal_strlit(" {\n}\n");
    reveal_strlit(
        ".java\n *\n * An interface is a contract: it lists methods without their bodies.\n *\n * A class promises to provide them with `implements`:\n *   public class Example implements ",
    );
    let s = interface_java_spec(package, name);
    let pl = package_line_spec(package);
    let decl = "public interface "@ + name + " {\n}\n"@;
    let mid = " * "@ + name
        + ".java\n *\n * An interface is a contract: it lists methods without their bodies.\n *\n * A class promises to provide them with `implements`:\n *   public class Example implements "@
        + name + " { ... }"@;
    assert(s =~= pl + "/**"@ + ("\n"@ + mid) + ("\n */\n"@ + decl)) by {
        reveal_strlit("\n");
        reveal_strlit(" * ");
        reveal_strlit(" { ... }");
    }
    assert(s.take((pl + "/**"@).len() as int) =~= pl + "/**"@);
    let t = "\n */\n"@ + decl;
    assert(s.skip(s.len() - t.len()) =~= t);
}

/// A new class's source is its package line, a doc comment opened with `/**`
/// and closed with `*/` on a line of its own, and then the declaration
/// `public class <name> {}`; so the declaration is not inside the comment.
pub proof fn law_class_source_shape(package: Option<Seq<char>>, name: Seq<char>)
    ensures
        ({
            let s = class_java_spec(package, name);
            let decl = "public class "@ + name + " {\n}\n"@;
            &&& has_prefix(s, package_line_spec(package) + "/**"@)
            &&& ends_with(s, "\n */\n"@ + decl)
            &&& package_line_spec(package).len() + "/**"@.len() + "\n */\n"@.len() + decl.len()
                <= s.len()
        }),
{
    reveal_strlit("/**\n * ");
    reveal_strlit("/**");
    reveal_strlit("();\n */\npublic class ");
    reveal_strlit("\n */\n");
    reveal_strlit("public class ");
    reveal_strlit(" {\n}\n");
    let s = class_java_spec(package, name);
    let pl = package_line_spec(package);
    let decl = "public class "@ + name + " {\n}\n"@;
    let mid = " * "@ + name
        + ".java\n *\n * A class is a blueprint for objects.\n *\n * - Fields store state (what the object knows).\n * - Methods define behavior (what the object can do).\n *\n * Add yours below, then use "@
        + name + " from Main:\n *   "@ + name + " x = new "@ + name + "();"@;
    assert(s =~= pl + "/**"@ + ("\n"@ + mid) + ("\n */\n"@ + decl)) by {
        reveal_strlit("\n");
        reveal_strlit(" * ");
        reveal_strlit("();");
    }
    assert(s.take((pl + "/**"@).len() as int) =~= pl + "/**"@);
    let t = "\n */\n"@ + decl;
    assert(s.skip(s.len() - t.len()) =~= t);
}

} // verus!
