//! The command line: which command the user asked for, and with what.

use vstd::prelude::*;
use crate::text::{opt_str, str_views, starts_with_char, has_prefix, str_eq, starts_with, starts_with_char_exec, concat2};

verus! {

/// A command of the tool, as the command line names it.
#[derive(Debug, PartialEq, Eq)]
pub enum Command {
    Help,
    Version,
    New { name: Option<String>, package: Option<String> },
    Add { class: Option<String>, package: Option<String>, interface: bool },
    Build,
    Run { class: Option<String> },
    Update { yes: bool },
}

/// What a [`Command`] holds, with strings taken as their characters.
pub enum CommandView {
    Help,
    Version,
    New { name: Option<Seq<char>>, package: Option<Seq<char>> },
    Add { class: Option<Seq<char>>, package: Option<Seq<char>>, interface: bool },
    Build,
    Run { class: Option<Seq<char>> },
    Update { yes: bool },
}

impl View for Command {
    type V = CommandView;

    open spec fn view(&self) -> CommandView {
        match self {
            Command::Help => CommandView::Help,
            Command::Version => CommandView::Version,
            Command::New { name, package } => CommandView::New {
                name: opt_str(*name),
                package: opt_str(*package),
            },
            Command::Add { class, package, interface } => CommandView::Add {
                class: opt_str(*class),
                package: opt_str(*package),
                interface: *interface,
            },
            Command::Build => CommandView::Build,
            Command::Run { class } => CommandView::Run { class: opt_str(*class) },
            Command::Update { yes } => CommandView::Update { yes: *yes },
        }
    }
}

pub open spec fn unknown_flag_msg(a: Seq<char>) -> Seq<char> {
    "unknown flag: "@ + a
}

pub open spec fn unexpected_msg(a: Seq<char>) -> Seq<char> {
    "unexpected argument: "@ + a
}

pub open spec fn unknown_command_msg(a: Seq<char>) -> Seq<char> {
    "unknown command: "@ + a
}

pub open spec fn package_value_msg() -> Seq<char> {
    "`--package` needs a value (e.g. `--package com.ejemplo`)"@
}

/// `--package` or `-p`: the next argument is the package.
pub open spec fn is_package_flag(a: Seq<char>) -> bool {
    a == "--package"@ || a == "-p"@
}

/// `--interface` or `-i`.
pub open spec fn is_interface_flag(a: Seq<char>) -> bool {
    a == "--interface"@ || a == "-i"@
}

/// `--yes` or `-y`.
pub open spec fn is_yes_flag(a: Seq<char>) -> bool {
    a == "--yes"@ || a == "-y"@
}

/// The arguments after `new` (`with_interface` false) or `add` (true): one
/// positional target, `--package <pkg>`, `-p <pkg>`, `--package=<pkg>`, and for
/// `add` the `--interface` flag. Later package options replace earlier ones.
pub open spec fn parse_target_spec(
    rest: Seq<Seq<char>>,
    with_interface: bool,
    target: Option<Seq<char>>,
    package: Option<Seq<char>>,
    interface: bool,
) -> Result<(Option<Seq<char>>, Option<Seq<char>>, bool), Seq<char>>
    decreases rest.len(),
{
    if rest.len() == 0 {
        Ok((target, package, interface))
    } else {
        let a = rest[0];
        if is_package_flag(a) {
            if rest.len() < 2 {
                Err(package_value_msg())
            } else {
                parse_target_spec(rest.skip(2), with_interface, target, Some(rest[1]), interface)
            }
        } else if has_prefix(a, "--package="@) {
            parse_target_spec(
                rest.skip(1),
                with_interface,
                target,
                Some(a.skip("--package="@.len() as int)),
                interface,
            )
        } else if with_interface && is_interface_flag(a) {
            parse_target_spec(rest.skip(1), with_interface, target, package, true)
        } else if starts_with_char(a, '-') {
            Err(unknown_flag_msg(a))
        } else if target is None {
            parse_target_spec(rest.skip(1), with_interface, Some(a), package, interface)
        } else {
            Err(unexpected_msg(a))
        }
    }
}

/// The arguments after `run`: at most one class name, no flags.
pub open spec fn parse_run_spec(rest: Seq<Seq<char>>, class: Option<Seq<char>>) -> Result<
    Option<Seq<char>>,
    Seq<char>,
>
    decreases rest.len(),
{
    if rest.len() == 0 {
        Ok(class)
    } else {
        let a = rest[0];
        if starts_with_char(a, '-') {
            Err(unknown_flag_msg(a))
        } else if class is Some {
            Err(unexpected_msg(a))
        } else {
            parse_run_spec(rest.skip(1), Some(a))
        }
    }
}

/// The arguments after `update`: only `--yes` / `-y`.
pub open spec fn parse_update_spec(rest: Seq<Seq<char>>, yes: bool) -> Result<bool, Seq<char>>
    decreases rest.len(),
{
    if rest.len() == 0 {
        Ok(yes)
    } else {
        let a = rest[0];
        if is_yes_flag(a) {
            parse_update_spec(rest.skip(1), true)
        } else if starts_with_char(a, '-') {
            Err(unknown_flag_msg(a))
        } else {
            Err(unexpected_msg(a))
        }
    }
}

/// The command that the arguments (the program name left out) ask for, or
/// the message that says why they are refused.
pub open spec fn parse_spec(args: Seq<Seq<char>>) -> Result<CommandView, Seq<char>> {
    if args.len() == 0 {
        Ok(CommandView::Help)
    } else {
        let c = args[0];
        let rest = args.skip(1);
        if c == "-h"@ || c == "--help"@ || c == "help"@ {
            Ok(CommandView::Help)
        } else if c == "-v"@ || c == "--version"@ || c == "version"@ {
            Ok(CommandView::Version)
        } else if c == "new"@ {
            match parse_target_spec(rest, false, None, None, false) {
                Ok((name, package, _)) => Ok(CommandView::New { name, package }),
                Err(e) => Err(e),
            }
        } else if c == "add"@ {
            match parse_target_spec(rest, true, None, None, false) {
                Ok((class, package, interface)) => Ok(CommandView::Add { class, package, interface }),
                Err(e) => Err(e),
            }
        } else if c == "build"@ {
            if rest.len() > 0 {
                Err(unexpected_msg(rest[0]))
            } else {
                Ok(CommandView::Build)
            }
        } else if c == "run"@ {
            match parse_run_spec(rest, None) {
                Ok(class) => Ok(CommandView::Run { class }),
                Err(e) => Err(e),
            }
        } else if c == "update"@ {
            match parse_update_spec(rest, false) {
                Ok(yes) => Ok(CommandView::Update { yes }),
                Err(e) => Err(e),
            }
        } else {
            Err(unknown_command_msg(c))
        }
    }
}

fn parse_target(args: &[String], with_interface: bool) -> (r: Result<
    (Option<String>, Option<String>, bool),
    String,
>)
    requires
        args@.len() >= 1,
    ensures
        match r {
            Ok((t, p, i)) => parse_target_spec(str_views(args@).skip(1), with_interface, None, None, false)
                == Ok::<_, Seq<char>>((opt_str(t), opt_str(p), i)),
            Err(e) => parse_target_spec(str_views(args@).skip(1), with_interface, None, None, false)
                == Err::<(Option<Seq<char>>, Option<Seq<char>>, bool), _>(e@),
        },
{
    let ghost v = str_views(args@);
    let mut target: Option<String> = None;
    let mut package: Option<String> = None;
    let mut interface = false;
    let mut i: usize = 1;
    while i < args.len()
        invariant
            v == str_views(args@),
            1 <= i <= args@.len(),
            parse_target_spec(v.skip(1), with_interface, None, None, false) == parse_target_spec(
                v.skip(i as int),
                with_interface,
                opt_str(target),
                opt_str(package),
                interface,
            ),
        decreases args@.len() - i,
    {
        let a = args[i].as_str();
        let ghost rest = v.skip(i as int);
        assert(rest[0] == a@);
        if str_eq(a, "--package") || str_eq(a, "-p") {
            if i + 1 >= args.len() {
                return Err(String::from_str("`--package` needs a value (e.g. `--package com.ejemplo`)"));
            }
            assert(rest[1] == args@[i + 1]@);
            assert(rest.skip(2) =~= v.skip(i + 2));
            package = Some(args[i + 1].clone());
            i = i + 2;
        } else if starts_with(a, "--package=") {
            let plen = "--package=".unicode_len();
            let alen = a.unicode_len();
            let value = a.substring_char(plen, alen);
            assert(value@ =~= a@.skip("--package="@.len() as int));
            assert(rest.skip(1) =~= v.skip(i + 1));
            package = Some(String::from_str(value));
            i = i + 1;
        } else if with_interface && (str_eq(a, "--interface") || str_eq(a, "-i")) {
            assert(rest.skip(1) =~= v.skip(i + 1));
            interface = true;
            i = i + 1;
        } else if starts_with_char_exec(a, '-') {
            return Err(concat2("unknown flag: ", a));
        } else if target.is_none() {
            assert(rest.skip(1) =~= v.skip(i + 1));
            target = Some(args[i].clone());
            i = i + 1;
        } else {
            return Err(concat2("unexpected argument: ", a));
        }
    }
    assert(v.skip(i as int).len() == 0);
    Ok((target, package, interface))
}

fn parse_run(args: &[String]) -> (r: Result<Option<String>, String>)
    requires
        args@.len() >= 1,
    ensures
        match r {
            Ok(c) => parse_run_spec(str_views(args@).skip(1), None) == Ok::<_, Seq<char>>(opt_str(c)),
            Err(e) => parse_run_spec(str_views(args@).skip(1), None) == Err::<Option<Seq<char>>, _>(e@),
        },
{
    let ghost v = str_views(args@);
    let mut class: Option<String> = None;
    let mut i: usize = 1;
    while i < args.len()
        invariant
            v == str_views(args@),
            1 <= i <= args@.len(),
            parse_run_spec(v.skip(1), None) == parse_run_spec(v.skip(i as int), opt_str(class)),
        decreases args@.len() - i,
    {
        let a = args[i].as_str();
        let ghost rest = v.skip(i as int);
        assert(rest[0] == a@);
        if starts_with_char_exec(a, '-') {
            return Err(concat2("unknown flag: ", a));
        }
        if class.is_some() {
            return Err(concat2("unexpected argument: ", a));
        }
        assert(rest.skip(1) =~= v.skip(i + 1));
        class = Some(args[i].clone());
        i = i + 1;
    }
    assert(v.skip(i as int).len() == 0);
    Ok(class)
}

fn parse_update(args: &[String]) -> (r: Result<bool, String>)
    requires
        args@.len() >= 1,
    ensures
        match r {
            Ok(y) => parse_update_spec(str_views(args@).skip(1), false) == Ok::<_, Seq<char>>(y),
            Err(e) => parse_update_spec(str_views(args@).skip(1), false) == Err::<bool, _>(e@),
        },
{
    let ghost v = str_views(args@);
    let mut yes = false;
    let mut i: usize = 1;
    while i < args.len()
        invariant
            v == str_views(args@),
            1 <= i <= args@.len(),
            parse_update_spec(v.skip(1), false) == parse_update_spec(v.skip(i as int), yes),
        decreases args@.len() - i,
    {
        let a = args[i].as_str();
        let ghost rest = v.skip(i as int);
        assert(rest[0] == a@);
        if str_eq(a, "--yes") || str_eq(a, "-y") {
            assert(rest.skip(1) =~= v.skip(i + 1));
            yes = true;
            i = i + 1;
        } else if starts_with_char_exec(a, '-') {
            return Err(concat2("unknown flag: ", a));
        } else {
            return Err(concat2("unexpected argument: ", a));
        }
    }
    assert(v.skip(i as int).len() == 0);
    Ok(yes)
}

/// Reads the command line (the program name left out).
pub fn parse(args: &[String]) -> (r: Result<Command, String>)
    ensures
        match r {
            Ok(c) => parse_spec(str_views(args@)) == Ok::<_, Seq<char>>(c@),
            Err(e) => parse_spec(str_views(args@)) == Err::<CommandView, _>(e@),
        },
{
    let ghost v = str_views(args@);
    if args.len() == 0 {
        return Ok(Command::Help);
    }
    let c = args[0].as_str();
    assert(v[0] == c@);
    if str_eq(c, "-h") || str_eq(c, "--help") || str_eq(c, "help") {
        Ok(Command::Help)
    } else if str_eq(c, "-v") || str_eq(c, "--version") || str_eq(c, "version") {
        Ok(Command::Version)
    } else if str_eq(c, "new") {
        match parse_target(args, false) {
            Ok((name, package, _)) => Ok(Command::New { name, package }),
            Err(e) => Err(e),
        }
    } else if str_eq(c, "add") {
        match parse_target(args, true) {
            Ok((class, package, interface)) => Ok(Command::Add { class, package, interface }),
            Err(e) => Err(e),
        }
    } else if str_eq(c, "build") {
        if args.len() > 1 {
            assert(v.skip(1)[0] == args@[1]@);
            Err(concat2("unexpected argument: ", args[1].as_str()))
        } else {
            Ok(Command::Build)
        }
    } else if str_eq(c, "run") {
        match parse_run(args) {
            Ok(class) => Ok(Command::Run { class }),
            Err(e) => Err(e),
        }
    } else if str_eq(c, "update") {
        match parse_update(args) {
            Ok(yes) => Ok(Command::Update { yes }),
            Err(e) => Err(e),
        }
    } else {
        Err(concat2("unknown command: ", c))
    }
}

} // verus!
