//! The decisions of self-update: which release asset fits the platform, where
//! it is fetched from, which version the release info names, and whether it is
//! newer than the running one.
//!
//! Fetching, unpacking and replacing the binary are left to the caller.

use vstd::prelude::*;
use crate::text::{
    concat2, concat3, find_from, find_str, index_of_char, sep_index, starts_with_char,
    starts_with_char_exec, str_eq, trim_start, trim_start_spec,
};

verus! {

/// The GitHub repository of the tool.
pub const REPO: &'static str = "YuriRiegaAlva/javetas";

pub open spec fn is_digit(c: char) -> bool {
    '0' <= c && c <= '9'
}

/// The value of a decimal digit.
pub open spec fn digit_value(c: char) -> int {
    c as int - '0' as int
}

/// The number that a string of decimal digits writes.
pub open spec fn digits_value(d: Seq<char>) -> nat
    decreases d.len(),
{
    if d.len() == 0 {
        0
    } else {
        (digits_value(d.drop_last()) * 10 + digit_value(d.last())) as nat
    }
}

/// The maximal runs of digits in `s`, `cur` being a run begun before `s`.
pub open spec fn digit_groups_from(s: Seq<char>, cur: Seq<char>) -> Seq<Seq<char>>
    decreases s.len(),
{
    if s.len() == 0 {
        if cur.len() > 0 {
            seq![cur]
        } else {
            seq![]
        }
    } else if is_digit(s[0]) {
        digit_groups_from(s.drop_first(), cur.push(s[0]))
    } else {
        (if cur.len() > 0 {
            seq![cur]
        } else {
            seq![]
        }) + digit_groups_from(s.drop_first(), Seq::empty())
    }
}

/// The maximal runs of digits in `s`, in order.
pub open spec fn digit_groups(s: Seq<char>) -> Seq<Seq<char>> {
    digit_groups_from(s, Seq::empty())
}

/// `s` without one leading `v`.
pub open spec fn strip_v(s: Seq<char>) -> Seq<char> {
    if starts_with_char(s, 'v') {
        s.drop_first()
    } else {
        s
    }
}

/// A version `v1.2.3` (or `1.2.3`, or with any non-digits between the
/// numbers): its first three numbers, when it has three that fit in `u64`.
pub open spec fn parse_version_spec(s: Seq<char>) -> Option<(u64, u64, u64)> {
    let g = digit_groups(strip_v(s));
    if g.len() >= 3 && digits_value(g[0]) <= u64::MAX && digits_value(g[1]) <= u64::MAX
        && digits_value(g[2]) <= u64::MAX {
        Some((digits_value(g[0]) as u64, digits_value(g[1]) as u64, digits_value(g[2]) as u64))
    } else {
        None
    }
}

/// `a` is not a later version than `b` (versions ordered field by field).
pub open spec fn version_le(a: (u64, u64, u64), b: (u64, u64, u64)) -> bool {
    a.0 < b.0 || (a.0 == b.0 && (a.1 < b.1 || (a.1 == b.1 && a.2 <= b.2)))
}

/// The value of `"tag_name"` in release info: the text between the quotes that
/// follow the first `"tag_name"` and a `:` (white space allowed before the
/// opening quote), read no further than the next `"tag_name"`.
pub open spec fn extract_tag_spec(json: Seq<char>) -> Option<Seq<char>> {
    let pat = "\"tag_name\""@;
    match find_from(json, pat, 0) {
        None => None,
        Some(i) => {
            let start = i + pat.len();
            let end = match find_from(json, pat, start as nat) {
                Some(k) => k as int,
                None => json.len() as int,
            };
            let seg = json.subrange(start as int, end);
            let c = sep_index(seg, ':');
            if c >= seg.len() {
                None
            } else {
                let rest = trim_start_spec(seg.skip(c + 1 as int));
                if !starts_with_char(rest, '"') {
                    None
                } else {
                    let body = rest.drop_first();
                    Some(body.take(sep_index(body, '"') as int))
                }
            }
        }
    }
}

/// The release archive for an operating system and architecture.
pub open spec fn release_asset_spec(os: Seq<char>, arch: Seq<char>) -> Result<Seq<char>, Seq<char>> {
    if os == "linux"@ && arch == "x86_64"@ {
        Ok("javetas-linux-x86_64.tar.gz"@)
    } else if os == "macos"@ && arch == "x86_64"@ {
        Ok("javetas-macos-x86_64.tar.gz"@)
    } else if os == "macos"@ && arch == "aarch64"@ {
        Ok("javetas-macos-arm64.tar.gz"@)
    } else {
        Err("no release available for "@ + os + "/"@ + arch)
    }
}

/// `s` without its trailing `c`s.
pub open spec fn strip_trailing(s: Seq<char>, c: char) -> Seq<char>
    decreases s.len(),
{
    if s.len() > 0 && s.last() == c {
        strip_trailing(s.drop_last(), c)
    } else {
        s
    }
}

/// Where the release info and the release archive `asset` are fetched from:
/// below `base` when one is set, else from GitHub.
pub open spec fn release_urls_spec(base: Option<Seq<char>>, asset: Seq<char>) -> (Seq<char>, Seq<char>) {
    match base {
        Some(b) => {
            let b = strip_trailing(b, '/');
            (b + "/releases/latest"@, b + "/releases/latest/download/"@ + asset)
        },
        None => (
            "https://api.github.com/repos/"@ + REPO@ + "/releases/latest"@,
            "https://github.com/"@ + REPO@ + "/releases/latest/download/"@ + asset,
        ),
    }
}

/// The outcome of comparing the running version with the latest release.
#[derive(Debug, PartialEq, Eq)]
pub enum UpdateCheck {
    UpToDate,
    Newer { tag: String },
}

pub open spec fn no_tag_msg() -> Seq<char> {
    "cannot find the latest version in the release info"@
}

pub open spec fn bad_tag_msg(tag: Seq<char>) -> Seq<char> {
    "cannot parse latest version tag `"@ + tag + "`"@
}

/// Whether to update from version `current` given the release info `json`:
/// `Ok(None)` when the latest release is not newer (an unreadable `current`
/// counts as 0.0.0), `Ok(Some(tag))` when it is.
pub open spec fn check_update_spec(current: Seq<char>, json: Seq<char>) -> Result<
    Option<Seq<char>>,
    Seq<char>,
> {
    let cur = match parse_version_spec(current) {
        Some(v) => v,
        None => (0u64, 0u64, 0u64),
    };
    match extract_tag_spec(json) {
        None => Err(no_tag_msg()),
        Some(tag) => match parse_version_spec(tag) {
            None => Err(bad_tag_msg(tag)),
            Some(latest) => if version_le(latest, cur) {
                Ok(None)
            } else {
                Ok(Some(tag))
            },
        },
    }
}

/// `c` lowered when it is an ASCII capital.
pub open spec fn ascii_lower(c: char) -> int {
    if 'A' <= c && c <= 'Z' {
        c as int + 32
    } else {
        c as int
    }
}

/// `a` and `b` are equal up to ASCII case.
pub open spec fn eq_ignore_ascii_case_spec(a: Seq<char>, b: Seq<char>) -> bool {
    a.len() == b.len() && forall|i: int| 0 <= i < a.len() ==> ascii_lower(a[i]) == ascii_lower(b[i])
}

/// The answer to the update question accepts: `y` or `yes`, in any case.
pub open spec fn confirms_spec(answer: Seq<char>) -> bool {
    eq_ignore_ascii_case_spec(answer, "y"@) || eq_ignore_ascii_case_spec(answer, "yes"@)
}

proof fn lemma_groups_digit(t: Seq<char>, i: int, cur: Seq<char>)
    requires
        0 <= i < t.len(),
        is_digit(t[i]),
    ensures
        digit_groups_from(t.skip(i), cur) == digit_groups_from(t.skip(i + 1), cur.push(t[i])),
{
    assert(t.skip(i).drop_first() =~= t.skip(i + 1));
}

proof fn lemma_groups_other(t: Seq<char>, i: int, cur: Seq<char>)
    requires
        0 <= i < t.len(),
        !is_digit(t[i]),
    ensures
        digit_groups_from(t.skip(i), cur) == (if cur.len() > 0 {
            seq![cur]
        } else {
            seq![]
        }) + digit_groups_from(t.skip(i + 1), Seq::empty()),
{
    assert(t.skip(i).drop_first() =~= t.skip(i + 1));
}

/// The first three numbers of a version string.
pub fn parse_version(s: &str) -> (r: Option<(u64, u64, u64)>)
    ensures
        r == parse_version_spec(s@),
{
    let n0 = s.unicode_len();
    let t = if starts_with_char_exec(s, 'v') {
        s.substring_char(1, n0)
    } else {
        s
    };
    assert(t@ =~= strip_v(s@));
    let n = t.unicode_len();
    let ghost total = digit_groups(t@);
    let ghost mut done: Seq<Seq<char>> = Seq::empty();
    let ghost mut cur: Seq<char> = Seq::empty();
    let mut vals: Vec<u64> = Vec::new();
    let mut cur_val: u64 = 0;
    let mut cur_ok = true;
    let mut in_group = false;
    let mut i: usize = 0;
    assert(t@.skip(0) =~= t@);
    assert(done + digit_groups_from(t@.skip(0), cur) =~= total);
    while i < n && vals.len() < 3
        invariant
            n == t@.len(),
            i <= n,
            total == digit_groups(t@),
            t@ == strip_v(s@),
            total == done + digit_groups_from(t@.skip(i as int), cur),
            vals@.len() == done.len(),
            done.len() <= 3,
            forall|k: int| 0 <= k < done.len() ==> vals@[k] as nat == digits_value(#[trigger] done[k]),
            in_group == (cur.len() > 0),
            cur_ok ==> cur_val as nat == digits_value(cur),
            !cur_ok ==> digits_value(cur) > u64::MAX,
        decreases n - i,
    {
        let c = t.get_char(i);
        if '0' <= c && c <= '9' {
            proof {
                lemma_groups_digit(t@, i as int, cur);
                assert(cur.push(c).drop_last() =~= cur);
            }
            let d = (c as u32 - '0' as u32) as u64;
            if cur_ok {
                if cur_val <= (u64::MAX - d) / 10 {
                    cur_val = cur_val * 10 + d;
                } else {
                    cur_ok = false;
                }
            }
            proof {
                cur = cur.push(c);
            }
            in_group = true;
        } else {
            proof {
                lemma_groups_other(t@, i as int, cur);
            }
            if in_group {
                if !cur_ok {
                    proof {
                        let rest = digit_groups_from(t@.skip(i + 1), Seq::empty());
                        assert(total == done + (seq![cur] + rest));
                        assert(total[done.len() as int] == cur);
                    }
                    return None;
                }
                vals.push(cur_val);
                proof {
                    done = done.push(cur);
                    assert(total == done + digit_groups_from(t@.skip(i + 1), Seq::empty()));
                }
            } else {
                proof {
                    assert(total == done + digit_groups_from(t@.skip(i + 1), Seq::empty()));
                }
            }
            proof {
                cur = Seq::empty();
            }
            cur_val = 0;
            cur_ok = true;
            in_group = false;
        }
        i = i + 1;
    }
    if vals.len() < 3 {
        // the whole string was read
        assert(t@.skip(i as int) =~= Seq::<char>::empty());
        if in_group {
            if !cur_ok {
                assert(total[done.len() as int] == cur);
                return None;
            }
            vals.push(cur_val);
            proof {
                done = done.push(cur);
            }
            assert(total =~= done);
        } else {
            assert(total =~= done);
        }
        if vals.len() < 3 {
            return None;
        }
    }
    Some((vals[0], vals[1], vals[2]))
}

/// The tag of the latest release named in release info `json`.
pub fn extract_tag<'a>(json: &'a str) -> (r: Option<&'a str>)
    ensures
        match r {
            Some(t) => extract_tag_spec(json@) == Some(t@),
            None => extract_tag_spec(json@) is None,
        },
{
    let pat = "\"tag_name\"";
    let n = json.unicode_len();
    let m = pat.unicode_len();
    let i = match find_str(json, pat, 0) {
        Some(i) => i,
        None => return None,
    };
    let start = i + m;
    let end = match find_str(json, pat, start) {
        Some(k) => k,
        None => n,
    };
    let seg = json.substring_char(start, end);
    let sl = seg.unicode_len();
    let c = index_of_char(seg, ':', 0);
    proof {
        assert(seg@.skip(0) =~= seg@);
    }
    if c == sl {
        return None;
    }
    let rest = trim_start(seg.substring_char(c + 1, sl));
    if !starts_with_char_exec(rest, '"') {
        return None;
    }
    let rl = rest.unicode_len();
    let body = rest.substring_char(1, rl);
    assert(body@ =~= rest@.drop_first());
    let q = index_of_char(body, '"', 0);
    proof {
        assert(body@.skip(0) =~= body@);
    }
    Some(body.substring_char(0, q))
}

/// The release archive for a platform, or why there is none.
pub fn release_asset(os: &str, arch: &str) -> (r: Result<String, String>)
    ensures
        match r {
            Ok(a) => release_asset_spec(os@, arch@) == Ok::<_, Seq<char>>(a@),
            Err(e) => release_asset_spec(os@, arch@) == Err::<Seq<char>, _>(e@),
        },
{
    if str_eq(os, "linux") && str_eq(arch, "x86_64") {
        Ok(String::from_str("javetas-linux-x86_64.tar.gz"))
    } else if str_eq(os, "macos") && str_eq(arch, "x86_64") {
        Ok(String::from_str("javetas-macos-x86_64.tar.gz"))
    } else if str_eq(os, "macos") && str_eq(arch, "aarch64") {
        Ok(String::from_str("javetas-macos-arm64.tar.gz"))
    } else {
        let mut e = concat3("no release available for ", os, "/");
        e.append(arch);
        Err(e)
    }
}

proof fn lemma_strip_trailing_is(s: Seq<char>, c: char, b: int)
    requires
        0 <= b <= s.len(),
        forall|k: int| b <= k < s.len() ==> s[k] == c,
        b == 0 || s[b - 1] != c,
    ensures
        strip_trailing(s, c) == s.take(b),
    decreases s.len() - b,
{
    if b < s.len() {
        lemma_strip_trailing_is(s.drop_last(), c, b);
        assert(s.drop_last().take(b) =~= s.take(b));
    } else {
        assert(s.take(b) =~= s);
    }
}

/// `s` without its trailing `/`s.
pub fn strip_trailing_slashes(s: &str) -> (r: &str)
    ensures
        r@ == strip_trailing(s@, '/'),
{
    let n = s.unicode_len();
    let mut b: usize = n;
    while b > 0
        invariant
            n == s@.len(),
            b <= n,
            forall|k: int| b <= k < n ==> s@[k] == '/',
        ensures
            b <= n,
            b == 0 || s@[b - 1] != '/',
        decreases b,
    {
        if s.get_char(b - 1) != '/' {
            break;
        }
        b = b - 1;
    }
    proof {
        lemma_strip_trailing_is(s@, '/', b as int);
    }
    s.substring_char(0, b)
}

/// The URLs of the release info and of the archive `asset`.
pub fn release_urls(base: Option<&str>, asset: &str) -> (r: (String, String))
    ensures
        (r.0@, r.1@) == release_urls_spec(
            match base {
                Some(b) => Some(b@),
                None => None,
            },
            asset@,
        ),
{
    match base {
        Some(b) => {
            let b = strip_trailing_slashes(b);
            let info = concat2(b, "/releases/latest");
            let archive = concat3(b, "/releases/latest/download/", asset);
            (info, archive)
        },
        None => {
            let info = concat3("https://api.github.com/repos/", REPO, "/releases/latest");
            let mut archive = concat3("https://github.com/", REPO, "/releases/latest/download/");
            archive.append(asset);
            (info, archive)
        },
    }
}

/// Whether version `a` is not later than `b`.
pub fn version_not_newer(a: (u64, u64, u64), b: (u64, u64, u64)) -> (r: bool)
    ensures
        r == version_le(a, b),
{
    a.0 < b.0 || (a.0 == b.0 && (a.1 < b.1 || (a.1 == b.1 && a.2 <= b.2)))
}

/// Compares the running version `current` with the release info `json`.
pub fn check_update(current: &str, json: &str) -> (r: Result<UpdateCheck, String>)
    ensures
        match r {
            Ok(UpdateCheck::UpToDate) => check_update_spec(current@, json@) == Ok::<
                Option<Seq<char>>,
                Seq<char>,
            >(None),
            Ok(UpdateCheck::Newer { tag }) => check_update_spec(current@, json@) == Ok::<
                Option<Seq<char>>,
                Seq<char>,
            >(Some(tag@)),
            Err(e) => check_update_spec(current@, json@) == Err::<Option<Seq<char>>, _>(e@),
        },
{
    let cur = match parse_version(current) {
        Some(v) => v,
        None => (0, 0, 0),
    };
    let tag = match extract_tag(json) {
        Some(t) => t,
        None => return Err(String::from_str("cannot find the latest version in the release info")),
    };
    match parse_version(tag) {
        None => Err(concat3("cannot parse latest version tag `", tag, "`")),
        Some(latest) => if version_not_newer(latest, cur) {
            Ok(UpdateCheck::UpToDate)
        } else {
            Ok(UpdateCheck::Newer { tag: String::from_str(tag) })
        },
    }
}

fn ascii_lower_code(c: char) -> (r: u32)
    ensures
        r as int == ascii_lower(c),
{
    if 'A' <= c && c <= 'Z' {
        c as u32 + 32
    } else {
        c as u32
    }
}

/// Whether `a` and `b` are equal up to ASCII case.
pub fn eq_ignore_ascii_case(a: &str, b: &str) -> (r: bool)
    ensures
        r == eq_ignore_ascii_case_spec(a@, b@),
{
    let n = a.unicode_len();
    if n != b.unicode_len() {
        return false;
    }
    let mut i: usize = 0;
    while i < n
        invariant
            n == a@.len(),
            n == b@.len(),
            i <= n,
            forall|k: int| 0 <= k < i ==> ascii_lower(a@[k]) == ascii_lower(b@[k]),
        decreases n - i,
    {
        if ascii_lower_code(a.get_char(i)) != ascii_lower_code(b.get_char(i)) {
            return false;
        }
        i = i + 1;
    }
    true
}

/// Whether the answer to "Update? [y/N]" accepts.
pub fn confirms(answer: &str) -> (r: bool)
    ensures
        r == confirms_spec(answer@),
{
    eq_ignore_ascii_case(answer, "y") || eq_ignore_ascii_case(answer, "yes")
}

/// What self-update does once the latest release is known.
#[derive(Debug, PartialEq, Eq)]
pub enum UpdateAction {
    /// Nothing: the running version is the latest.
    UpToDate,
    /// Ask the user before installing release `tag`.
    Ask { tag: String },
    /// Install release `tag` without asking.
    Install { tag: String },
}

/// The next step after the version check: nothing when up to date; when a
/// newer release exists, install it at once under `--yes`, else ask first.
pub fn update_action(check: UpdateCheck, yes: bool) -> (r: UpdateAction)
    ensures
        match check {
            UpdateCheck::UpToDate => r is UpToDate,
            UpdateCheck::Newer { tag } => if yes {
                r matches UpdateAction::Install { tag: t } && t@ == tag@
            } else {
                r matches UpdateAction::Ask { tag: t } && t@ == tag@
            },
        },
{
    match check {
        UpdateCheck::UpToDate => UpdateAction::UpToDate,
        UpdateCheck::Newer { tag } => if yes {
            UpdateAction::Install { tag }
        } else {
            UpdateAction::Ask { tag }
        },
    }
}

/// Whether to install after asking: only when an answer was read and it
/// accepts; a failed read or any other answer cancels.
pub fn install_after_answer(answer: Option<&str>) -> (r: bool)
    ensures
        r == (answer matches Some(a) && confirms_spec(a@)),
{
    match answer {
        Some(a) => confirms(a),
        None => false,
    }
}

} // verus!
