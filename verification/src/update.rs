//! Self-update decisions: version comparison, the GitHub release assets that
//! may be trusted, checksum files, installer headers, and the status shown to
//! the user. Downloading and launching stay with the shell.
use vstd::prelude::*;

use crate::locale::{self, LocaleSetting};
use crate::model::Notification;
use crate::notifications;
use crate::text;
use crate::text::{decimal, views};
use crate::urls::{self, UrlParts};

verus! {

pub const MAX_INSTALLER_BYTES: u64 = 268435456;

/// Where the latest release is announced.
pub const LATEST_RELEASE_API: &'static str =
    "https://api.github.com/repos/Quill-00/mosaic-desktop-automation/releases/latest";

/// A release checksum file is at most this long.
pub const MAX_CHECKSUM_BYTES: usize = 4096;

// ---------------------------------------------------------------------------
// Versions
// ---------------------------------------------------------------------------

/// The numeric parts of a version: surrounding whitespace, leading `v`/`V`
/// and any `-suffix` dropped, then each `.`-separated part read as a number
/// (0 when it is not one).
pub open spec fn version_parts(v: Seq<char>) -> Seq<u64> {
    let t = text::strip_leading(text::trim(v), text::sep_either('v', 'V'));
    let stable = text::split_by(t, text::sep_either('-', '-'))[0];
    text::split_by(stable, text::sep_either('.', '.')).map_values(
        |p: Seq<char>|
            match text::parse_unsigned(p, u64::MAX as nat) {
                Some(n) => n as u64,
                None => 0u64,
            },
    )
}

pub open spec fn part_at(s: Seq<u64>, i: int) -> u64 {
    if 0 <= i < s.len() {
        s[i]
    } else {
        0
    }
}

pub open spec fn max_len(a: Seq<u64>, b: Seq<u64>) -> int {
    if a.len() >= b.len() {
        a.len() as int
    } else {
        b.len() as int
    }
}

/// Compares the parts from index `i` on, missing parts counting as 0.
pub open spec fn compare_from(a: Seq<u64>, b: Seq<u64>, i: int) -> int
    decreases max_len(a, b) - i,
{
    if i >= max_len(a, b) || i < 0 {
        0
    } else if part_at(a, i) < part_at(b, i) {
        -1
    } else if part_at(a, i) > part_at(b, i) {
        1
    } else {
        compare_from(a, b, i + 1)
    }
}

pub open spec fn compare_versions_spec(left: Seq<char>, right: Seq<char>) -> int {
    compare_from(version_parts(left), version_parts(right), 0)
}

fn parse_or_zero(p: &Vec<char>) -> (res: u64)
    ensures
        res == (match text::parse_unsigned(p@, u64::MAX as nat) {
            Some(n) => n as u64,
            None => 0u64,
        }),
{
    match text::parse_unsigned_chars(p, 18446744073709551615u64) {
        Some(n) => n,
        None => 0,
    }
}

fn version_parts_exec(v: &str) -> (res: Vec<u64>)
    ensures
        res@ == version_parts(v@),
{
    let trimmed = text::trim_str(v);
    let t = text::strip_leading_either(&trimmed, 'v', 'V');
    let dash = text::split_on(&t, '-', '-');
    let dots = text::split_on(&dash[0], '.', '.');
    let ghost pieces = text::char_views(dots@);
    let mut res: Vec<u64> = Vec::new();
    let mut i: usize = 0;
    while i < dots.len()
        invariant
            i <= dots.len(),
            pieces == text::char_views(dots@),
            res@.len() == i,
            forall|k: int|
                0 <= k < i ==> #[trigger] res@[k] == (match text::parse_unsigned(
                    pieces[k],
                    u64::MAX as nat,
                ) {
                    Some(n) => n as u64,
                    None => 0u64,
                }),
        decreases dots.len() - i,
    {
        res.push(parse_or_zero(&dots[i]));
        i += 1;
    }
    assert(res@ =~= version_parts(v@));
    res
}

/// Compares two versions loosely: `-1`, `0` or `1`. `1.0` equals `1.0.0`;
/// non-numeric parts count as 0.
pub fn compare_versions(left: &str, right: &str) -> (res: i8)
    ensures
        res as int == compare_versions_spec(left@, right@),
        res == -1 || res == 0 || res == 1,
{
    let a = version_parts_exec(left);
    let b = version_parts_exec(right);
    let n = if a.len() >= b.len() {
        a.len()
    } else {
        b.len()
    };
    let mut i: usize = 0;
    while i < n
        invariant
            i <= n,
            n == max_len(a@, b@),
            a@ == version_parts(left@),
            b@ == version_parts(right@),
            compare_from(a@, b@, 0) == compare_from(a@, b@, i as int),
        decreases n - i,
    {
        let x = if i < a.len() {
            a[i]
        } else {
            0
        };
        let y = if i < b.len() {
            b[i]
        } else {
            0
        };
        if x < y {
            return -1;
        }
        if x > y {
            return 1;
        }
        i += 1;
    }
    0
}

proof fn lemma_no_ws_no_v(s: Seq<char>)
    requires
        s.len() > 0,
        is_ascii_digit_char(s[0]),
        is_ascii_digit_char(s.last()),
    ensures
        text::strip_leading(text::trim(s), text::sep_either('v', 'V')) == s,
{
    assert(!text::is_ws(s[0]));
    assert(text::trim_start(s) == s);
    assert(!text::is_ws(s.last()));
    assert(text::trim_end(s) == s);
    assert(!(text::sep_either('v', 'V'))(s[0]));
}

pub open spec fn is_ascii_digit_char(c: char) -> bool {
    '0' <= c <= '9'
}

/// Splitting a text extended by one character.
proof fn lemma_split_push(s: Seq<char>, sep: spec_fn(char) -> bool, c: char)
    ensures
        text::split_by(s.push(c), sep) == (if sep(c) {
            text::split_by(s, sep).push(Seq::<char>::empty())
        } else {
            let init = text::split_by(s, sep);
            init.update(init.len() - 1, init.last().push(c))
        }),
{
    assert(s.push(c).drop_last() =~= s);
}

/// The pieces of a text split at `sep`, given the pieces of the text
/// without its last character.
proof fn lemma_split_of(s: Seq<char>, sep: spec_fn(char) -> bool, init: Seq<Seq<char>>)
    requires
        s.len() > 0,
        text::split_by(s.drop_last(), sep) == init,
    ensures
        text::split_by(s, sep) == (if sep(s.last()) {
            init.push(Seq::<char>::empty())
        } else {
            init.update(init.len() - 1, init.last().push(s.last()))
        }),
{
}

/// A text without the separator is one piece.
proof fn lemma_split_no_sep(s: Seq<char>, sep: spec_fn(char) -> bool)
    requires
        forall|i: int| 0 <= i < s.len() ==> !sep(#[trigger] s[i]),
    ensures
        text::split_by(s, sep) == seq![s],
    decreases s.len(),
{
    if s.len() > 0 {
        lemma_split_no_sep(s.drop_last(), sep);
        assert(s.drop_last().push(s.last()) =~= s);
        assert(seq![s.drop_last()].update(0, s.drop_last().push(s.last())) =~= seq![s]);
    } else {
        assert(s =~= Seq::<char>::empty());
    }
}

/// The first piece of a split is the text before the first separator.
proof fn lemma_split_first(p: Seq<char>, c: char, q: Seq<char>, sep: spec_fn(char) -> bool)
    requires
        forall|i: int| 0 <= i < p.len() ==> !sep(#[trigger] p[i]),
        sep(c),
    ensures
        text::split_by(p + seq![c] + q, sep).len() >= 2,
        text::split_by(p + seq![c] + q, sep)[0] == p,
    decreases q.len(),
{
    if q.len() == 0 {
        lemma_split_no_sep(p, sep);
        assert(p + seq![c] + q =~= p.push(c));
        lemma_split_push(p, sep, c);
    } else {
        lemma_split_first(p, c, q.drop_last(), sep);
        assert(p + seq![c] + q =~= (p + seq![c] + q.drop_last()).push(q.last()));
        lemma_split_push(p + seq![c] + q.drop_last(), sep, q.last());
    }
}

proof fn lemma_parse_digits(p: Seq<char>, n: nat)
    requires
        p.len() > 0,
        p[0] != '+',
        text::all_digits(p),
        text::digits_value(p) == n,
        n <= u64::MAX,
    ensures
        text::parse_unsigned(p, u64::MAX as nat) == Some(n),
{
}

/// The version order on examples: numbers are compared as numbers, and a
/// leading `v` and a pre-release suffix are ignored.
pub proof fn lemma_compare_examples()
    ensures
        compare_versions_spec("0.10.0"@, "0.9.0"@) == 1,
        compare_versions_spec("v1.2.3-beta"@, "1.2.3"@) == 0,
        compare_versions_spec(seq!['0', '.', '1', '0', '.', '0'], seq!['0', '.', '9', '.', '0']) == 1,
        compare_versions_spec(
            seq!['v', '1', '.', '2', '.', '3', '-', 'b', 'e', 't', 'a'],
            seq!['1', '.', '2', '.', '3'],
        ) == 0,
{
    let dash = text::sep_either('-', '-');
    let dot = text::sep_either('.', '.');
    // "0.10.0"
    let a = seq!['0', '.', '1', '0', '.', '0'];
    lemma_no_ws_no_v(a);
    lemma_split_no_sep(a, dash);
    assert(text::split_by(a, dash) =~= seq![a]);
    let e = Seq::<char>::empty();
    assert(text::split_by(e, dot) =~= seq![e]);
    lemma_split_of(a.take(1), dot, seq![e]);
    assert(a.take(1).drop_last() =~= e);
    assert(text::split_by(a.take(1), dot) =~= seq![seq!['0']]);
    assert(a.take(2).drop_last() =~= a.take(1));
    lemma_split_of(a.take(2), dot, seq![seq!['0']]);
    assert(text::split_by(a.take(2), dot) =~= seq![seq!['0'], e]);
    assert(a.take(3).drop_last() =~= a.take(2));
    lemma_split_of(a.take(3), dot, seq![seq!['0'], e]);
    assert(text::split_by(a.take(3), dot) =~= seq![seq!['0'], seq!['1']]);
    assert(a.take(4).drop_last() =~= a.take(3));
    assert(a.take(4).last() == '0');
    assert(seq!['1'].push('0') =~= seq!['1', '0']);
    lemma_split_of(a.take(4), dot, seq![seq!['0'], seq!['1']]);
    assert(text::split_by(a.take(4), dot) =~= seq![seq!['0'], seq!['1', '0']]);
    assert(a.take(5).drop_last() =~= a.take(4));
    lemma_split_of(a.take(5), dot, seq![seq!['0'], seq!['1', '0']]);
    assert(text::split_by(a.take(5), dot) =~= seq![seq!['0'], seq!['1', '0'], e]);
    assert(a.drop_last() =~= a.take(5));
    lemma_split_of(a, dot, seq![seq!['0'], seq!['1', '0'], e]);
    assert(text::split_by(a, dot) =~= seq![seq!['0'], seq!['1', '0'], seq!['0']]);
    reveal_with_fuel(text::digits_value, 3);
    lemma_parse_digits(seq!['0'], 0);
    lemma_parse_digits(seq!['1', '0'], 10);
    assert(version_parts(a) =~= seq![0u64, 10u64, 0u64]);
    // "0.9.0"
    let b = seq!['0', '.', '9', '.', '0'];
    lemma_no_ws_no_v(b);
    lemma_split_no_sep(b, dash);
    assert(text::split_by(b, dash) =~= seq![b]);
    assert(b.take(1).drop_last() =~= e);
    lemma_split_of(b.take(1), dot, seq![e]);
    assert(text::split_by(b.take(1), dot) =~= seq![seq!['0']]);
    assert(b.take(2).drop_last() =~= b.take(1));
    lemma_split_of(b.take(2), dot, seq![seq!['0']]);
    assert(text::split_by(b.take(2), dot) =~= seq![seq!['0'], e]);
    assert(b.take(3).drop_last() =~= b.take(2));
    lemma_split_of(b.take(3), dot, seq![seq!['0'], e]);
    assert(text::split_by(b.take(3), dot) =~= seq![seq!['0'], seq!['9']]);
    assert(b.take(4).drop_last() =~= b.take(3));
    lemma_split_of(b.take(4), dot, seq![seq!['0'], seq!['9']]);
    assert(text::split_by(b.take(4), dot) =~= seq![seq!['0'], seq!['9'], e]);
    assert(b.drop_last() =~= b.take(4));
    lemma_split_of(b, dot, seq![seq!['0'], seq!['9'], e]);
    assert(text::split_by(b, dot) =~= seq![seq!['0'], seq!['9'], seq!['0']]);
    lemma_parse_digits(seq!['9'], 9);
    assert(version_parts(b) =~= seq![0u64, 9u64, 0u64]);
    reveal_with_fuel(compare_from, 3);
    assert(compare_from(seq![0u64, 10u64, 0u64], seq![0u64, 9u64, 0u64], 0) == 1);
    // "1.2.3"
    let c = seq!['1', '.', '2', '.', '3'];
    lemma_no_ws_no_v(c);
    lemma_split_no_sep(c, dash);
    assert(c.take(1).drop_last() =~= e);
    lemma_split_of(c.take(1), dot, seq![e]);
    assert(text::split_by(c.take(1), dot) =~= seq![seq!['1']]);
    assert(c.take(2).drop_last() =~= c.take(1));
    lemma_split_of(c.take(2), dot, seq![seq!['1']]);
    assert(text::split_by(c.take(2), dot) =~= seq![seq!['1'], e]);
    assert(c.take(3).drop_last() =~= c.take(2));
    lemma_split_of(c.take(3), dot, seq![seq!['1'], e]);
    assert(text::split_by(c.take(3), dot) =~= seq![seq!['1'], seq!['2']]);
    assert(c.take(4).drop_last() =~= c.take(3));
    lemma_split_of(c.take(4), dot, seq![seq!['1'], seq!['2']]);
    assert(text::split_by(c.take(4), dot) =~= seq![seq!['1'], seq!['2'], e]);
    assert(c.drop_last() =~= c.take(4));
    lemma_split_of(c, dot, seq![seq!['1'], seq!['2'], e]);
    assert(text::split_by(c, dot) =~= seq![seq!['1'], seq!['2'], seq!['3']]);
    lemma_parse_digits(seq!['1'], 1);
    lemma_parse_digits(seq!['2'], 2);
    lemma_parse_digits(seq!['3'], 3);
    assert(version_parts(c) =~= seq![1u64, 2u64, 3u64]);
    // "v1.2.3-beta"
    let d = seq!['v', '1', '.', '2', '.', '3', '-', 'b', 'e', 't', 'a'];
    assert(!text::is_ws(d[0]));
    assert(text::trim_start(d) == d);
    assert(!text::is_ws(d.last()));
    assert(text::trim_end(d) == d);
    let rest = seq!['1', '.', '2', '.', '3', '-', 'b', 'e', 't', 'a'];
    assert(d.drop_first() =~= rest);
    assert(!(text::sep_either('v', 'V'))(rest[0]));
    assert(text::strip_leading(rest, text::sep_either('v', 'V')) == rest);
    assert(text::strip_leading(d, text::sep_either('v', 'V')) == rest);
    assert(rest =~= c + seq!['-'] + seq!['b', 'e', 't', 'a']);
    lemma_split_first(c, '-', seq!['b', 'e', 't', 'a'], dash);
    assert(version_parts(d) =~= seq![1u64, 2u64, 3u64]);
    lemma_compare_from_reflexive(seq![1u64, 2u64, 3u64], 0);
    reveal_strlit("0.10.0");
    reveal_strlit("0.9.0");
    reveal_strlit("v1.2.3-beta");
    reveal_strlit("1.2.3");
    assert("0.10.0"@ =~= a);
    assert("0.9.0"@ =~= b);
    assert("v1.2.3-beta"@ =~= d);
    assert("1.2.3"@ =~= c);
}

/// Versions compare as an antisymmetric relation.
pub proof fn lemma_compare_antisymmetric(left: Seq<char>, right: Seq<char>)
    ensures
        compare_versions_spec(left, right) == -compare_versions_spec(right, left),
{
    lemma_compare_from_antisymmetric(version_parts(left), version_parts(right), 0);
}

proof fn lemma_compare_from_antisymmetric(a: Seq<u64>, b: Seq<u64>, i: int)
    ensures
        compare_from(a, b, i) == -compare_from(b, a, i),
    decreases max_len(a, b) - i,
{
    if i < max_len(a, b) && i >= 0 {
        lemma_compare_from_antisymmetric(a, b, i + 1);
    }
}

/// Every version compares equal to itself.
pub proof fn lemma_compare_reflexive(v: Seq<char>)
    ensures
        compare_versions_spec(v, v) == 0,
{
    lemma_compare_from_reflexive(version_parts(v), 0);
}

proof fn lemma_compare_from_reflexive(a: Seq<u64>, i: int)
    ensures
        compare_from(a, a, i) == 0,
    decreases max_len(a, a) - i,
{
    if i < max_len(a, a) && i >= 0 {
        lemma_compare_from_reflexive(a, i + 1);
    }
}

proof fn lemma_compare_from_bound(a: Seq<u64>, b: Seq<u64>, i: int, n: int)
    requires
        0 <= i,
        n >= max_len(a, b),
    ensures
        compare_from(a, b, i) == compare_upto(a, b, i, n),
    decreases n - i,
{
    if i < n {
        lemma_compare_from_bound(a, b, i + 1, n);
    }
}

/// The comparison carried on up to index `n`.
pub open spec fn compare_upto(a: Seq<u64>, b: Seq<u64>, i: int, n: int) -> int
    decreases n - i,
{
    if i >= n || i < 0 {
        0
    } else if part_at(a, i) < part_at(b, i) {
        -1
    } else if part_at(a, i) > part_at(b, i) {
        1
    } else {
        compare_upto(a, b, i + 1, n)
    }
}

proof fn lemma_compare_upto_transitive(a: Seq<u64>, b: Seq<u64>, c: Seq<u64>, i: int, n: int)
    requires
        0 <= i,
        compare_upto(a, b, i, n) <= 0,
        compare_upto(b, c, i, n) <= 0,
    ensures
        compare_upto(a, c, i, n) <= 0,
    decreases n - i,
{
    if i < n {
        if part_at(a, i) == part_at(b, i) && part_at(b, i) == part_at(c, i) {
            lemma_compare_upto_transitive(a, b, c, i + 1, n);
        }
    }
}

/// "Not newer than" is transitive.
pub proof fn lemma_compare_transitive(a: Seq<char>, b: Seq<char>, c: Seq<char>)
    requires
        compare_versions_spec(a, b) <= 0,
        compare_versions_spec(b, c) <= 0,
    ensures
        compare_versions_spec(a, c) <= 0,
{
    let (x, y, z) = (version_parts(a), version_parts(b), version_parts(c));
    let n = max_len(x, y) + max_len(y, z) + max_len(x, z);
    lemma_compare_from_bound(x, y, 0, n);
    lemma_compare_from_bound(y, z, 0, n);
    lemma_compare_from_bound(x, z, 0, n);
    lemma_compare_upto_transitive(x, y, z, 0, n);
}

// ---------------------------------------------------------------------------
// Checksums and names
// ---------------------------------------------------------------------------

pub open spec fn is_sha256_spec(v: Seq<char>) -> bool {
    v.len() == 64 && forall|i: int| 0 <= i < v.len() ==> text::is_ascii_hex(#[trigger] v[i])
}

fn is_sha256_chars(v: &Vec<char>) -> (res: bool)
    ensures
        res == is_sha256_spec(v@),
{
    if v.len() != 64 {
        return false;
    }
    let mut i: usize = 0;
    while i < v.len()
        invariant
            i <= v.len(),
            forall|k: int| 0 <= k < i ==> text::is_ascii_hex(#[trigger] v@[k]),
        decreases v.len() - i,
    {
        if !text::is_hex(v[i]) {
            return false;
        }
        i += 1;
    }
    true
}

/// A complete SHA-256 digest in hexadecimal: 64 hex digits.
pub fn is_sha256(value: &str) -> (res: bool)
    ensures
        res == is_sha256_spec(value@),
{
    let v = text::chars_of(value);
    is_sha256_chars(&v)
}

pub open spec fn checksum_format_error() -> Seq<char> {
    "GitHub Release 的 SHA-256 文件格式无效"@
}

/// A checksum file holds a hex digest, then the installer's name (with an
/// optional `*` before it) and nothing else; the digest comes back in lower
/// case.
pub open spec fn parse_release_checksum_spec(text: Seq<char>, installer_name: Seq<char>) -> Result<
    Seq<char>,
    Seq<char>,
> {
    let w = text::words(text);
    let checksum = text::ascii_lower(
        if w.len() > 0 {
            w[0]
        } else {
            Seq::empty()
        },
    );
    let file = text::strip_leading(
        if w.len() > 1 {
            w[1]
        } else {
            Seq::empty()
        },
        text::sep_either('*', '*'),
    );
    if !is_sha256_spec(checksum) || file != installer_name || w.len() > 2 {
        Err(checksum_format_error())
    } else {
        Ok(checksum)
    }
}

pub open spec fn res_view(r: Result<String, String>) -> Result<Seq<char>, Seq<char>> {
    match r {
        Ok(s) => Ok(s@),
        Err(e) => Err(e@),
    }
}

pub fn parse_release_checksum(text: &str, installer_name: &str) -> (res: Result<String, String>)
    ensures
        res_view(res) == parse_release_checksum_spec(text@, installer_name@),
        res matches Ok(c) ==> is_sha256_spec(c@),
{
    let chars = text::chars_of(text);
    let w = text::split_whitespace(&chars);
    let first = if w.len() > 0 {
        text::clone_chars(&w[0])
    } else {
        Vec::new()
    };
    let checksum = text::ascii_lowercase(&first);
    let second = if w.len() > 1 {
        text::clone_chars(&w[1])
    } else {
        Vec::new()
    };
    let file = text::strip_leading_either(&second, '*', '*');
    let name = text::chars_of(installer_name);
    if !is_sha256_chars(&checksum) || !text::eq_chars(&file, &name) || w.len() > 2 {
        return Err(text::string_from("GitHub Release 的 SHA-256 文件格式无效"));
    }
    Ok(text::string_of(&checksum))
}

/// A single path component: non-empty, at most 160 bytes, without `/`, `\`
/// or `:`, and neither `.` nor `..`.
pub open spec fn safe_file_component_spec(v: Seq<char>) -> bool {
    &&& v.len() > 0
    &&& vstd::utf8::encode_utf8(v).len() <= 160
    &&& !text::has_char(v, '/')
    &&& !text::has_char(v, '\\')
    &&& !text::has_char(v, ':')
    &&& v != "."@
    &&& v != ".."@
}

pub fn safe_file_component(value: &str) -> (res: bool)
    ensures
        res == safe_file_component_spec(value@),
{
    let v = text::chars_of(value);
    let bytes = value.as_bytes();
    v.len() > 0 && bytes.len() <= 160 && !text::has_char_exec(&v, '/') && !text::has_char_exec(
        &v,
        '\\',
    ) && !text::has_char_exec(&v, ':') && !text::eq_str(&v, ".") && !text::eq_str(&v, "..")
}

pub open spec fn version_char(c: char) -> bool {
    text::is_ascii_alnum(c) || c == '.' || c == '-' || c == '_'
}

/// The version as a directory name: its ASCII letters, digits, `.`, `-`
/// and `_`, at most 64 of them, or `unknown` when none is left.
pub open spec fn safe_version_component_spec(v: Seq<char>) -> Seq<char> {
    let kept = v.filter(|c: char| version_char(c));
    let safe = if kept.len() > 64 {
        kept.take(64)
    } else {
        kept
    };
    if safe.len() == 0 {
        "unknown"@
    } else {
        safe
    }
}

pub fn safe_version_component(value: &str) -> (res: String)
    ensures
        res@ == safe_version_component_spec(value@),
{
    let v = text::chars_of(value);
    let ghost keep = |c: char| version_char(c);
    let mut kept: Vec<char> = Vec::new();
    let mut i: usize = 0;
    proof {
        reveal(Seq::filter);
        assert(v@.take(0) =~= Seq::<char>::empty());
    }
    while i < v.len()
        invariant
            i <= v.len(),
            keep == (|c: char| version_char(c)),
            kept@ == v@.take(i as int).filter(keep),
        decreases v.len() - i,
    {
        proof {
            assert(v@.take(i + 1) =~= v@.take(i as int).push(v@[i as int]));
            text::lemma_filter_push(v@.take(i as int), keep, v@[i as int]);
        }
        let c = v[i];
        if text::is_alnum(c) || c == '.' || c == '-' || c == '_' {
            kept.push(c);
        }
        i += 1;
    }
    assert(v@.take(v.len() as int) =~= v@);
    if kept.len() > 64 {
        kept.truncate(64);
    }
    if kept.len() == 0 {
        text::string_from("unknown")
    } else {
        text::string_of(&kept)
    }
}

// ---------------------------------------------------------------------------
// Trusted release locations
// ---------------------------------------------------------------------------

pub open spec fn release_prefix() -> Seq<char> {
    "/Quill-00/mosaic-desktop-automation/releases/download/"@
}

pub open spec fn url_format_error() -> Seq<char> {
    "GitHub 下载地址格式无效"@
}

pub open spec fn url_origin_error() -> Seq<char> {
    "更新只接受无凭据的 GitHub Releases HTTPS 地址"@
}

pub open spec fn url_path_error() -> Seq<char> {
    "更新地址不属于 Mosaic 的 GitHub Release"@
}

/// A credential-free `https://github.com` URL without query or fragment.
pub open spec fn release_origin_spec(value: Seq<char>) -> Result<urls::UrlView, Seq<char>> {
    match urls::url_parse_spec(value) {
        None => Err(url_format_error()),
        Some(u) => if u.scheme != "https"@ || u.host != Some("github.com"@) || u.username.len()
            > 0 || u.password.is_some() || u.query.is_some() || u.fragment.is_some() {
            Err(url_origin_error())
        } else {
            Ok(u)
        },
    }
}

/// Only credential-free `https://github.com` URLs without query or fragment
/// under this project's release downloads, ending in `.exe`, are accepted.
pub open spec fn release_url_spec(value: Seq<char>) -> Result<urls::UrlView, Seq<char>> {
    match release_origin_spec(value) {
        Err(e) => Err(e),
        Ok(u) => if !text::starts_with(u.path, release_prefix()) || !text::ends_with(
            text::ascii_lower(u.path),
            ".exe"@,
        ) {
            Err(url_path_error())
        } else {
            Ok(u)
        },
    }
}

pub open spec fn url_res_view(r: Result<UrlParts, String>) -> Result<urls::UrlView, Seq<char>> {
    match r {
        Ok(u) => Ok(u@),
        Err(e) => Err(e@),
    }
}

fn opt_is(o: &Option<String>, s: &str) -> (res: bool)
    ensures
        res == (urls::ov(*o) == Some(s@)),
{
    match o {
        Some(v) => text::str_eq(v.as_str(), s),
        None => false,
    }
}

fn github_origin(value: &str) -> (res: Result<UrlParts, String>)
    ensures
        url_res_view(res) == release_origin_spec(value@),
{
    let parsed = match urls::parse(value) {
        Ok(u) => u,
        Err(_) => return Err(text::string_from("GitHub 下载地址格式无效")),
    };
    let user = text::chars_of(parsed.username.as_str());
    if !text::str_eq(parsed.scheme.as_str(), "https") || !opt_is(&parsed.host, "github.com")
        || user.len() > 0 || parsed.password.is_some() || parsed.query.is_some()
        || parsed.fragment.is_some() {
        return Err(text::string_from("更新只接受无凭据的 GitHub Releases HTTPS 地址"));
    }
    Ok(parsed)
}

pub fn validate_github_release_url(value: &str) -> (res: Result<UrlParts, String>)
    ensures
        url_res_view(res) == release_url_spec(value@),
{
    let parsed = match github_origin(value) {
        Ok(u) => u,
        Err(e) => return Err(e),
    };
    let path = text::chars_of(parsed.path.as_str());
    let lower = text::ascii_lowercase(&path);
    if !text::starts_with_str(&path, "/Quill-00/mosaic-desktop-automation/releases/download/")
        || !text::ends_with_str(&lower, ".exe") {
        return Err(text::string_from("更新地址不属于 Mosaic 的 GitHub Release"));
    }
    Ok(parsed)
}

pub open spec fn asset_name_error() -> Seq<char> {
    "GitHub Release 标签或文件名无效"@
}

pub open spec fn asset_mismatch_error() -> Seq<char> {
    "GitHub Release 资产与版本不匹配"@
}

/// A release asset URL is a credential-free GitHub HTTPS URL sitting exactly
/// at `<prefix><tag>/<file name>` (the installer or its checksum file).
pub open spec fn release_asset_url_spec(value: Seq<char>, tag: Seq<char>, file_name: Seq<char>) -> Result<
    urls::UrlView,
    Seq<char>,
> {
    match release_origin_spec(value) {
        Err(e) => Err(e),
        Ok(u) => if !safe_file_component_spec(tag) || !safe_file_component_spec(file_name) {
            Err(asset_name_error())
        } else if u.path != release_prefix() + tag + "/"@ + file_name {
            Err(asset_mismatch_error())
        } else {
            Ok(u)
        },
    }
}

pub fn validate_github_release_asset_url(value: &str, tag: &str, file_name: &str) -> (res: Result<
    UrlParts,
    String,
>)
    ensures
        url_res_view(res) == release_asset_url_spec(value@, tag@, file_name@),
{
    let parsed = match github_origin(value) {
        Ok(u) => u,
        Err(e) => return Err(e),
    };
    if !safe_file_component(tag) || !safe_file_component(file_name) {
        return Err(text::string_from("GitHub Release 标签或文件名无效"));
    }
    let mut expected = text::chars_of("/Quill-00/mosaic-desktop-automation/releases/download/");
    text::append_str(&mut expected, tag);
    text::append_str(&mut expected, "/");
    text::append_str(&mut expected, file_name);
    let path = text::chars_of(parsed.path.as_str());
    if !text::eq_chars(&path, &expected) {
        return Err(text::string_from("GitHub Release 资产与版本不匹配"));
    }
    Ok(parsed)
}

// ---------------------------------------------------------------------------
// Choosing the release to download
// ---------------------------------------------------------------------------

/// One asset of a GitHub release.
#[derive(Debug, Clone)]
pub struct ReleaseAsset {
    pub name: String,
    pub browser_download_url: String,
}

/// A newer release whose installer and checksum file passed the location
/// checks; the checksum still has to be fetched.
#[derive(Debug, Clone)]
pub struct ReleaseCandidate {
    pub version: String,
    pub installer_name: String,
    pub download_url: String,
    pub checksum_url: String,
}

pub open spec fn installer_name_of(version: Seq<char>) -> Seq<char> {
    "Mosaic-Setup-"@ + version + ".exe"@
}

pub open spec fn asset_views(a: Seq<ReleaseAsset>) -> Seq<(Seq<char>, Seq<char>)> {
    a.map_values(|x: ReleaseAsset| (x.name@, x.browser_download_url@))
}

/// The download URL of the first asset with this name.
pub open spec fn find_asset(a: Seq<(Seq<char>, Seq<char>)>, name: Seq<char>) -> Option<Seq<char>>
    decreases a.len(),
{
    if a.len() == 0 {
        None
    } else if a[0].0 == name {
        Some(a[0].1)
    } else {
        find_asset(a.drop_first(), name)
    }
}

pub open spec fn candidate_view(c: ReleaseCandidate) -> (Seq<char>, Seq<char>, Seq<char>, Seq<char>) {
    (c.version@, c.installer_name@, c.download_url@, c.checksum_url@)
}

/// The outcome of reading the latest release: `Ok(None)` when it is not
/// newer than `current`, the candidate when its assets check out, or the
/// first problem found.
pub open spec fn select_release_spec(
    tag_name: Seq<char>,
    assets: Seq<(Seq<char>, Seq<char>)>,
    current: Seq<char>,
) -> Result<Option<(Seq<char>, Seq<char>, Seq<char>, Seq<char>)>, Seq<char>> {
    let tag = text::trim(tag_name);
    let version = text::strip_leading(text::trim(tag), text::sep_either('v', 'V'));
    let installer = installer_name_of(version);
    let checksum = installer + ".sha256"@;
    if version.len() == 0 {
        Err("GitHub Release 缺少版本号"@)
    } else if compare_versions_spec(current, version) >= 0 {
        Ok(None)
    } else {
        match find_asset(assets, installer) {
            None => Err("GitHub Release 缺少 "@ + installer),
            Some(download) => match find_asset(assets, checksum) {
                None => Err("GitHub Release 缺少 "@ + checksum),
                Some(sum) => match release_asset_url_spec(download, tag, installer) {
                    Err(e) => Err(e),
                    Ok(_) => match release_asset_url_spec(sum, tag, checksum) {
                        Err(e) => Err(e),
                        Ok(_) => Ok(Some((version, installer, download, sum))),
                    },
                },
            },
        }
    }
}

fn find_asset_exec(assets: &Vec<ReleaseAsset>, name: &Vec<char>) -> (res: Option<String>)
    ensures
        urls::ov(res) == find_asset(asset_views(assets@), name@),
{
    let ghost a = asset_views(assets@);
    let mut i: usize = 0;
    assert(a.skip(0) =~= a);
    while i < assets.len()
        invariant
            i <= assets.len(),
            a == asset_views(assets@),
            find_asset(a, name@) == find_asset(a.skip(i as int), name@),
        decreases assets.len() - i,
    {
        let n = text::chars_of(assets[i].name.as_str());
        proof {
            let t = a.skip(i as int);
            assert(t[0] == a[i as int]);
            assert(t.drop_first() =~= a.skip(i + 1));
        }
        if text::eq_chars(&n, name) {
            return Some(text::copy_string(&assets[i].browser_download_url));
        }
        i += 1;
    }
    assert(a.skip(assets.len() as int) =~= Seq::<(Seq<char>, Seq<char>)>::empty());
    None
}

pub open spec fn candidate_res_view(r: Result<Option<ReleaseCandidate>, String>) -> Result<
    Option<(Seq<char>, Seq<char>, Seq<char>, Seq<char>)>,
    Seq<char>,
> {
    match r {
        Ok(Some(c)) => Ok(Some(candidate_view(c))),
        Ok(None) => Ok(None),
        Err(e) => Err(e@),
    }
}

/// Picks the installer and checksum of the latest release (by its tag and
/// assets) when it is newer than the running version `current`.
pub fn select_release(tag_name: &str, assets: &Vec<ReleaseAsset>, current: &str) -> (res: Result<
    Option<ReleaseCandidate>,
    String,
>)
    ensures
        candidate_res_view(res) == select_release_spec(tag_name@, asset_views(assets@), current@),
{
    let tag_chars = text::trim_str(tag_name);
    let tag = text::string_of(&tag_chars);
    let again = text::trim_chars(&tag_chars);
    proof {
        lemma_trim_idempotent(tag_name@);
    }
    let version_chars = text::strip_leading_either(&again, 'v', 'V');
    if version_chars.len() == 0 {
        return Err(text::string_from("GitHub Release 缺少版本号"));
    }
    let version = text::string_of(&version_chars);
    if compare_versions(current, version.as_str()) >= 0 {
        return Ok(None);
    }
    let mut installer = text::chars_of("Mosaic-Setup-");
    text::append_chars(&mut installer, &version_chars);
    text::append_str(&mut installer, ".exe");
    let mut checksum = text::clone_chars(&installer);
    text::append_str(&mut checksum, ".sha256");
    let download = match find_asset_exec(assets, &installer) {
        Some(u) => u,
        None => {
            let mut msg = text::chars_of("GitHub Release 缺少 ");
            text::append_chars(&mut msg, &installer);
            return Err(text::string_of(&msg));
        },
    };
    let sum = match find_asset_exec(assets, &checksum) {
        Some(u) => u,
        None => {
            let mut msg = text::chars_of("GitHub Release 缺少 ");
            text::append_chars(&mut msg, &checksum);
            return Err(text::string_of(&msg));
        },
    };
    let installer_name = text::string_of(&installer);
    let checksum_name = text::string_of(&checksum);
    match validate_github_release_asset_url(download.as_str(), tag.as_str(), installer_name.as_str()) {
        Err(e) => return Err(e),
        Ok(_) => {},
    }
    match validate_github_release_asset_url(sum.as_str(), tag.as_str(), checksum_name.as_str()) {
        Err(e) => return Err(e),
        Ok(_) => {},
    }
    Ok(
        Some(
            ReleaseCandidate {
                version,
                installer_name,
                download_url: download,
                checksum_url: sum,
            },
        ),
    )
}

proof fn lemma_trim_start_idem(s: Seq<char>)
    ensures
        text::trim_start(text::trim_start(s)) == text::trim_start(s),
    decreases s.len(),
{
    if s.len() > 0 && text::is_ws(s[0]) {
        lemma_trim_start_idem(s.drop_first());
    }
}

proof fn lemma_trim_end_idem(s: Seq<char>)
    ensures
        text::trim_end(text::trim_end(s)) == text::trim_end(s),
    decreases s.len(),
{
    if s.len() > 0 && text::is_ws(s.last()) {
        lemma_trim_end_idem(s.drop_last());
    }
}

proof fn lemma_trim_end_keeps_start(s: Seq<char>)
    requires
        s.len() == 0 || !text::is_ws(s[0]),
    ensures
        text::trim_end(s).len() == 0 || !text::is_ws(text::trim_end(s)[0]),
        text::trim_end(s).len() == 0 || text::trim_end(s)[0] == s[0],
    decreases s.len(),
{
    if s.len() > 0 && text::is_ws(s.last()) {
        if s.len() > 1 {
            assert(s.drop_last()[0] == s[0]);
        }
        lemma_trim_end_keeps_start(s.drop_last());
    }
}

proof fn lemma_trim_start_of_stripped(s: Seq<char>)
    ensures
        text::trim_start(s).len() == 0 || !text::is_ws(text::trim_start(s)[0]),
    decreases s.len(),
{
    if s.len() > 0 && text::is_ws(s[0]) {
        lemma_trim_start_of_stripped(s.drop_first());
    }
}

/// Trimming twice is trimming once.
pub proof fn lemma_trim_idempotent(s: Seq<char>)
    ensures
        text::trim(text::trim(s)) == text::trim(s),
{
    let a = text::trim_start(s);
    lemma_trim_start_of_stripped(s);
    lemma_trim_end_keeps_start(a);
    let t = text::trim_end(a);
    assert(text::trim_start(t) == t);
    lemma_trim_end_idem(a);
}

/// The file name of the installer download: the URL's last path segment,
/// which must be a safe component ending in `.exe`.
pub open spec fn installer_file_name_spec(download_url: Seq<char>) -> Result<Seq<char>, Seq<char>> {
    match release_url_spec(download_url) {
        Err(e) => Err(e),
        Ok(u) => match u.segments {
            Some(segs) => if segs.len() > 0 && safe_file_component_spec(segs.last())
                && text::ends_with(text::ascii_lower(segs.last()), ".exe"@) {
                Ok(segs.last())
            } else {
                Err("GitHub 更新文件名无效"@)
            },
            None => Err("GitHub 更新文件名无效"@),
        },
    }
}

pub fn installer_file_name(download_url: &str) -> (res: Result<String, String>)
    ensures
        res_view(res) == installer_file_name_spec(download_url@),
{
    let parsed = match validate_github_release_url(download_url) {
        Ok(u) => u,
        Err(e) => return Err(e),
    };
    match &parsed.segments {
        Some(segs) => {
            if segs.len() > 0 {
                let last = &segs[segs.len() - 1];
                let chars = text::chars_of(last.as_str());
                let lower = text::ascii_lowercase(&chars);
                if safe_file_component(last.as_str()) && text::ends_with_str(&lower, ".exe") {
                    return Ok(text::copy_string(last));
                }
            }
            Err(text::string_from("GitHub 更新文件名无效"))
        },
        None => Err(text::string_from("GitHub 更新文件名无效")),
    }
}

pub open spec fn length_mismatch(content_length: Option<u64>, received: u64) -> bool {
    match content_length {
        Some(l) => l != received,
        None => false,
    }
}

pub open spec fn err_text(r: Result<(), String>) -> Seq<char> {
    match r {
        Err(e) => e@,
        Ok(_) => Seq::empty(),
    }
}

/// The final checks on a finished download: the announced length (if any)
/// must match what arrived and the digest must match the release checksum.
pub fn check_download(content_length: Option<u64>, received: u64, actual_sha256: &str, expected: &str) -> (res: Result<(), String>)
    ensures
        length_mismatch(content_length, received) ==> res is Err && err_text(res)
            == "GitHub 安装包下载不完整"@,
        !length_mismatch(content_length, received) && actual_sha256@ != expected@ ==> res is Err
            && err_text(res) == "GitHub 安装包 SHA-256 校验失败"@,
        !length_mismatch(content_length, received) && actual_sha256@ == expected@ ==> res.is_ok(),
{
    match content_length {
        Some(l) => {
            if l != received {
                return Err(text::string_from("GitHub 安装包下载不完整"));
            }
        },
        None => {},
    }
    if !text::str_eq(actual_sha256, expected) {
        return Err(text::string_from("GitHub 安装包 SHA-256 校验失败"));
    }
    Ok(())
}

/// The final checks on a finished download, given the installer's bytes:
/// what arrived is their length and its digest their SHA-256.
pub fn check_installer(content_length: Option<u64>, installer: &[u8], expected: &str) -> (res: Result<(), String>)
    ensures
        length_mismatch(content_length, installer@.len() as u64) ==> res is Err && err_text(res)
            == "GitHub 安装包下载不完整"@,
        !length_mismatch(content_length, installer@.len() as u64) && crate::digest::sha256_hex_spec(installer@)
            != expected@ ==> res is Err && err_text(res) == "GitHub 安装包 SHA-256 校验失败"@,
        !length_mismatch(content_length, installer@.len() as u64) && crate::digest::sha256_hex_spec(installer@)
            == expected@ ==> res.is_ok(),
{
    let actual = crate::digest::sha256_hex(installer);
    check_download(content_length, installer.len() as u64, actual.as_str(), expected)
}

/// Whether an announced download size passes the 256 MB limit.
pub fn exceeds_installer_limit(size: u64) -> (res: bool)
    ensures
        res == (size > MAX_INSTALLER_BYTES),
{
    size > MAX_INSTALLER_BYTES
}

// ---------------------------------------------------------------------------
// Installer headers
// ---------------------------------------------------------------------------

pub open spec fn le_u32(h: Seq<u8>, at: int) -> nat {
    (h[at] as nat) + (h[at + 1] as nat) * 256 + (h[at + 2] as nat) * 65536 + (h[at + 3] as nat)
        * 16777216
}

/// Where the `PE\0\0` signature of a Windows executable of `length` bytes
/// must sit, given its first 64 bytes: `None` when the file is too short,
/// lacks the `MZ` mark or points outside itself.
pub open spec fn pe_signature_offset_spec(length: u64, header: Seq<u8>) -> Option<u64> {
    if length < 68 || header[0] != 0x4d || header[1] != 0x5a {
        None
    } else {
        let offset = le_u32(header, 0x3c);
        if offset < 64 || offset > length - 4 {
            None
        } else {
            Some(offset as u64)
        }
    }
}

pub fn pe_signature_offset(length: u64, header: &Vec<u8>) -> (res: Option<u64>)
    requires
        header@.len() == 64,
    ensures
        res == pe_signature_offset_spec(length, header@),
{
    if length < 68 || header[0] != 0x4d || header[1] != 0x5a {
        return None;
    }
    let offset: u64 = header[0x3c] as u64 + header[0x3d] as u64 * 256 + header[0x3e] as u64 * 65536
        + header[0x3f] as u64 * 16777216;
    if offset < 64 || offset > length - 4 {
        None
    } else {
        Some(offset)
    }
}

/// The four bytes `PE\0\0`.
pub fn is_pe_signature(sig: &Vec<u8>) -> (res: bool)
    ensures
        res == (sig@ == seq![0x50u8, 0x45u8, 0u8, 0u8]),
{
    if sig.len() != 4 {
        return false;
    }
    let r = sig[0] == 0x50 && sig[1] == 0x45 && sig[2] == 0 && sig[3] == 0;
    if r {
        assert(sig@ =~= seq![0x50u8, 0x45u8, 0u8, 0u8]);
    }
    r
}

// ---------------------------------------------------------------------------
// Staged installers
// ---------------------------------------------------------------------------

#[derive(Debug, Clone, Copy, PartialEq, Eq, Structural)]
pub enum PendingAction {
    /// The running version is already as new: forget the staged installer.
    DiscardManifest,
    /// The installer no longer matches its checksum: delete it and the record.
    DiscardAll,
    /// Start the verified installer.
    Launch,
}

/// What to do at start-up with a staged installer of `pending_version`
/// whose digest now reads `installer_sha256` (None when it cannot be read).
pub fn pending_action(current: &str, pending_version: &str, installer_sha256: &Option<String>, expected_sha256: &str) -> (res: PendingAction)
    ensures
        compare_versions_spec(current@, pending_version@) >= 0 ==> res == PendingAction::DiscardManifest,
        compare_versions_spec(current@, pending_version@) < 0 ==> (res == PendingAction::Launch
            <==> urls::ov(*installer_sha256) == Some(expected_sha256@)),
        compare_versions_spec(current@, pending_version@) < 0 ==> res != PendingAction::DiscardManifest,
{
    if compare_versions(current, pending_version) >= 0 {
        return PendingAction::DiscardManifest;
    }
    match installer_sha256 {
        Some(h) => if text::str_eq(h.as_str(), expected_sha256) {
            PendingAction::Launch
        } else {
            PendingAction::DiscardAll
        },
        None => PendingAction::DiscardAll,
    }
}

/// The start-up decision for a staged installer whose file reads
/// `installer` (None when it cannot be read): its digest is the SHA-256 of
/// those bytes.
pub fn pending_action_for(current: &str, pending_version: &str, installer: &Option<Vec<u8>>, expected_sha256: &str) -> (res: PendingAction)
    ensures
        compare_versions_spec(current@, pending_version@) >= 0 ==> res == PendingAction::DiscardManifest,
        compare_versions_spec(current@, pending_version@) < 0 ==> (res == PendingAction::Launch
            <==> (installer matches Some(b) && crate::digest::sha256_hex_spec(b@) == expected_sha256@)),
        compare_versions_spec(current@, pending_version@) < 0 ==> res != PendingAction::DiscardManifest,
{
    let digest = match installer {
        Some(b) => Some(crate::digest::sha256_hex(b.as_slice())),
        None => None,
    };
    pending_action(current, pending_version, &digest, expected_sha256)
}

// ---------------------------------------------------------------------------
// Status shown in Settings
// ---------------------------------------------------------------------------

#[derive(Debug, Clone)]
pub struct UpdateStatus {
    pub current_version: String,
    pub state: String,
    pub latest_version: Option<String>,
    pub message: String,
    pub checked_at: Option<String>,
}

pub open spec fn pick(setting: LocaleSetting, english: Seq<char>, chinese: Seq<char>) -> Seq<char> {
    if setting.chinese {
        chinese
    } else {
        english
    }
}

/// The status before any check.
pub fn default_status(version: &str, setting: &LocaleSetting) -> (res: UpdateStatus)
    ensures
        res.current_version@ == version@,
        res.state@ == "idle"@,
        res.latest_version.is_none(),
        res.message@ == pick(
            *setting,
            "Mosaic checks automatically after launch; installers are distributed by GitHub Releases."@,
            "启动后自动检查；安装包由 GitHub Releases 分发。"@,
        ),
        res.checked_at.is_none(),
{
    UpdateStatus {
        current_version: text::string_from(version),
        state: text::string_from("idle"),
        latest_version: None,
        message: locale::text(
            setting,
            "Mosaic checks automatically after launch; installers are distributed by GitHub Releases.",
            "启动后自动检查；安装包由 GitHub Releases 分发。",
        ),
        checked_at: None,
    }
}

/// The status while a check runs.
pub fn checking_status(previous: UpdateStatus, setting: &LocaleSetting) -> (res: UpdateStatus)
    ensures
        res.state@ == "checking"@,
        res.message@ == pick(
            *setting,
            "Checking GitHub for a new installer…"@,
            "正在检查 GitHub 上的新版安装包…"@,
        ),
        res.current_version == previous.current_version,
        res.latest_version == previous.latest_version,
        res.checked_at == previous.checked_at,
{
    UpdateStatus {
        state: text::string_from("checking"),
        message: locale::text(
            setting,
            "Checking GitHub for a new installer…",
            "正在检查 GitHub 上的新版安装包…",
        ),
        ..previous
    }
}

/// How a background check ended.
#[derive(Debug, Clone)]
pub enum CheckOutcome {
    /// This version was downloaded, verified and staged.
    Ready(String),
    UpToDate,
    Failed(String),
}

pub open spec fn github_failure(error: Seq<char>) -> bool {
    text::contains(error, "GitHub"@)
}

pub open spec fn failure_title(setting: LocaleSetting, error: Seq<char>) -> Seq<char> {
    if github_failure(error) {
        pick(setting, "Unable to connect to GitHub for updates"@, "无法连接到 GitHub 更新"@)
    } else {
        pick(setting, "Automatic update check failed"@, "自动更新检查失败"@)
    }
}

pub open spec fn failure_body(setting: LocaleSetting, error: Seq<char>) -> Seq<char> {
    if github_failure(error) {
        pick(
            setting,
            "Check your network and retry from Settings. You can keep using this version; incomplete downloads will not be installed."@,
            "请检查网络后在设置中重试。当前版本可以继续使用，不会安装未完成的下载。"@,
        )
    } else {
        pick(
            setting,
            "Version information is temporarily unavailable. Retry from Settings later; you can keep using this version."@,
            "暂时无法获取版本信息，请稍后在设置中重试。当前版本可以继续使用。"@,
        )
    }
}

/// Records the end of a background check: the notification to add or
/// replace (none when up to date) and the new status.
pub fn finish_check(
    notifications: &mut Vec<Notification>,
    outcome: CheckOutcome,
    version: &str,
    checked_at: &str,
    setting: &LocaleSetting,
) -> (res: UpdateStatus)
    ensures
        res.current_version@ == version@,
        urls::ov(res.checked_at) == Some(checked_at@),
        match outcome {
            CheckOutcome::Ready(v) => {
                &&& res.state@ == "ready"@
                &&& urls::ov(res.latest_version) == Some(v@)
                &&& res.message@ == pick(
                    *setting,
                    "The verified update is ready and will install on the next launch."@,
                    "更新已安全下载，将在下次启动时安装。"@,
                )
                &&& exists|n: Notification| #[trigger] notification_upserted(old(notifications)@, final(notifications)@, n)
                    && n.id@ == "update-ready-"@ + v@ && n.level@ == "success"@
                    && n.title@ == (if setting.chinese {
                    "Mosaic "@ + v@ + " 已准备好"@
                } else {
                    "Mosaic "@ + v@ + " is ready"@
                }) && urls::ov(n.body) == Some(pick(
                    *setting,
                    "The installer was downloaded from GitHub and passed SHA-256 verification. It will install automatically the next time Mosaic starts."@,
                    "安装包已从 GitHub 下载并通过 SHA-256 校验，将在下次启动 Mosaic 时自动安装。"@,
                )) && n.at@ == checked_at@ && !n.read && n.task_id.is_none()
            },
            CheckOutcome::UpToDate => {
                &&& res.state@ == "upToDate"@
                &&& res.latest_version.is_none()
                &&& res.message@ == pick(*setting, "You are using the latest version."@, "当前已是最新版本。"@)
                &&& final(notifications)@ == old(notifications)@
            },
            CheckOutcome::Failed(e) => {
                &&& res.state@ == "error"@
                &&& res.latest_version.is_none()
                &&& res.message@ == failure_title(*setting, e@) + ": "@ + e@
                &&& exists|n: Notification| #[trigger] notification_upserted(old(notifications)@, final(notifications)@, n)
                    && n.id@ == "update-error"@ && n.level@ == "warning"@
                    && n.title@ == failure_title(*setting, e@)
                    && urls::ov(n.body) == Some(failure_body(*setting, e@))
                    && n.at@ == checked_at@ && !n.read && n.task_id.is_none()
            },
        },
{
    match outcome {
        CheckOutcome::Ready(v) => {
            let mut id = text::chars_of("update-ready-");
            text::append_str(&mut id, v.as_str());
            let mut title = text::chars_of("Mosaic ");
            text::append_str(&mut title, v.as_str());
            if locale::is_chinese(setting) {
                text::append_str(&mut title, " 已准备好");
            } else {
                text::append_str(&mut title, " is ready");
            }
            let n = Notification {
                id: text::string_of(&id),
                level: text::string_from("success"),
                title: text::string_of(&title),
                body: Some(
                    locale::text(
                        setting,
                        "The installer was downloaded from GitHub and passed SHA-256 verification. It will install automatically the next time Mosaic starts.",
                        "安装包已从 GitHub 下载并通过 SHA-256 校验，将在下次启动 Mosaic 时自动安装。",
                    ),
                ),
                at: text::string_from(checked_at),
                read: false,
                task_id: None,
            };
            let ghost gn = n;
            notifications::upsert_notification(notifications, n);
            assert(notification_upserted(old(notifications)@, notifications@, gn));
            UpdateStatus {
                current_version: text::string_from(version),
                state: text::string_from("ready"),
                latest_version: Some(v),
                message: locale::text(
                    setting,
                    "The verified update is ready and will install on the next launch.",
                    "更新已安全下载，将在下次启动时安装。",
                ),
                checked_at: Some(text::string_from(checked_at)),
            }
        },
        CheckOutcome::UpToDate => UpdateStatus {
            current_version: text::string_from(version),
            state: text::string_from("upToDate"),
            latest_version: None,
            message: locale::text(
                setting,
                "You are using the latest version.",
                "当前已是最新版本。",
            ),
            checked_at: Some(text::string_from(checked_at)),
        },
        CheckOutcome::Failed(error) => {
            let err = text::chars_of(error.as_str());
            let github = text::contains_str(&err, "GitHub");
            let title = if github {
                locale::text(setting, "Unable to connect to GitHub for updates", "无法连接到 GitHub 更新")
            } else {
                locale::text(setting, "Automatic update check failed", "自动更新检查失败")
            };
            let body = if github {
                locale::text(
                    setting,
                    "Check your network and retry from Settings. You can keep using this version; incomplete downloads will not be installed.",
                    "请检查网络后在设置中重试。当前版本可以继续使用，不会安装未完成的下载。",
                )
            } else {
                locale::text(
                    setting,
                    "Version information is temporarily unavailable. Retry from Settings later; you can keep using this version.",
                    "暂时无法获取版本信息，请稍后在设置中重试。当前版本可以继续使用。",
                )
            };
            let mut message = text::chars_of(title.as_str());
            text::append_str(&mut message, ": ");
            text::append_chars(&mut message, &err);
            let n = Notification {
                id: text::string_from("update-error"),
                level: text::string_from("warning"),
                title: text::copy_string(&title),
                body: Some(body),
                at: text::string_from(checked_at),
                read: false,
                task_id: None,
            };
            let ghost gn = n;
            notifications::upsert_notification(notifications, n);
            assert(notification_upserted(old(notifications)@, notifications@, gn));
            UpdateStatus {
                current_version: text::string_from(version),
                state: text::string_from("error"),
                latest_version: None,
                message: text::string_of(&message),
                checked_at: Some(text::string_from(checked_at)),
            }
        },
    }
}

/// `after` is `before` with `n` replacing the first entry of its id, or
/// added at the front when there is none.
pub open spec fn notification_upserted(before: Seq<Notification>, after: Seq<Notification>, n: Notification) -> bool {
    let i = notifications::first_with_id(before, n.id@);
    if i >= 0 {
        after == before.update(i, n)
    } else {
        after == seq![n].add(before)
    }
}

// ---------------------------------------------------------------------------
// Release checksum files and staged installers
// ---------------------------------------------------------------------------

/// Calls `String::from_utf8`: `Some` exactly for valid UTF-8, holding the
/// text those bytes encode (as the standard library documents).
#[verifier::external_body]
fn utf8_text(bytes: &Vec<u8>) -> (res: Option<String>)
    ensures
        res is Some <==> vstd::utf8::valid_utf8(bytes@),
        res matches Some(s) ==> s@ == vstd::utf8::decode_utf8(bytes@),
{
    String::from_utf8(bytes.clone()).ok()
}

/// Where a download ended up after redirects: a URL that does not parse
/// gives `invalid`, one that is not HTTPS gives `non_https`.
pub open spec fn final_url_spec(final_url: Seq<char>, invalid: Seq<char>, non_https: Seq<char>) -> Result<(), Seq<char>> {
    match urls::url_parse_spec(final_url) {
        None => Err(invalid),
        Some(u) => if u.scheme == "https"@ {
            Ok(())
        } else {
            Err(non_https)
        },
    }
}

/// Checks the final URL of a download (after redirects) for HTTPS.
pub fn check_final_url(final_url: &str, invalid_msg: &str, non_https_msg: &str) -> (res: Result<(), String>)
    ensures
        match final_url_spec(final_url@, invalid_msg@, non_https_msg@) {
            Ok(()) => res is Ok,
            Err(e) => res is Err && err_text(res) == e,
        },
{
    match urls::parse(final_url) {
        Err(_) => Err(text::string_from(invalid_msg)),
        Ok(u) => if text::str_eq(u.scheme.as_str(), "https") {
            Ok(())
        } else {
            Err(text::string_from(non_https_msg))
        },
    }
}

pub open spec fn checksum_body_spec(final_url: Seq<char>, body: Seq<u8>, installer_name: Seq<char>) -> Result<Seq<char>, Seq<char>> {
    match final_url_spec(final_url, "GitHub 校验文件重定向地址无效"@, "GitHub 校验文件被重定向到非 HTTPS 地址"@) {
        Err(e) => Err(e),
        Ok(()) => if body.len() > 4096 {
            Err("GitHub 校验文件过大"@)
        } else if !vstd::utf8::valid_utf8(body) {
            Err("GitHub 校验文件不是 UTF-8"@)
        } else {
            parse_release_checksum_spec(vstd::utf8::decode_utf8(body), installer_name)
        },
    }
}

/// Reads a downloaded checksum file: it must have come over HTTPS (after
/// redirects; `final_url` is the URL the download ended at), be at most
/// 4096 bytes of UTF-8, and name the installer.
pub fn checksum_from_body(final_url: &str, body: &Vec<u8>, installer_name: &str) -> (res: Result<String, String>)
    ensures
        res_view(res) == checksum_body_spec(final_url@, body@, installer_name@),
{
    match check_final_url(final_url, "GitHub 校验文件重定向地址无效", "GitHub 校验文件被重定向到非 HTTPS 地址") {
        Err(e) => return Err(e),
        Ok(()) => {},
    }
    if body.len() > MAX_CHECKSUM_BYTES {
        return Err(text::string_from("GitHub 校验文件过大"));
    }
    match utf8_text(body) {
        Some(t) => parse_release_checksum(t.as_str(), installer_name),
        None => Err(text::string_from("GitHub 校验文件不是 UTF-8")),
    }
}

/// The arguments the staged installer is started with: silent, no
/// message boxes, no cancelling, no reboot, closing and restarting Mosaic.
pub fn installer_args() -> (res: Vec<&'static str>)
    ensures
        res@.len() == 7,
        res@[0]@ == "/VERYSILENT"@,
        res@[1]@ == "/SUPPRESSMSGBOXES"@,
        res@[2]@ == "/NOCANCEL"@,
        res@[3]@ == "/NORESTART"@,
        res@[4]@ == "/CLOSEAPPLICATIONS"@,
        res@[5]@ == "/RESTARTAPPLICATIONS"@,
        res@[6]@ == "/AUTOUPDATE"@,
{
    vec![
        "/VERYSILENT",
        "/SUPPRESSMSGBOXES",
        "/NOCANCEL",
        "/NORESTART",
        "/CLOSEAPPLICATIONS",
        "/RESTARTAPPLICATIONS",
        "/AUTOUPDATE",
    ]
}

/// A staged-installer record is kept only while its installer lies inside
/// the update directory, still looks like a Windows executable and the
/// recorded digest is a SHA-256.
pub fn pending_usable(inside_update_root: bool, is_executable: bool, sha256: &str) -> (res: bool)
    ensures
        res == (inside_update_root && is_executable && is_sha256_spec(sha256@)),
{
    inside_update_root && is_executable && is_sha256(sha256)
}

} // verus!
