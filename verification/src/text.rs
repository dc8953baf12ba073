//! Character-level text helpers shared by every module: whitespace trimming,
//! substring search, splitting, ASCII case folding and decimal numbers. The
//! library works on `Vec<char>` internally and on `&str` / `String` at its
//! public edges; each helper states its result over `Seq<char>`.
use vstd::prelude::*;

verus! {

// ---------------------------------------------------------------------------
// Specifications
// ---------------------------------------------------------------------------

/// Unicode `White_Space`, the property behind `char::is_whitespace`.
pub open spec fn is_ws(c: char) -> bool {
    let v = c as u32;
    ||| 0x09 <= v <= 0x0D
    ||| v == 0x20
    ||| v == 0x85
    ||| v == 0xA0
    ||| v == 0x1680
    ||| 0x2000 <= v <= 0x200A
    ||| v == 0x2028
    ||| v == 0x2029
    ||| v == 0x202F
    ||| v == 0x205F
    ||| v == 0x3000
}

pub open spec fn trim_start(s: Seq<char>) -> Seq<char>
    decreases s.len(),
{
    if s.len() > 0 && is_ws(s[0]) {
        trim_start(s.drop_first())
    } else {
        s
    }
}

pub open spec fn trim_end(s: Seq<char>) -> Seq<char>
    decreases s.len(),
{
    if s.len() > 0 && is_ws(s.last()) {
        trim_end(s.drop_last())
    } else {
        s
    }
}

/// `str::trim`: leading and trailing Unicode whitespace removed.
pub open spec fn trim(s: Seq<char>) -> Seq<char> {
    trim_end(trim_start(s))
}

/// Removes every leading occurrence of a character for which `p` holds
/// (`str::trim_start_matches` with a character pattern).
pub open spec fn strip_leading(s: Seq<char>, p: spec_fn(char) -> bool) -> Seq<char>
    decreases s.len(),
{
    if s.len() > 0 && p(s[0]) {
        strip_leading(s.drop_first(), p)
    } else {
        s
    }
}

pub open spec fn is_ascii_upper(c: char) -> bool {
    65 <= c as u32 <= 90
}

pub open spec fn ascii_lower_char(c: char) -> char {
    if is_ascii_upper(c) {
        ((c as u32) + 32) as char
    } else {
        c
    }
}

/// `to_ascii_lowercase`: ASCII capitals folded, everything else kept.
pub open spec fn ascii_lower(s: Seq<char>) -> Seq<char> {
    s.map_values(|c: char| ascii_lower_char(c))
}

pub open spec fn is_ascii_digit(c: char) -> bool {
    48 <= c as u32 <= 57
}

pub open spec fn is_ascii_alpha(c: char) -> bool {
    ||| 97 <= c as u32 <= 122
    ||| 65 <= c as u32 <= 90
}

pub open spec fn is_ascii_alnum(c: char) -> bool {
    is_ascii_alpha(c) || is_ascii_digit(c)
}

pub open spec fn is_ascii_hex(c: char) -> bool {
    ||| is_ascii_digit(c)
    ||| 97 <= c as u32 <= 102
    ||| 65 <= c as u32 <= 70
}

pub open spec fn occurs_at(hay: Seq<char>, needle: Seq<char>, i: int) -> bool {
    &&& 0 <= i
    &&& i + needle.len() <= hay.len()
    &&& hay.subrange(i, i + needle.len()) == needle
}

/// `str::contains` with a string pattern.
pub open spec fn contains(hay: Seq<char>, needle: Seq<char>) -> bool {
    exists|i: int| #[trigger] occurs_at(hay, needle, i)
}

pub open spec fn starts_with(s: Seq<char>, prefix: Seq<char>) -> bool {
    prefix.len() <= s.len() && s.subrange(0, prefix.len() as int) == prefix
}

pub open spec fn ends_with(s: Seq<char>, suffix: Seq<char>) -> bool {
    suffix.len() <= s.len() && s.subrange(s.len() - suffix.len(), s.len() as int) == suffix
}

/// Whether any character is whitespace.
pub open spec fn has_ws(s: Seq<char>) -> bool {
    exists|i: int| 0 <= i < s.len() && is_ws(#[trigger] s[i])
}

pub open spec fn has_char(s: Seq<char>, c: char) -> bool {
    exists|i: int| 0 <= i < s.len() && s[i] == c
}

/// `str::split` with a character predicate: the pieces between separators,
/// empty pieces included, always at least one piece.
pub open spec fn split_by(s: Seq<char>, sep: spec_fn(char) -> bool) -> Seq<Seq<char>>
    decreases s.len(),
{
    if s.len() == 0 {
        seq![Seq::<char>::empty()]
    } else {
        let init = split_by(s.drop_last(), sep);
        if sep(s.last()) {
            init.push(Seq::<char>::empty())
        } else {
            init.update(init.len() - 1, init.last().push(s.last()))
        }
    }
}

pub open spec fn sep_either(a: char, b: char) -> spec_fn(char) -> bool {
    |c: char| c == a || c == b
}

pub open spec fn sep_ws() -> spec_fn(char) -> bool {
    |c: char| is_ws(c)
}

pub open spec fn nonempty_word() -> spec_fn(Seq<char>) -> bool {
    |w: Seq<char>| w.len() > 0
}

/// `str::split_whitespace`: maximal runs of non-whitespace characters.
pub open spec fn words(s: Seq<char>) -> Seq<Seq<char>> {
    split_by(s, sep_ws()).filter(nonempty_word())
}

pub open spec fn digit_char(d: nat) -> char
    recommends
        d < 10,
{
    (48 + d) as char
}

/// Decimal rendering of a natural number, as `format!("{}", n)` prints it.
pub open spec fn decimal(n: nat) -> Seq<char>
    decreases n,
{
    if n < 10 {
        seq![digit_char(n)]
    } else {
        decimal(n / 10).push(digit_char(n % 10))
    }
}

pub open spec fn digits_value(s: Seq<char>) -> nat
    decreases s.len(),
{
    if s.len() == 0 {
        0
    } else {
        digits_value(s.drop_last()) * 10 + ((s.last() as u32) - 48) as nat
    }
}

pub open spec fn all_digits(s: Seq<char>) -> bool {
    forall|i: int| 0 <= i < s.len() ==> is_ascii_digit(#[trigger] s[i])
}

/// `str::parse` for an unsigned integer type whose largest value is `max`:
/// an optional `+`, then at least one decimal digit, and no overflow.
pub open spec fn parse_unsigned(s: Seq<char>, max: nat) -> Option<nat> {
    let digits = if s.len() > 0 && s[0] == '+' { s.drop_first() } else { s };
    if digits.len() > 0 && all_digits(digits) && digits_value(digits) <= max {
        Some(digits_value(digits))
    } else {
        None
    }
}

/// The views of a vector of strings.
pub open spec fn views(v: Seq<String>) -> Seq<Seq<char>> {
    v.map_values(|s: String| s@)
}

pub open spec fn char_views(v: Seq<Vec<char>>) -> Seq<Seq<char>> {
    v.map_values(|s: Vec<char>| s@)
}

// ---------------------------------------------------------------------------
// Conversions between strings and character vectors
// ---------------------------------------------------------------------------

pub fn chars_of(s: &str) -> (res: Vec<char>)
    ensures
        res@ == s@,
{
    let mut res: Vec<char> = Vec::new();
    for c in it: s.chars()
        invariant
            res@ == it.seq().take(it.index() as int),
            it.seq() == s@,
    {
        res.push(c);
    }
    res
}

/// `String::push`.
#[verifier::external_body]
fn string_push(s: &mut String, c: char)
    ensures
        final(s)@ == old(s)@.push(c),
{
    s.push(c);
}

pub fn string_of(v: &Vec<char>) -> (res: String)
    ensures
        res@ == v@,
{
    let mut res = String::new();
    let mut i: usize = 0;
    while i < v.len()
        invariant
            i <= v.len(),
            res@ == v@.take(i as int),
        decreases v.len() - i,
    {
        string_push(&mut res, v[i]);
        assert(v@.take(i as int).push(v@[i as int]) == v@.take(i + 1));
        i += 1;
    }
    assert(v@.take(v.len() as int) == v@);
    res
}

pub fn string_from(s: &str) -> (res: String)
    ensures
        res@ == s@,
{
    let v = chars_of(s);
    string_of(&v)
}

pub fn append_str(v: &mut Vec<char>, s: &str)
    ensures
        final(v)@ == old(v)@ + s@,
{
    let mut extra = chars_of(s);
    v.append(&mut extra);
}

pub fn append_chars(v: &mut Vec<char>, s: &Vec<char>)
    ensures
        final(v)@ == old(v)@ + s@,
{
    let mut i: usize = 0;
    while i < s.len()
        invariant
            i <= s.len(),
            v@ == old(v)@ + s@.take(i as int),
        decreases s.len() - i,
    {
        v.push(s[i]);
        assert(s@.take(i as int).push(s@[i as int]) == s@.take(i + 1));
        i += 1;
    }
    assert(s@.take(s.len() as int) == s@);
}

/// Concatenation of two strings.
pub fn concat(a: &str, b: &str) -> (res: String)
    ensures
        res@ == a@ + b@,
{
    let mut v = chars_of(a);
    append_str(&mut v, b);
    string_of(&v)
}

pub fn clone_chars(v: &Vec<char>) -> (res: Vec<char>)
    ensures
        res@ == v@,
{
    let mut res: Vec<char> = Vec::new();
    append_chars(&mut res, v);
    res
}

pub fn copy_string(s: &String) -> (res: String)
    ensures
        res@ == s@,
{
    string_from(s.as_str())
}

pub fn copy_strings(v: &Vec<String>) -> (res: Vec<String>)
    ensures
        views(res@) == views(v@),
{
    let mut res: Vec<String> = Vec::new();
    let mut i: usize = 0;
    while i < v.len()
        invariant
            i <= v.len(),
            views(res@) == views(v@).take(i as int),
        decreases v.len() - i,
    {
        let ghost before = res@;
        res.push(copy_string(&v[i]));
        assert(views(res@) =~= views(before).push(v@[i as int]@));
        assert(views(v@).take(i + 1) =~= views(v@).take(i as int).push(v@[i as int]@));
        i += 1;
    }
    assert(views(v@).take(v.len() as int) == views(v@));
    res
}

pub fn copy_opt_string(s: &Option<String>) -> (res: Option<String>)
    ensures
        res.is_some() == s.is_some(),
        res.is_some() ==> res.unwrap()@ == s.unwrap()@,
{
    match s {
        Some(v) => Some(copy_string(v)),
        None => None,
    }
}

pub fn eq_chars(a: &Vec<char>, b: &Vec<char>) -> (res: bool)
    ensures
        res == (a@ == b@),
{
    if a.len() != b.len() {
        return false;
    }
    let mut i: usize = 0;
    while i < a.len()
        invariant
            a.len() == b.len(),
            i <= a.len(),
            a@.take(i as int) == b@.take(i as int),
        decreases a.len() - i,
    {
        if a[i] != b[i] {
            assert(a@[i as int] != b@[i as int]);
            return false;
        }
        assert(a@.take(i + 1) == a@.take(i as int).push(a@[i as int]));
        assert(b@.take(i + 1) == b@.take(i as int).push(b@[i as int]));
        i += 1;
    }
    assert(a@.take(a.len() as int) == a@);
    assert(b@.take(b.len() as int) == b@);
    true
}

/// Equality of two strings by content.
pub fn str_eq(a: &str, b: &str) -> (res: bool)
    ensures
        res == (a@ == b@),
{
    let x = chars_of(a);
    let y = chars_of(b);
    eq_chars(&x, &y)
}

// ---------------------------------------------------------------------------
// Character classes
// ---------------------------------------------------------------------------

pub fn is_whitespace(c: char) -> (res: bool)
    ensures
        res == is_ws(c),
{
    let v = c as u32;
    (0x09 <= v && v <= 0x0D) || v == 0x20 || v == 0x85 || v == 0xA0 || v == 0x1680 || (0x2000
        <= v && v <= 0x200A) || v == 0x2028 || v == 0x2029 || v == 0x202F || v == 0x205F || v
        == 0x3000
}

pub fn is_digit(c: char) -> (res: bool)
    ensures
        res == is_ascii_digit(c),
{
    let v = c as u32;
    48 <= v && v <= 57
}

pub fn is_alnum(c: char) -> (res: bool)
    ensures
        res == is_ascii_alnum(c),
{
    let v = c as u32;
    (97 <= v && v <= 122) || (65 <= v && v <= 90) || (48 <= v && v <= 57)
}

pub fn is_hex(c: char) -> (res: bool)
    ensures
        res == is_ascii_hex(c),
{
    let v = c as u32;
    (48 <= v && v <= 57) || (97 <= v && v <= 102) || (65 <= v && v <= 70)
}

pub fn lower_char(c: char) -> (res: char)
    ensures
        res == ascii_lower_char(c),
{
    let v = c as u32;
    if 65 <= v && v <= 90 {
        let r = v + 32;
        assert(r == (c as u32) + 32);
        proof {
            // Lowercase ASCII letters are valid characters.
            assert(0x61 <= r <= 0x7A);
        }
        char_from_ascii(r)
    } else {
        c
    }
}

fn char_from_ascii(v: u32) -> (res: char)
    requires
        v < 128,
    ensures
        res == v as char,
{
    (v as u8) as char
}

pub fn ascii_lowercase(v: &Vec<char>) -> (res: Vec<char>)
    ensures
        res@ == ascii_lower(v@),
{
    let mut res: Vec<char> = Vec::new();
    let mut i: usize = 0;
    while i < v.len()
        invariant
            i <= v.len(),
            res@ == ascii_lower(v@.take(i as int)),
        decreases v.len() - i,
    {
        res.push(lower_char(v[i]));
        assert(ascii_lower(v@.take(i + 1)) == ascii_lower(v@.take(i as int)).push(
            ascii_lower_char(v@[i as int]),
        ));
        i += 1;
    }
    assert(v@.take(v.len() as int) == v@);
    res
}

// ---------------------------------------------------------------------------
// Unicode lowercase (std)
// ---------------------------------------------------------------------------

/// What `str::to_lowercase` returns for a string: its Unicode lowercase form.
pub uninterp spec fn unicode_lowercase(s: Seq<char>) -> Seq<char>;

/// Calls `str::to_lowercase`. Claimed: the result is the function
/// `unicode_lowercase` of the argument's characters and of nothing else.
#[verifier::external_body]
pub(crate) fn to_lowercase(s: &str) -> (res: String)
    ensures
        res@ == unicode_lowercase(s@),
{
    s.to_lowercase()
}

// ---------------------------------------------------------------------------
// Trimming
// ---------------------------------------------------------------------------

proof fn lemma_trim_start_skip(s: Seq<char>, i: int)
    requires
        0 <= i <= s.len(),
        forall|k: int| 0 <= k < i ==> is_ws(#[trigger] s[k]),
    ensures
        trim_start(s) == trim_start(s.subrange(i, s.len() as int)),
    decreases i,
{
    if i > 0 {
        assert(is_ws(s[0]));
        let t = s.drop_first();
        assert forall|k: int| 0 <= k < i - 1 implies is_ws(#[trigger] t[k]) by {
            assert(t[k] == s[k + 1]);
        }
        lemma_trim_start_skip(t, i - 1);
        assert(t.subrange(i - 1, t.len() as int) == s.subrange(i, s.len() as int));
    } else {
        assert(s.subrange(0, s.len() as int) == s);
    }
}

proof fn lemma_trim_end_cut(s: Seq<char>, j: int)
    requires
        0 <= j <= s.len(),
        forall|k: int| j <= k < s.len() ==> is_ws(#[trigger] s[k]),
    ensures
        trim_end(s) == trim_end(s.subrange(0, j)),
    decreases s.len() - j,
{
    if j < s.len() {
        assert(is_ws(s.last()));
        let t = s.drop_last();
        assert forall|k: int| j <= k < t.len() implies is_ws(#[trigger] t[k]) by {
            assert(t[k] == s[k]);
        }
        lemma_trim_end_cut(t, j);
        assert(t.subrange(0, j) == s.subrange(0, j));
    } else {
        assert(s.subrange(0, j) == s);
    }
}

/// `str::trim` on a character vector.
pub fn trim_chars(v: &Vec<char>) -> (res: Vec<char>)
    ensures
        res@ == trim(v@),
{
    let n = v.len();
    let mut i: usize = 0;
    while i < n && is_whitespace(v[i])
        invariant
            i <= n,
            n == v.len(),
            forall|k: int| 0 <= k < i ==> is_ws(#[trigger] v@[k]),
        decreases n - i,
    {
        i += 1;
    }
    proof {
        lemma_trim_start_skip(v@, i as int);
        let t = v@.subrange(i as int, n as int);
        if t.len() > 0 {
            assert(t[0] == v@[i as int]);
        }
        assert(trim_start(t) == t);
    }
    let mut j: usize = n;
    while j > i && is_whitespace(v[j - 1])
        invariant
            i <= j <= n,
            n == v.len(),
            forall|k: int| j <= k < n ==> is_ws(#[trigger] v@[k]),
        decreases j,
    {
        j -= 1;
    }
    let ghost t = v@.subrange(i as int, n as int);
    proof {
        assert forall|k: int| (j - i) <= k < t.len() implies is_ws(#[trigger] t[k]) by {
            assert(t[k] == v@[k + i]);
        }
        lemma_trim_end_cut(t, j - i);
        let u = t.subrange(0, j - i);
        assert(u == v@.subrange(i as int, j as int));
        if u.len() > 0 {
            assert(u.last() == v@[j - 1]);
        }
        assert(trim_end(u) == u);
    }
    let mut res: Vec<char> = Vec::new();
    let mut k: usize = i;
    while k < j
        invariant
            i <= k <= j,
            j <= n,
            n == v.len(),
            res@ == v@.subrange(i as int, k as int),
        decreases j - k,
    {
        res.push(v[k]);
        assert(v@.subrange(i as int, k + 1) == v@.subrange(i as int, k as int).push(v@[k as int]));
        k += 1;
    }
    res
}

pub fn trim_str(s: &str) -> (res: Vec<char>)
    ensures
        res@ == trim(s@),
{
    let v = chars_of(s);
    trim_chars(&v)
}

/// `str::trim_start_matches` for the characters `a` and `b`.
pub fn strip_leading_either(v: &Vec<char>, a: char, b: char) -> (res: Vec<char>)
    ensures
        res@ == strip_leading(v@, sep_either(a, b)),
{
    let ghost p = sep_either(a, b);
    let n = v.len();
    let mut i: usize = 0;
    assert(v@.subrange(0, n as int) == v@);
    while i < n && (v[i] == a || v[i] == b)
        invariant
            i <= n,
            n == v.len(),
            p == sep_either(a, b),
            strip_leading(v@, p) == strip_leading(v@.subrange(i as int, n as int), p),
        decreases n - i,
    {
        proof {
            let t = v@.subrange(i as int, n as int);
            assert(t[0] == v@[i as int]);
            assert(p(t[0]));
            assert(t.drop_first() == v@.subrange(i + 1, n as int));
        }
        i += 1;
    }
    proof {
        assert(v@.subrange(0, n as int) == v@);
    }
    let mut res: Vec<char> = Vec::new();
    let mut k: usize = i;
    while k < n
        invariant
            i <= k <= n,
            n == v.len(),
            res@ == v@.subrange(i as int, k as int),
        decreases n - k,
    {
        res.push(v[k]);
        assert(v@.subrange(i as int, k + 1) == v@.subrange(i as int, k as int).push(v@[k as int]));
        k += 1;
    }
    res
}

// ---------------------------------------------------------------------------
// Searching
// ---------------------------------------------------------------------------

pub fn occurs_at_exec(hay: &Vec<char>, needle: &Vec<char>, i: usize) -> (res: bool)
    requires
        i + needle.len() <= hay.len(),
    ensures
        res == occurs_at(hay@, needle@, i as int),
{
    let mut k: usize = 0;
    while k < needle.len()
        invariant
            k <= needle.len(),
            i + needle.len() <= hay.len(),
            hay@.subrange(i as int, i + k) == needle@.take(k as int),
        decreases needle.len() - k,
    {
        if hay[i + k] != needle[k] {
            assert(hay@.subrange(i as int, i + needle.len())[k as int] != needle@[k as int]);
            return false;
        }
        assert(hay@.subrange(i as int, i + k + 1) == hay@.subrange(i as int, i + k).push(
            hay@[i + k],
        ));
        assert(needle@.take(k + 1) == needle@.take(k as int).push(needle@[k as int]));
        k += 1;
    }
    assert(needle@.take(needle.len() as int) == needle@);
    true
}

pub fn contains_chars(hay: &Vec<char>, needle: &Vec<char>) -> (res: bool)
    ensures
        res == contains(hay@, needle@),
{
    if needle.len() > hay.len() {
        assert forall|i: int| !occurs_at(hay@, needle@, i) by {}
        return false;
    }
    let last = hay.len() - needle.len();
    let mut i: usize = 0;
    while i < last
        invariant
            last == hay.len() - needle.len(),
            needle.len() <= hay.len(),
            i <= last,
            forall|j: int| 0 <= j < i ==> !occurs_at(hay@, needle@, j),
        decreases last - i,
    {
        if occurs_at_exec(hay, needle, i) {
            return true;
        }
        i += 1;
    }
    if occurs_at_exec(hay, needle, last) {
        return true;
    }
    assert forall|j: int| !occurs_at(hay@, needle@, j) by {
        if 0 <= j <= last {
        } else if j > last {
            assert(j + needle.len() > hay.len());
        }
    }
    false
}

pub fn contains_str(hay: &Vec<char>, needle: &str) -> (res: bool)
    ensures
        res == contains(hay@, needle@),
{
    let n = chars_of(needle);
    contains_chars(hay, &n)
}

pub fn has_char_exec(v: &Vec<char>, c: char) -> (res: bool)
    ensures
        res == has_char(v@, c),
{
    let mut i: usize = 0;
    while i < v.len()
        invariant
            i <= v.len(),
            forall|k: int| 0 <= k < i ==> v@[k] != c,
        decreases v.len() - i,
    {
        if v[i] == c {
            return true;
        }
        i += 1;
    }
    false
}

pub fn starts_with_chars(s: &Vec<char>, prefix: &Vec<char>) -> (res: bool)
    ensures
        res == starts_with(s@, prefix@),
{
    if prefix.len() > s.len() {
        return false;
    }
    let r = occurs_at_exec(s, prefix, 0);
    r
}

pub fn ends_with_chars(s: &Vec<char>, suffix: &Vec<char>) -> (res: bool)
    ensures
        res == ends_with(s@, suffix@),
{
    if suffix.len() > s.len() {
        return false;
    }
    occurs_at_exec(s, suffix, s.len() - suffix.len())
}

pub fn starts_with_str(s: &Vec<char>, prefix: &str) -> (res: bool)
    ensures
        res == starts_with(s@, prefix@),
{
    let p = chars_of(prefix);
    starts_with_chars(s, &p)
}

pub fn ends_with_str(s: &Vec<char>, suffix: &str) -> (res: bool)
    ensures
        res == ends_with(s@, suffix@),
{
    let p = chars_of(suffix);
    ends_with_chars(s, &p)
}

pub fn eq_str(v: &Vec<char>, s: &str) -> (res: bool)
    ensures
        res == (v@ == s@),
{
    let w = chars_of(s);
    eq_chars(v, &w)
}

// ---------------------------------------------------------------------------
// Splitting
// ---------------------------------------------------------------------------

proof fn lemma_split_step(s: Seq<char>, sep: spec_fn(char) -> bool, i: int)
    requires
        0 <= i < s.len(),
    ensures
        split_by(s.take(i + 1), sep) == (if sep(s[i]) {
            split_by(s.take(i), sep).push(Seq::<char>::empty())
        } else {
            split_by(s.take(i), sep).update(
                split_by(s.take(i), sep).len() - 1,
                split_by(s.take(i), sep).last().push(s[i]),
            )
        }),
{
    let t = s.take(i + 1);
    assert(t.drop_last() =~= s.take(i));
    assert(t.last() == s[i]);
}

proof fn lemma_split_nonempty(s: Seq<char>, sep: spec_fn(char) -> bool)
    ensures
        split_by(s, sep).len() >= 1,
    decreases s.len(),
{
    if s.len() > 0 {
        lemma_split_nonempty(s.drop_last(), sep);
    }
}

/// `str::split` on the characters `a` and `b` (pass the same character twice
/// for a single separator).
pub fn split_on(v: &Vec<char>, a: char, b: char) -> (res: Vec<Vec<char>>)
    ensures
        char_views(res@) == split_by(v@, sep_either(a, b)),
        res@.len() >= 1,
{
    let ghost sep = sep_either(a, b);
    let mut pieces: Vec<Vec<char>> = Vec::new();
    let mut cur: Vec<char> = Vec::new();
    let mut i: usize = 0;
    assert(v@.take(0) == Seq::<char>::empty());
    while i < v.len()
        invariant
            i <= v.len(),
            sep == sep_either(a, b),
            char_views(pieces@).push(cur@) == split_by(v@.take(i as int), sep),
        decreases v.len() - i,
    {
        let c = v[i];
        proof {
            lemma_split_step(v@, sep, i as int);
            lemma_split_nonempty(v@.take(i as int), sep);
        }
        if c == a || c == b {
            let done = cur;
            pieces.push(done);
            cur = Vec::new();
            assert(char_views(pieces@).push(cur@) == split_by(v@.take(i as int), sep).push(
                Seq::<char>::empty(),
            ));
        } else {
            cur.push(c);
            assert(char_views(pieces@).push(cur@) == split_by(v@.take(i as int), sep).update(
                split_by(v@.take(i as int), sep).len() - 1,
                split_by(v@.take(i as int), sep).last().push(c),
            ));
        }
        i += 1;
    }
    assert(v@.take(v.len() as int) == v@);
    pieces.push(cur);
    proof {
        lemma_split_nonempty(v@, sep);
        assert(char_views(pieces@).len() == pieces@.len());
    }
    pieces
}

pub proof fn lemma_filter_push<A>(s: Seq<A>, p: spec_fn(A) -> bool, x: A)
    ensures
        s.push(x).filter(p) == (if p(x) {
            s.filter(p).push(x)
        } else {
            s.filter(p)
        }),
{
    reveal(Seq::filter);
    assert(s.push(x).drop_last() == s);
}

/// `str::split_whitespace`.
pub fn split_whitespace(v: &Vec<char>) -> (res: Vec<Vec<char>>)
    ensures
        char_views(res@) == words(v@),
{
    let ghost sep = sep_ws();
    let ghost keep = nonempty_word();
    let mut words_out: Vec<Vec<char>> = Vec::new();
    let mut cur: Vec<char> = Vec::new();
    let mut i: usize = 0;
    assert(v@.take(0) == Seq::<char>::empty());
    proof {
        reveal(Seq::filter);
        lemma_split_nonempty(Seq::<char>::empty(), sep);
    }
    while i < v.len()
        invariant
            i <= v.len(),
            sep == sep_ws(),
            keep == nonempty_word(),
            split_by(v@.take(i as int), sep).len() >= 1,
            cur@ == split_by(v@.take(i as int), sep).last(),
            char_views(words_out@) == split_by(v@.take(i as int), sep).drop_last().filter(keep),
        decreases v.len() - i,
    {
        let c = v[i];
        let ghost old_split = split_by(v@.take(i as int), sep);
        proof {
            lemma_split_step(v@, sep, i as int);
        }
        if is_whitespace(c) {
            let ghost new_split = old_split.push(Seq::<char>::empty());
            assert(split_by(v@.take(i + 1), sep) == new_split);
            assert(new_split.drop_last() == old_split);
            assert(old_split == old_split.drop_last().push(old_split.last()));
            proof {
                lemma_filter_push(old_split.drop_last(), keep, old_split.last());
            }
            if cur.len() > 0 {
                let done = cur;
                words_out.push(done);
            }
            cur = Vec::new();
        } else {
            cur.push(c);
            let ghost new_split = old_split.update(old_split.len() - 1, old_split.last().push(c));
            assert(split_by(v@.take(i + 1), sep) == new_split);
            assert(new_split.drop_last() == old_split.drop_last());
        }
        i += 1;
    }
    assert(v@.take(v.len() as int) == v@);
    let ghost fin = split_by(v@, sep);
    proof {
        assert(fin == fin.drop_last().push(fin.last()));
        lemma_filter_push(fin.drop_last(), keep, fin.last());
    }
    if cur.len() > 0 {
        words_out.push(cur);
    }
    words_out
}

// ---------------------------------------------------------------------------
// Numbers
// ---------------------------------------------------------------------------

pub fn digit_of(d: u64) -> (res: char)
    requires
        d < 10,
    ensures
        res == digit_char(d as nat),
{
    char_from_ascii((d + 48) as u32)
}

/// Appends the decimal rendering of `n`.
pub fn push_decimal(out: &mut Vec<char>, n: u64)
    ensures
        final(out)@ == old(out)@ + decimal(n as nat),
    decreases n,
{
    if n >= 10 {
        push_decimal(out, n / 10);
    }
    let d = digit_of(n % 10);
    out.push(d);
    proof {
        if n >= 10 {
            assert(decimal(n as nat) == decimal((n / 10) as nat).push(digit_char((n % 10) as nat)));
        } else {
            assert(decimal(n as nat) == seq![digit_char(n as nat)]);
        }
    }
}

/// Decimal rendering of a signed integer, with a leading `-` when negative.
pub open spec fn signed_decimal(n: int) -> Seq<char> {
    if n < 0 {
        "-"@ + decimal((-n) as nat)
    } else {
        decimal(n as nat)
    }
}

pub fn signed_decimal_string(n: i64) -> (res: String)
    ensures
        res@ == signed_decimal(n as int),
{
    let mut v: Vec<char> = Vec::new();
    if n < 0 {
        v.push('-');
        let m: u64 = if n == i64::MIN {
            9223372036854775808u64
        } else {
            (-n) as u64
        };
        push_decimal(&mut v, m);
        assert(v@ =~= "-"@ + decimal((-(n as int)) as nat)) by {
            reveal_strlit("-");
        }
    } else {
        push_decimal(&mut v, n as u64);
        assert(v@ =~= decimal(n as nat));
    }
    string_of(&v)
}

pub fn decimal_string(n: u64) -> (res: String)
    ensures
        res@ == decimal(n as nat),
{
    let mut v: Vec<char> = Vec::new();
    push_decimal(&mut v, n);
    assert(v@ == decimal(n as nat));
    string_of(&v)
}

proof fn lemma_digits_value_take(s: Seq<char>, i: int)
    requires
        0 <= i < s.len(),
    ensures
        digits_value(s.take(i + 1)) == digits_value(s.take(i)) * 10 + ((s[i] as u32) - 48) as nat,
{
    assert(s.take(i + 1).drop_last() == s.take(i));
}

proof fn lemma_digits_value_grows(s: Seq<char>, i: int, j: int)
    requires
        0 <= i <= j <= s.len(),
        all_digits(s),
    ensures
        digits_value(s.take(i)) <= digits_value(s.take(j)),
    decreases j - i,
{
    if i < j {
        lemma_digits_value_grows(s, i, j - 1);
        lemma_digits_value_take(s, j - 1);
        assert(digits_value(s.take(j - 1)) * 10 >= digits_value(s.take(j - 1))) by (
        nonlinear_arith);
    }
}

/// `str::parse::<uN>()` where the largest value of the type is `max`.
pub fn parse_unsigned_chars(s: &Vec<char>, max: u64) -> (res: Option<u64>)
    ensures
        match parse_unsigned(s@, max as nat) {
            Some(v) => res == Some(v as u64),
            None => res.is_none(),
        },
{
    let start: usize = if s.len() > 0 && s[0] == '+' {
        1
    } else {
        0
    };
    let ghost digits = if s@.len() > 0 && s@[0] == '+' {
        s@.drop_first()
    } else {
        s@
    };
    assert(digits == s@.subrange(start as int, s.len() as int));
    if start >= s.len() {
        return None;
    }
    let mut i: usize = start;
    let mut value: u64 = 0;
    while i < s.len()
        invariant
            start <= i <= s.len(),
            digits == (if s@.len() > 0 && s@[0] == '+' {
                s@.drop_first()
            } else {
                s@
            }),
            digits == s@.subrange(start as int, s.len() as int),
            value as nat == digits_value(digits.take(i - start)),
            value <= max,
            forall|k: int| 0 <= k < i - start ==> is_ascii_digit(#[trigger] digits[k]),
        decreases s.len() - i,
    {
        let c = s[i];
        if !is_digit(c) {
            assert(!is_ascii_digit(digits[i - start]));
            assert(!all_digits(digits));
            assert(parse_unsigned(s@, max as nat).is_none());
            return None;
        }
        let d = (c as u32 - 48) as u64;
        proof {
            lemma_digits_value_take(digits, i - start);
        }
        if d > max || value > (max - d) / 10 {
            proof {
                if d <= max {
                    assert(value * 10 + d > max) by (nonlinear_arith)
                        requires
                            value > (max - d) / 10,
                            d <= max,
                    ;
                }
            }
            return overflow_or_bad(s, start, i, value, d, max);
        }
        value = value * 10 + d;
        i += 1;
    }
    assert(digits.take(digits.len() as int) == digits);
    Some(value)
}

/// Finishes the parse once the value would pass `max`: a later non-digit
/// still makes it invalid, so the answer is `None` either way.
fn overflow_or_bad(s: &Vec<char>, start: usize, i: usize, value: u64, d: u64, max: u64) -> (res:
    Option<u64>)
    requires
        start <= i < s.len(),
        d <= 9,
        value * 10 + d > max,
        (s@[i as int] as u32) - 48 == d,
        is_ascii_digit(s@[i as int]),
        value as nat == digits_value(s@.subrange(start as int, s.len() as int).take(i - start)),
    ensures
        res.is_none(),
        ({
            let digits = s@.subrange(start as int, s.len() as int);
            !(all_digits(digits) && digits_value(digits) <= max)
        }),
{
    let ghost digits = s@.subrange(start as int, s.len() as int);
    proof {
        if all_digits(digits) {
            assert(digits[i - start] == s@[i as int]);
            lemma_digits_value_take(digits, i - start);
            lemma_digits_value_grows(digits, i - start + 1, digits.len() as int);
            assert(digits.take(digits.len() as int) == digits);
        }
    }
    None
}

pub fn parse_unsigned_str(s: &str, max: u64) -> (res: Option<u64>)
    ensures
        match parse_unsigned(s@, max as nat) {
            Some(v) => res == Some(v as u64),
            None => res.is_none(),
        },
{
    let v = chars_of(s);
    parse_unsigned_chars(&v, max)
}

} // verus!
