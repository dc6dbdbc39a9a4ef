//! Character classes and small string operations, specified over the
//! `Seq<char>` view of a string.

use vstd::prelude::*;

verus! {

// ---------------------------------------------------------------------------
// Character classes (the ASCII predicates of `char` and Unicode White_Space)
// ---------------------------------------------------------------------------

pub open spec fn is_digit(c: char) -> bool {
    '0' <= c && c <= '9'
}

pub open spec fn is_lower(c: char) -> bool {
    'a' <= c && c <= 'z'
}

pub open spec fn is_upper(c: char) -> bool {
    'A' <= c && c <= 'Z'
}

pub open spec fn is_alphanumeric(c: char) -> bool {
    is_digit(c) || is_lower(c) || is_upper(c)
}

pub open spec fn is_hexdigit(c: char) -> bool {
    is_digit(c) || ('a' <= c && c <= 'f') || ('A' <= c && c <= 'F')
}

/// `char::is_whitespace`: the Unicode `White_Space` property.
pub open spec fn is_white(c: char) -> bool {
    ||| '\u{9}' <= c && c <= '\u{d}'
    ||| c == ' '
    ||| c == '\u{85}'
    ||| c == '\u{a0}'
    ||| c == '\u{1680}'
    ||| '\u{2000}' <= c && c <= '\u{200a}'
    ||| c == '\u{2028}'
    ||| c == '\u{2029}'
    ||| c == '\u{202f}'
    ||| c == '\u{205f}'
    ||| c == '\u{3000}'
}

/// `char::is_control`: the Unicode general category `Cc`.
pub open spec fn is_control(c: char) -> bool {
    c <= '\u{1f}' || ('\u{7f}' <= c && c <= '\u{9f}')
}

pub open spec fn lower_char(c: char) -> char {
    if is_upper(c) {
        ((c as u32) + 32) as char
    } else {
        c
    }
}

pub fn digit_char(c: char) -> (b: bool)
    ensures
        b == is_digit(c),
{
    '0' <= c && c <= '9'
}

pub fn alphanumeric_char(c: char) -> (b: bool)
    ensures
        b == is_alphanumeric(c),
{
    ('0' <= c && c <= '9') || ('a' <= c && c <= 'z') || ('A' <= c && c <= 'Z')
}

pub fn hexdigit_char(c: char) -> (b: bool)
    ensures
        b == is_hexdigit(c),
{
    ('0' <= c && c <= '9') || ('a' <= c && c <= 'f') || ('A' <= c && c <= 'F')
}

pub fn white_char(c: char) -> (b: bool)
    ensures
        b == is_white(c),
{
    ('\u{9}' <= c && c <= '\u{d}') || c == ' ' || c == '\u{85}' || c == '\u{a0}' || c
        == '\u{1680}' || ('\u{2000}' <= c && c <= '\u{200a}') || c == '\u{2028}' || c
        == '\u{2029}' || c == '\u{202f}' || c == '\u{205f}' || c == '\u{3000}'
}

pub fn control_char(c: char) -> (b: bool)
    ensures
        b == is_control(c),
{
    c <= '\u{1f}' || ('\u{7f}' <= c && c <= '\u{9f}')
}

pub fn lowercase_char(c: char) -> (r: char)
    ensures
        r == lower_char(c),
{
    if 'A' <= c && c <= 'Z' {
        let code: u8 = (c as u8) + 32;
        code as char
    } else {
        c
    }
}

// ---------------------------------------------------------------------------
// Sequence-level string functions
// ---------------------------------------------------------------------------

/// `pat` occurs in `s` starting at index `i`.
pub open spec fn occurs_at(s: Seq<char>, pat: Seq<char>, i: int) -> bool {
    0 <= i && i + pat.len() <= s.len() && s.subrange(i, i + pat.len()) == pat
}

/// `str::contains` with a string pattern.
pub open spec fn has_substr(s: Seq<char>, pat: Seq<char>) -> bool {
    exists|i: int| occurs_at(s, pat, i)
}

pub open spec fn has_char(s: Seq<char>, c: char) -> bool {
    exists|i: int| 0 <= i < s.len() && s[i] == c
}

pub open spec fn starts_with(s: Seq<char>, pat: Seq<char>) -> bool {
    pat.len() <= s.len() && s.subrange(0, pat.len() as int) == pat
}

/// `str::trim_start`.
pub open spec fn trim_start(s: Seq<char>) -> Seq<char>
    decreases s.len(),
{
    if s.len() > 0 && is_white(s[0]) {
        trim_start(s.drop_first())
    } else {
        s
    }
}

/// `str::trim_end`.
pub open spec fn trim_end(s: Seq<char>) -> Seq<char>
    decreases s.len(),
{
    if s.len() > 0 && is_white(s.last()) {
        trim_end(s.drop_last())
    } else {
        s
    }
}

/// `str::trim`: no leading and no trailing whitespace.
pub open spec fn trim(s: Seq<char>) -> Seq<char> {
    trim_end(trim_start(s))
}

/// `str::trim_end_matches` with a single character.
pub open spec fn trim_end_char(s: Seq<char>, c: char) -> Seq<char>
    decreases s.len(),
{
    if s.len() > 0 && s.last() == c {
        trim_end_char(s.drop_last(), c)
    } else {
        s
    }
}

/// `str::to_ascii_lowercase`.
pub open spec fn lower(s: Seq<char>) -> Seq<char> {
    Seq::new(s.len(), |i: int| lower_char(s[i]))
}

/// `str::replace` with a non-empty pattern: every non-overlapping
/// occurrence, scanning from the left, is replaced by `rep`.
pub open spec fn replace_all(s: Seq<char>, pat: Seq<char>, rep: Seq<char>) -> Seq<char>
    recommends
        pat.len() > 0,
    decreases s.len(),
{
    if pat.len() == 0 || s.len() < pat.len() {
        s
    } else if s.subrange(0, pat.len() as int) == pat {
        rep + replace_all(s.subrange(pat.len() as int, s.len() as int), pat, rep)
    } else {
        seq![s[0]] + replace_all(s.drop_first(), pat, rep)
    }
}

/// Keeps the characters that satisfy `p`, in order.
pub open spec fn keep(s: Seq<char>, p: spec_fn(char) -> bool) -> Seq<char>
    decreases s.len(),
{
    if s.len() == 0 {
        s
    } else {
        let rest = keep(s.drop_last(), p);
        if p(s.last()) {
            rest.push(s.last())
        } else {
            rest
        }
    }
}

/// Decimal digits of a natural number, most significant first.
pub open spec fn decimal(n: nat) -> Seq<char>
    decreases n,
{
    let d = ((n % 10) + 48) as char;
    if n < 10 {
        seq![d]
    } else {
        decimal(n / 10).push(d)
    }
}

/// The value of a string of ASCII digits.
pub open spec fn digits_value(s: Seq<char>) -> nat
    decreases s.len(),
{
    if s.len() == 0 {
        0
    } else {
        digits_value(s.drop_last()) * 10 + ((s.last() as u32) - 48) as nat
    }
}

pub open spec fn all_digits(s: Seq<char>) -> bool {
    forall|i: int| 0 <= i < s.len() ==> is_digit(s[i])
}

/// `str::parse::<u32>`: an optional `+`, then at least one ASCII digit,
/// and a value that fits.
pub open spec fn parse_u32(s: Seq<char>) -> Option<u32> {
    let d = if s.len() > 0 && s[0] == '+' {
        s.drop_first()
    } else {
        s
    };
    if d.len() > 0 && all_digits(d) && digits_value(d) <= u32::MAX {
        Some(digits_value(d) as u32)
    } else {
        None
    }
}

/// The part of `s` before the first `c`, or all of `s`
/// (`s.split(c).next()`).
pub open spec fn before_char(s: Seq<char>, c: char) -> Seq<char>
    decreases s.len(),
{
    if s.len() == 0 {
        s
    } else if s[0] == c {
        seq![]
    } else {
        seq![s[0]] + before_char(s.drop_first(), c)
    }
}

/// `str::splitn(n, sep)` for `n >= 1`.
pub open spec fn split_n(s: Seq<char>, sep: char, n: nat) -> Seq<Seq<char>>
    decreases s.len(),
{
    if n <= 1 || !has_char(s, sep) {
        seq![s]
    } else {
        let head = before_char(s, sep);
        proof {
            lemma_before_char(s, sep);
        }
        seq![head] + split_n(s.subrange((head.len() + 1) as int, s.len() as int), sep, (n - 1) as nat)
    }
}

pub open spec fn opt_view(o: Option<String>) -> Option<Seq<char>> {
    match o {
        Some(s) => Some(s@),
        None => None,
    }
}

pub open spec fn opt_index(o: Option<usize>) -> Option<int> {
    match o {
        Some(i) => Some(i as int),
        None => None,
    }
}

// ---------------------------------------------------------------------------
// Lemmas
// ---------------------------------------------------------------------------

pub proof fn lemma_before_char(s: Seq<char>, c: char)
    ensures
        before_char(s, c).len() <= s.len(),
        before_char(s, c) == s.subrange(0, before_char(s, c).len() as int),
        forall|i: int| 0 <= i < before_char(s, c).len() ==> s[i] != c,
        has_char(s, c) ==> before_char(s, c).len() < s.len() && s[before_char(s, c).len() as int]
            == c,
        !has_char(s, c) ==> before_char(s, c) == s,
    decreases s.len(),
{
    if s.len() > 0 && s[0] != c {
        lemma_before_char(s.drop_first(), c);
        let r = before_char(s.drop_first(), c);
        assert(before_char(s, c) == seq![s[0]] + r);
        assert forall|i: int| 0 <= i < before_char(s, c).len() implies s[i] != c by {
            if i > 0 {
                assert(s[i] == s.drop_first()[i - 1]);
            }
        }
        if has_char(s, c) {
            let k = choose|k: int| 0 <= k < s.len() && s[k] == c;
            assert(s.drop_first()[k - 1] == c);
        } else {
            assert forall|k: int| 0 <= k < s.drop_first().len() implies s.drop_first()[k] != c by {
                assert(s.drop_first()[k] == s[k + 1]);
            }
        }
        assert(before_char(s, c) =~= s.subrange(0, before_char(s, c).len() as int));
    } else if s.len() > 0 {
        assert(has_char(s, c));
        assert(before_char(s, c) =~= s.subrange(0, 0));
    } else {
        assert(before_char(s, c) =~= s.subrange(0, 0));
    }
}

pub proof fn lemma_trim_start(s: Seq<char>)
    ensures
        exists|k: int| 0 <= k <= s.len() && trim_start(s) == s.subrange(k, s.len() as int)
            && (forall|j: int| 0 <= j < k ==> is_white(#[trigger] s[j])),
        trim_start(s).len() > 0 ==> !is_white(trim_start(s)[0]),
    decreases s.len(),
{
    if s.len() > 0 && is_white(s[0]) {
        lemma_trim_start(s.drop_first());
        let k = choose|k: int|
            0 <= k <= s.drop_first().len() && trim_start(s.drop_first()) == s.drop_first().subrange(
                k,
                s.drop_first().len() as int,
            ) && (forall|j: int| 0 <= j < k ==> is_white(#[trigger] s.drop_first()[j]));
        assert(trim_start(s) == s.subrange(k + 1, s.len() as int));
        assert forall|j: int| 0 <= j < k + 1 implies is_white(#[trigger] s[j]) by {
            if j > 0 {
                assert(s[j] == s.drop_first()[j - 1]);
            }
        }
    } else {
        assert(trim_start(s) == s.subrange(0, s.len() as int));
    }
}

pub proof fn lemma_trim_end(s: Seq<char>)
    ensures
        exists|k: int| 0 <= k <= s.len() && trim_end(s) == s.subrange(0, k)
            && (forall|j: int| k <= j < s.len() ==> is_white(#[trigger] s[j])),
        trim_end(s).len() > 0 ==> !is_white(trim_end(s).last()),
    decreases s.len(),
{
    if s.len() > 0 && is_white(s.last()) {
        lemma_trim_end(s.drop_last());
        let k = choose|k: int|
            0 <= k <= s.drop_last().len() && trim_end(s.drop_last()) == s.drop_last().subrange(0, k)
                && (forall|j: int| k <= j < s.drop_last().len() ==> is_white(#[trigger] s.drop_last()[j]));
        assert(trim_end(s) == s.subrange(0, k));
        assert forall|j: int| k <= j < s.len() implies is_white(#[trigger] s[j]) by {
            if j < s.len() - 1 {
                assert(s[j] == s.drop_last()[j]);
            }
        }
    } else {
        assert(trim_end(s) == s.subrange(0, s.len() as int));
    }
}

/// `trim(s)` is a stretch of `s`.
pub proof fn lemma_trim_inside(s: Seq<char>) -> (a: int)
    ensures
        trim(s).len() <= s.len(),
        0 <= a && a + trim(s).len() <= s.len(),
        forall|i: int| 0 <= i < trim(s).len() ==> #[trigger] trim(s)[i] == s[a + i],
{
    lemma_trim_start(s);
    let t = trim_start(s);
    let a = choose|k: int|
        0 <= k <= s.len() && trim_start(s) == s.subrange(k, s.len() as int) && (forall|j: int|
            0 <= j < k ==> is_white(#[trigger] s[j]));
    lemma_trim_end(t);
    let b = choose|k: int|
        0 <= k <= t.len() && trim_end(t) == t.subrange(0, k) && (forall|j: int|
            k <= j < t.len() ==> is_white(#[trigger] t[j]));
    assert forall|i: int| 0 <= i < trim(s).len() implies #[trigger] trim(s)[i] == s[a + i] by {
        assert(trim(s)[i] == t[i]);
    }
    a
}

/// Trimming whitespace from the start stops at the first non-white character.
proof fn lemma_trim_start_at(s: Seq<char>, k: int)
    requires
        0 <= k <= s.len(),
        forall|j: int| 0 <= j < k ==> is_white(#[trigger] s[j]),
        k == s.len() || !is_white(s[k]),
    ensures
        trim_start(s) == s.subrange(k, s.len() as int),
    decreases k,
{
    if k > 0 {
        assert forall|j: int| 0 <= j < k - 1 implies is_white(#[trigger] s.drop_first()[j]) by {
            assert(s.drop_first()[j] == s[j + 1]);
        }
        if k - 1 < s.drop_first().len() {
            assert(s.drop_first()[k - 1] == s[k]);
        }
        lemma_trim_start_at(s.drop_first(), k - 1);
        assert(s.drop_first().subrange(k - 1, s.drop_first().len() as int) =~= s.subrange(
            k,
            s.len() as int,
        ));
    } else {
        assert(s.subrange(0, s.len() as int) =~= s);
    }
}

proof fn lemma_trim_end_at(s: Seq<char>, k: int)
    requires
        0 <= k <= s.len(),
        forall|j: int| k <= j < s.len() ==> is_white(#[trigger] s[j]),
        k == 0 || !is_white(s[k - 1]),
    ensures
        trim_end(s) == s.subrange(0, k),
    decreases s.len() - k,
{
    if k < s.len() {
        assert forall|j: int| k <= j < s.drop_last().len() implies is_white(
            #[trigger] s.drop_last()[j],
        ) by {
            assert(s.drop_last()[j] == s[j]);
        }
        if k > 0 {
            assert(s.drop_last()[k - 1] == s[k - 1]);
        }
        lemma_trim_end_at(s.drop_last(), k);
        assert(s.drop_last().subrange(0, k) =~= s.subrange(0, k));
    } else {
        assert(s.subrange(0, s.len() as int) =~= s);
    }
}

proof fn lemma_trim_end_char_at(s: Seq<char>, c: char, k: int)
    requires
        0 <= k <= s.len(),
        forall|j: int| k <= j < s.len() ==> #[trigger] s[j] == c,
        k == 0 || s[k - 1] != c,
    ensures
        trim_end_char(s, c) == s.subrange(0, k),
    decreases s.len() - k,
{
    if k < s.len() {
        assert forall|j: int| k <= j < s.drop_last().len() implies #[trigger] s.drop_last()[j]
            == c by {
            assert(s.drop_last()[j] == s[j]);
        }
        if k > 0 {
            assert(s.drop_last()[k - 1] == s[k - 1]);
        }
        lemma_trim_end_char_at(s.drop_last(), c, k);
        assert(s.drop_last().subrange(0, k) =~= s.subrange(0, k));
    } else {
        assert(s.subrange(0, s.len() as int) =~= s);
    }
}

pub proof fn lemma_keep_push(s: Seq<char>, c: char, p: spec_fn(char) -> bool)
    ensures
        keep(s.push(c), p) == (if p(c) {
            keep(s, p).push(c)
        } else {
            keep(s, p)
        }),
{
    assert(s.push(c).drop_last() =~= s);
}

pub proof fn lemma_keep_all(s: Seq<char>, p: spec_fn(char) -> bool)
    ensures
        forall|i: int| 0 <= i < keep(s, p).len() ==> p(#[trigger] keep(s, p)[i]),
        keep(s, p).len() <= s.len(),
    decreases s.len(),
{
    if s.len() > 0 {
        lemma_keep_all(s.drop_last(), p);
    }
}

pub proof fn lemma_keep_everything(s: Seq<char>, p: spec_fn(char) -> bool)
    requires
        forall|i: int| 0 <= i < s.len() ==> p(#[trigger] s[i]),
    ensures
        keep(s, p) == s,
    decreases s.len(),
{
    if s.len() > 0 {
        assert forall|i: int| 0 <= i < s.drop_last().len() implies p(#[trigger] s.drop_last()[i]) by {
            assert(s.drop_last()[i] == s[i]);
        }
        lemma_keep_everything(s.drop_last(), p);
        assert(s.drop_last().push(s.last()) =~= s);
    }
}

pub proof fn lemma_replace_step(s: Seq<char>, pat: Seq<char>, rep: Seq<char>, i: int)
    requires
        pat.len() > 0,
        0 <= i < s.len(),
        i + pat.len() <= s.len(),
    ensures
        replace_all(s.subrange(i, s.len() as int), pat, rep) == (if s.subrange(
            i,
            i + pat.len(),
        ) == pat {
            rep + replace_all(s.subrange(i + pat.len(), s.len() as int), pat, rep)
        } else {
            seq![s[i]] + replace_all(s.subrange(i + 1, s.len() as int), pat, rep)
        }),
{
    let t = s.subrange(i, s.len() as int);
    assert(t.subrange(0, pat.len() as int) =~= s.subrange(i, i + pat.len()));
    assert(t.subrange(pat.len() as int, t.len() as int) =~= s.subrange(
        i + pat.len(),
        s.len() as int,
    ));
    assert(t.drop_first() =~= s.subrange(i + 1, s.len() as int));
}

pub proof fn lemma_digits_value_push(s: Seq<char>, c: char)
    ensures
        digits_value(s.push(c)) == digits_value(s) * 10 + ((c as u32) - 48) as nat,
{
    assert(s.push(c).drop_last() =~= s);
}

pub proof fn lemma_digits_value_mono(s: Seq<char>, k: int)
    requires
        0 <= k <= s.len(),
        all_digits(s),
    ensures
        digits_value(s.subrange(0, k)) <= digits_value(s),
    decreases s.len() - k,
{
    if k < s.len() {
        lemma_digits_value_mono(s, k + 1);
        assert(s.subrange(0, k + 1).drop_last() =~= s.subrange(0, k));
        assert(is_digit(s[k]));
    } else {
        assert(s.subrange(0, k) =~= s);
    }
}

// ---------------------------------------------------------------------------
// Executable helpers
// ---------------------------------------------------------------------------

/// `String::push` (std, unspecified by vstd): trusted to leave the string
/// as it was with `c` appended at the end.
#[verifier::external_body]
pub(crate) fn push_char(s: &mut String, c: char)
    ensures
        final(s)@ == old(s)@.push(c),
{
    s.push(c);
}

/// The characters of `s`, in order.
pub fn chars_of(s: &str) -> (res: Vec<char>)
    ensures
        res@ == s@,
{
    let mut res: Vec<char> = Vec::new();
    for c in it: s.chars()
        invariant
            res@ == it.seq().take(it.index() as int),
    {
        res.push(c);
    }
    res
}

/// A `String` holding `v[lo..hi]`.
pub fn string_of(v: &Vec<char>, lo: usize, hi: usize) -> (res: String)
    requires
        lo <= hi <= v.len(),
    ensures
        res@ == v@.subrange(lo as int, hi as int),
{
    let mut res = String::new();
    let mut i = lo;
    while i < hi
        invariant
            lo <= i <= hi <= v.len(),
            res@ == v@.subrange(lo as int, i as int),
        decreases hi - i,
    {
        push_char(&mut res, v[i]);
        assert(v@.subrange(lo as int, i + 1) =~= v@.subrange(lo as int, i as int).push(v[i as int]));
        i = i + 1;
    }
    res
}

/// An owned copy of `s`.
pub fn owned(s: &str) -> (res: String)
    ensures
        res@ == s@,
{
    let v = chars_of(s);
    string_of(&v, 0, v.len())
}

/// Appends the characters of `t` to `s`.
pub fn push_str(s: &mut String, t: &str)
    ensures
        final(s)@ == old(s)@ + t@,
{
    let v = chars_of(t);
    let mut i: usize = 0;
    while i < v.len()
        invariant
            0 <= i <= v.len(),
            v@ == t@,
            s@ == old(s)@ + v@.subrange(0, i as int),
        decreases v.len() - i,
    {
        push_char(s, v[i]);
        assert(v@.subrange(0, i + 1) =~= v@.subrange(0, i as int).push(v[i as int]));
        i = i + 1;
    }
    assert(v@.subrange(0, v.len() as int) =~= v@);
}

/// Concatenation of two strings.
pub fn concat2(a: &str, b: &str) -> (res: String)
    ensures
        res@ == a@ + b@,
{
    let mut r = owned(a);
    push_str(&mut r, b);
    r
}

/// Concatenation of three strings.
pub fn concat3(a: &str, b: &str, c: &str) -> (res: String)
    ensures
        res@ == a@ + b@ + c@,
{
    let mut r = owned(a);
    push_str(&mut r, b);
    push_str(&mut r, c);
    r
}

/// Equality of two strings.
pub fn str_eq(a: &str, b: &str) -> (res: bool)
    ensures
        res == (a@ == b@),
{
    let x = chars_of(a);
    let y = chars_of(b);
    if x.len() != y.len() {
        return false;
    }
    let mut i: usize = 0;
    while i < x.len()
        invariant
            x@ == a@,
            y@ == b@,
            x.len() == y.len(),
            0 <= i <= x.len(),
            forall|j: int| 0 <= j < i ==> x@[j] == y@[j],
        decreases x.len() - i,
    {
        if x[i] != y[i] {
            return false;
        }
        i = i + 1;
    }
    assert(x@ =~= y@);
    true
}

/// `pat` occurs in `s` at index `i`.
pub fn occurs_at_exec(s: &Vec<char>, pat: &Vec<char>, i: usize) -> (res: bool)
    ensures
        res == occurs_at(s@, pat@, i as int),
{
    if i > s.len() || pat.len() > s.len() - i {
        return false;
    }
    let mut j: usize = 0;
    while j < pat.len()
        invariant
            i + pat.len() <= s.len(),
            0 <= j <= pat.len(),
            forall|k: int| 0 <= k < j ==> s@[i + k] == pat@[k],
        decreases pat.len() - j,
    {
        if s[i + j] != pat[j] {
            assert(s@.subrange(i as int, i + pat.len())[j as int] != pat@[j as int]);
            return false;
        }
        j = j + 1;
    }
    assert(s@.subrange(i as int, i + pat.len()) =~= pat@);
    true
}

/// `str::contains` over character vectors.
pub fn contains_chars(s: &Vec<char>, pat: &Vec<char>) -> (res: bool)
    ensures
        res == has_substr(s@, pat@),
{
    if pat.len() > s.len() {
        return false;
    }
    let last = s.len() - pat.len();
    let mut i: usize = 0;
    while i < last
        invariant
            last == s.len() - pat.len(),
            0 <= i <= last,
            forall|k: int| 0 <= k < i ==> !occurs_at(s@, pat@, k),
        decreases last - i,
    {
        if occurs_at_exec(s, pat, i) {
            return true;
        }
        i = i + 1;
    }
    if occurs_at_exec(s, pat, last) {
        return true;
    }
    assert forall|k: int| !occurs_at(s@, pat@, k) by {
        if 0 <= k < i {
        }
    }
    false
}

/// `str::contains` with a string pattern.
pub fn contains(s: &str, pat: &str) -> (res: bool)
    ensures
        res == has_substr(s@, pat@),
{
    let a = chars_of(s);
    let b = chars_of(pat);
    contains_chars(&a, &b)
}

/// `str::starts_with` with a string pattern.
pub fn starts_with_str(s: &str, pat: &str) -> (res: bool)
    ensures
        res == starts_with(s@, pat@),
{
    let a = chars_of(s);
    let b = chars_of(pat);
    occurs_at_exec(&a, &b, 0)
}

/// `str::trim`.
pub fn trim_str(s: &str) -> (res: String)
    ensures
        res@ == trim(s@),
{
    let v = chars_of(s);
    let mut lo: usize = 0;
    while lo < v.len() && white_char(v[lo])
        invariant
            0 <= lo <= v.len(),
            forall|j: int| 0 <= j < lo ==> is_white(#[trigger] v@[j]),
        decreases v.len() - lo,
    {
        lo = lo + 1;
    }
    proof {
        lemma_trim_start_at(v@, lo as int);
    }
    let mut hi: usize = v.len();
    while hi > lo && white_char(v[hi - 1])
        invariant
            lo <= hi <= v.len(),
            forall|j: int| hi <= j < v.len() ==> is_white(#[trigger] v@[j]),
        decreases hi,
    {
        hi = hi - 1;
    }
    proof {
        let t = v@.subrange(lo as int, v.len() as int);
        assert forall|j: int| hi - lo <= j < t.len() implies is_white(#[trigger] t[j]) by {
            assert(t[j] == v@[j + lo]);
        }
        if hi > lo {
            assert(t[hi - lo - 1] == v@[hi - 1]);
        }
        lemma_trim_end_at(t, hi - lo);
        assert(t.subrange(0, hi - lo) =~= v@.subrange(lo as int, hi as int));
    }
    string_of(&v, lo, hi)
}

/// `str::trim_end_matches` with a single character.
pub fn trim_end_char_str(s: &str, c: char) -> (res: String)
    ensures
        res@ == trim_end_char(s@, c),
{
    let v = chars_of(s);
    let mut hi: usize = v.len();
    while hi > 0 && v[hi - 1] == c
        invariant
            0 <= hi <= v.len(),
            forall|j: int| hi <= j < v.len() ==> #[trigger] v@[j] == c,
        decreases hi,
    {
        hi = hi - 1;
    }
    proof {
        lemma_trim_end_char_at(v@, c, hi as int);
    }
    string_of(&v, 0, hi)
}

/// `str::to_ascii_lowercase`.
pub fn lowercase_str(s: &str) -> (res: String)
    ensures
        res@ == lower(s@),
{
    let v = chars_of(s);
    let mut res = String::new();
    let mut i: usize = 0;
    while i < v.len()
        invariant
            0 <= i <= v.len(),
            res@ == lower(v@.subrange(0, i as int)),
        decreases v.len() - i,
    {
        let c = lowercase_char(v[i]);
        push_char(&mut res, c);
        assert(lower(v@.subrange(0, i + 1)) =~= lower(v@.subrange(0, i as int)).push(c));
        i = i + 1;
    }
    assert(v@.subrange(0, v.len() as int) =~= v@);
    res
}

/// `str::replace` with a non-empty pattern.
pub fn replace_str(s: &str, pat: &str, rep: &str) -> (res: String)
    requires
        pat@.len() > 0,
    ensures
        res@ == replace_all(s@, pat@, rep@),
{
    let v = chars_of(s);
    let p = chars_of(pat);
    let mut res = String::new();
    let mut i: usize = 0;
    assert(v@.subrange(0, v.len() as int) =~= v@);
    assert(res@ + replace_all(v@, p@, rep@) =~= replace_all(v@, p@, rep@));
    while i < v.len()
        invariant
            p@ == pat@,
            p@.len() > 0,
            0 <= i <= v.len(),
            res@ + replace_all(v@.subrange(i as int, v.len() as int), p@, rep@) == replace_all(
                v@,
                p@,
                rep@,
            ),
        decreases v.len() - i,
    {
        let ghost before = res@;
        if p.len() <= v.len() - i && occurs_at_exec(&v, &p, i) {
            proof {
                lemma_replace_step(v@, p@, rep@, i as int);
            }
            push_str(&mut res, rep);
            assert(before + (rep@ + replace_all(v@.subrange(i + p.len(), v.len() as int), p@, rep@))
                =~= res@ + replace_all(v@.subrange(i + p.len(), v.len() as int), p@, rep@));
            i = i + p.len();
        } else if p.len() <= v.len() - i {
            proof {
                lemma_replace_step(v@, p@, rep@, i as int);
                assert(!occurs_at(v@, p@, i as int));
            }
            push_char(&mut res, v[i]);
            assert(before + (seq![v@[i as int]] + replace_all(v@.subrange(i + 1, v.len() as int), p@, rep@))
                =~= res@ + replace_all(v@.subrange(i + 1, v.len() as int), p@, rep@));
            i = i + 1;
        } else {
            // too short for another occurrence: the rest is copied verbatim
            let ghost rest = v@.subrange(i as int, v.len() as int);
            assert(replace_all(rest, p@, rep@) == rest);
            let tail = string_of(&v, i, v.len());
            push_str(&mut res, tail.as_str());
            proof {
                let empty = v@.subrange(v.len() as int, v.len() as int);
                assert(empty.len() == 0);
                assert(replace_all(empty, p@, rep@) == empty);
                assert(res@ + replace_all(empty, p@, rep@) =~= before + rest);
            }
            i = v.len();
        }
    }
    assert(v@.subrange(v.len() as int, v.len() as int).len() == 0);
    assert(res@ + replace_all(v@.subrange(v.len() as int, v.len() as int), p@, rep@) =~= res@);
    assert(v@.subrange(0, v.len() as int) =~= v@);
    res
}

/// Index of the first `c` in `v`, or its length.
pub fn find_char(v: &Vec<char>, c: char) -> (k: usize)
    ensures
        k == before_char(v@, c).len(),
        k <= v.len(),
{
    let mut k: usize = 0;
    while k < v.len() && v[k] != c
        invariant
            0 <= k <= v.len(),
            forall|i: int| 0 <= i < k ==> v@[i] != c,
        decreases v.len() - k,
    {
        k = k + 1;
    }
    proof {
        lemma_before_char(v@, c);
        let b = before_char(v@, c).len() as int;
        if k < b {
            assert(v@[k as int] != c);
        }
        if b < k {
            assert(has_char(v@, c));
        }
    }
    k
}

/// The part of `s` before the first `c` (`s.split(c).next()`).
pub fn before_char_str(s: &str, c: char) -> (res: String)
    ensures
        res@ == before_char(s@, c),
{
    let v = chars_of(s);
    let k = find_char(&v, c);
    proof {
        lemma_before_char(v@, c);
    }
    string_of(&v, 0, k)
}

pub open spec fn views(v: Seq<String>) -> Seq<Seq<char>> {
    v.map_values(|x: String| x@)
}

/// `splitn(n, sep)` over `v[lo..]`.
fn split_n_from(v: &Vec<char>, lo: usize, sep: char, n: usize) -> (res: Vec<String>)
    requires
        lo <= v.len(),
    ensures
        views(res@) == split_n(v@.subrange(lo as int, v.len() as int), sep, n as nat),
    decreases v.len() - lo,
{
    let ghost s = v@.subrange(lo as int, v.len() as int);
    let mut k = lo;
    while k < v.len() && v[k] != sep
        invariant
            lo <= k <= v.len(),
            forall|i: int| lo <= i < k ==> v@[i] != sep,
        decreases v.len() - k,
    {
        k = k + 1;
    }
    proof {
        lemma_before_char(s, sep);
        let b = before_char(s, sep).len() as int;
        if k - lo < b {
            assert(s[k - lo] != sep);
            assert(s[k - lo] == v@[k as int]);
        }
        if b < k - lo {
            assert(has_char(s, sep));
            assert(s[b] == v@[lo + b]);
        }
        assert(k - lo == b);
        if k < v.len() {
            assert(s[k - lo] == v@[k as int]);
            assert(has_char(s, sep));
        } else {
            assert forall|i: int| 0 <= i < s.len() implies s[i] != sep by {
                assert(s[i] == v@[lo + i]);
            }
        }
    }
    if n <= 1 || k >= v.len() {
        let whole = string_of(v, lo, v.len());
        let mut r: Vec<String> = Vec::new();
        r.push(whole);
        assert(views(r@) =~= seq![s]);
        assert(split_n(s, sep, n as nat) == seq![s]);
        r
    } else {
        let head = string_of(v, lo, k);
        let rest = split_n_from(v, k + 1, sep, n - 1);
        let mut r: Vec<String> = Vec::new();
        r.push(head);
        let mut i: usize = 0;
        while i < rest.len()
            invariant
                0 <= i <= rest.len(),
                r@.len() == i + 1,
                r@[0] == head,
                forall|j: int| 0 <= j < i ==> r@[j + 1] == rest@[j],
            decreases rest.len() - i,
        {
            r.push(rest[i].clone());
            i = i + 1;
        }
        proof {
            assert(s.subrange(b_len(s, sep) + 1, s.len() as int) =~= v@.subrange(k + 1, v.len() as int));
            assert(views(r@) =~= seq![head@] + views(rest@));
            assert(head@ == before_char(s, sep));
            assert(split_n(s, sep, n as nat) == seq![before_char(s, sep)] + split_n(
                s.subrange(b_len(s, sep) + 1, s.len() as int),
                sep,
                (n - 1) as nat,
            ));
        }
        r
    }
}

spec fn b_len(s: Seq<char>, c: char) -> int {
    before_char(s, c).len() as int
}

/// `str::splitn(n, sep)` for `n >= 1`.
pub fn split_n_str(s: &str, sep: char, n: usize) -> (res: Vec<String>)
    ensures
        views(res@) == split_n(s@, sep, n as nat),
{
    let v = chars_of(s);
    assert(v@.subrange(0, v.len() as int) =~= v@);
    split_n_from(&v, 0, sep, n)
}

/// The decimal digits of `n`.
pub fn decimal_string(n: u64) -> (res: String)
    ensures
        res@ == decimal(n as nat),
    decreases n,
{
    let d: u64 = n % 10;
    let c: char = ((d as u8) + 48) as char;
    assert(c == ((n as nat % 10) + 48) as char);
    if n < 10 {
        let mut r = String::new();
        push_char(&mut r, c);
        assert(r@ =~= seq![c]);
        r
    } else {
        let mut r = decimal_string(n / 10);
        push_char(&mut r, c);
        r
    }
}

/// `str::parse::<u32>`.
pub fn parse_u32_str(s: &str) -> (res: Option<u32>)
    ensures
        res == parse_u32(s@),
{
    let v = chars_of(s);
    let start: usize = if v.len() > 0 && v[0] == '+' {
        1
    } else {
        0
    };
    let ghost d = v@.subrange(start as int, v.len() as int);
    assert(d == (if s@.len() > 0 && s@[0] == '+' {
        s@.drop_first()
    } else {
        s@
    }));
    if start >= v.len() {
        assert(d.len() == 0);
        return None;
    }
    let mut acc: u64 = 0;
    let mut over = false;
    let mut i: usize = start;
    while i < v.len()
        invariant
            start <= i <= v.len(),
            v@ == s@,
            d == v@.subrange(start as int, v.len() as int),
            d == (if s@.len() > 0 && s@[0] == '+' {
                s@.drop_first()
            } else {
                s@
            }),
            forall|k: int| start <= k < i ==> is_digit(#[trigger] v@[k]),
            !over ==> acc as nat == digits_value(v@.subrange(start as int, i as int)) && acc
                <= u32::MAX,
            over ==> digits_value(v@.subrange(start as int, i as int)) > u32::MAX,
        decreases v.len() - i,
    {
        let c = v[i];
        if !digit_char(c) {
            assert(d[i - start] == c);
            assert(!all_digits(d));
            return None;
        }
        proof {
            lemma_digits_value_push(v@.subrange(start as int, i as int), c);
            assert(v@.subrange(start as int, i + 1) =~= v@.subrange(start as int, i as int).push(c));
        }
        if !over {
            let digit: u64 = ((c as u32) - 48) as u64;
            acc = acc * 10 + digit;
            if acc > 0xffff_ffff {
                over = true;
            }
        }
        i = i + 1;
    }
    assert(v@.subrange(start as int, i as int) =~= d);
    assert(all_digits(d)) by {
        assert forall|k: int| 0 <= k < d.len() implies is_digit(d[k]) by {
            assert(d[k] == v@[k + start]);
        }
    }
    if over {
        None
    } else {
        Some(acc as u32)
    }
}

/// `str::split_whitespace`: the maximal runs of non-whitespace characters.
pub open spec fn words(s: Seq<char>) -> Seq<Seq<char>>
    decreases s.len(),
{
    if s.len() == 0 {
        Seq::empty()
    } else {
        let ws = words(s.drop_last());
        let c = s.last();
        if is_white(c) {
            ws
        } else if s.len() >= 2 && !is_white(s[s.len() - 2]) {
            ws.update(ws.len() - 1, ws.last().push(c))
        } else {
            ws.push(seq![c])
        }
    }
}

/// `str::split_whitespace`, collected.
pub fn split_whitespace_str(s: &str) -> (res: Vec<String>)
    ensures
        views(res@) == words(s@),
{
    let v = chars_of(s);
    let mut res: Vec<String> = Vec::new();
    let mut cur: Vec<char> = Vec::new();
    let mut i: usize = 0;
    while i < v.len()
        invariant
            0 <= i <= v.len(),
            v@ == s@,
            i > 0 && !is_white(v@[i - 1]) ==> cur.len() > 0 && views(res@).push(cur@) == words(
                v@.subrange(0, i as int),
            ),
            !(i > 0 && !is_white(v@[i - 1])) ==> cur.len() == 0 && views(res@) == words(
                v@.subrange(0, i as int),
            ),
        decreases v.len() - i,
    {
        let c = v[i];
        let ghost p = v@.subrange(0, i + 1);
        let ghost res0 = res@;
        let ghost cur0 = cur@;
        assert(p.drop_last() =~= v@.subrange(0, i as int));
        assert(p.last() == c);
        if white_char(c) {
            if cur.len() > 0 {
                let w = string_of(&cur, 0, cur.len());
                assert(cur@.subrange(0, cur.len() as int) =~= cur@);
                res.push(w);
                cur = Vec::new();
                assert(views(res@) =~= views(res0).push(cur0));
            }
        } else {
            cur.push(c);
            proof {
                if i > 0 && !is_white(v@[i - 1]) {
                    assert(views(res@).push(cur@) =~= views(res0).push(cur0).update(
                        views(res0).push(cur0).len() - 1,
                        views(res0).push(cur0).last().push(c),
                    ));
                } else {
                    assert(cur@ =~= seq![c]);
                }
            }
        }
        i = i + 1;
    }
    assert(v@.subrange(0, v.len() as int) =~= v@);
    if cur.len() > 0 {
        let ghost res0 = res@;
        let w = string_of(&cur, 0, cur.len());
        assert(cur@.subrange(0, cur.len() as int) =~= cur@);
        res.push(w);
        assert(views(res@) =~= views(res0).push(cur@));
    }
    res
}

/// The digits of an unsigned number as `str::parse` reads them: one
/// leading `+` is allowed.
pub open spec fn unsigned_digits(s: Seq<char>) -> Seq<char> {
    if s.len() > 0 && s[0] == '+' {
        s.drop_first()
    } else {
        s
    }
}

/// `str::parse` into an unsigned integer type whose largest value is
/// `max`: an optional `+`, at least one ASCII digit, and a value that fits.
pub open spec fn parse_unsigned(s: Seq<char>, max: nat) -> Option<nat> {
    let d = unsigned_digits(s);
    if d.len() > 0 && all_digits(d) && digits_value(d) <= max {
        Some(digits_value(d))
    } else {
        None
    }
}

/// `str::parse` into an unsigned integer type whose largest value is `max`.
pub fn parse_unsigned_str(s: &str, max: u64) -> (res: Option<u64>)
    ensures
        match parse_unsigned(s@, max as nat) {
            Some(n) => res == Some(n as u64),
            None => res is None,
        },
{
    let v = chars_of(s);
    let start: usize = if v.len() > 0 && v[0] == '+' {
        1
    } else {
        0
    };
    let ghost d = v@.subrange(start as int, v.len() as int);
    assert(d == unsigned_digits(s@));
    if start >= v.len() {
        assert(d.len() == 0);
        return None;
    }
    let mut acc: u128 = 0;
    let mut over = false;
    let mut i: usize = start;
    while i < v.len()
        invariant
            start <= i <= v.len(),
            v@ == s@,
            d == v@.subrange(start as int, v.len() as int),
            d == unsigned_digits(s@),
            forall|k: int| start <= k < i ==> is_digit(#[trigger] v@[k]),
            !over ==> acc as nat == digits_value(v@.subrange(start as int, i as int)) && acc
                <= max,
            over ==> digits_value(v@.subrange(start as int, i as int)) > max,
        decreases v.len() - i,
    {
        let c = v[i];
        if !digit_char(c) {
            assert(d[i - start] == c);
            assert(!all_digits(d));
            return None;
        }
        proof {
            lemma_digits_value_push(v@.subrange(start as int, i as int), c);
            assert(v@.subrange(start as int, i + 1) =~= v@.subrange(start as int, i as int).push(c));
        }
        if !over {
            let digit: u128 = ((c as u32) - 48) as u128;
            acc = acc * 10 + digit;
            if acc > max as u128 {
                over = true;
            }
        }
        i = i + 1;
    }
    assert(v@.subrange(start as int, i as int) =~= d);
    assert(all_digits(d)) by {
        assert forall|k: int| 0 <= k < d.len() implies is_digit(d[k]) by {
            assert(d[k] == v@[k + start]);
        }
    }
    if over {
        None
    } else {
        Some(acc as u64)
    }
}

/// Appends a line to a list of lines.
pub fn push_line(v: &mut Vec<String>, s: String)
    ensures
        views(final(v)@) == views(old(v)@).push(s@),
{
    let ghost before = v@;
    v.push(s);
    assert(views(v@) =~= views(before).push(v@.last()@));
}

/// Index of the first `c` at or after `lo`, or the length.
pub fn find_char_from(v: &Vec<char>, lo: usize, c: char) -> (k: usize)
    requires
        lo <= v.len(),
    ensures
        k - lo == before_char(v@.subrange(lo as int, v.len() as int), c).len(),
        lo <= k <= v.len(),
{
    let ghost rest = v@.subrange(lo as int, v.len() as int);
    let mut k: usize = lo;
    while k < v.len() && v[k] != c
        invariant
            lo <= k <= v.len(),
            rest == v@.subrange(lo as int, v.len() as int),
            forall|i: int| lo <= i < k ==> v@[i] != c,
        decreases v.len() - k,
    {
        k = k + 1;
    }
    proof {
        lemma_before_char(rest, c);
        let b = before_char(rest, c).len() as int;
        if k - lo < b {
            assert(rest[k - lo] == v@[k as int]);
        }
        if b < k - lo {
            assert(rest[b] == v@[lo + b]);
        }
    }
    k
}

} // verus!
