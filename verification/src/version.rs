//! Release versions: their numbers, and which of two is newer.

use vstd::prelude::*;

use crate::text::{
    before_char, chars_of, find_char_from, has_char, lemma_before_char, parse_unsigned,
    parse_unsigned_str, string_of,
};

verus! {

/// `s` without its leading `v`s.
pub open spec fn without_v(s: Seq<char>) -> Seq<char>
    decreases s.len(),
{
    if s.len() > 0 && s[0] == 'v' {
        without_v(s.drop_first())
    } else {
        s
    }
}

/// The dotted core of a version: no leading `v`, no pre-release (`-…`)
/// or build (`+…`) part.
pub open spec fn version_core(s: Seq<char>) -> Seq<char> {
    before_char(before_char(without_v(s), '-'), '+')
}

/// The leading dot-separated parts of `c` that are numbers.
pub open spec fn leading_numbers(c: Seq<char>) -> Seq<nat>
    decreases c.len(),
{
    let part = before_char(c, '.');
    match parse_unsigned(part, u64::MAX as nat) {
        None => Seq::empty(),
        Some(n) => if has_char(c, '.') {
            proof {
                lemma_before_char(c, '.');
            }
            seq![n] + leading_numbers(c.subrange(part.len() as int + 1, c.len() as int))
        } else {
            seq![n]
        },
    }
}

/// The numbers of a version, such as `[1, 4, 2]` for `v1.4.2-rc1`.
pub open spec fn version_numbers(s: Seq<char>) -> Seq<nat> {
    leading_numbers(version_core(s))
}

/// `a` sorts before `b` as lists of numbers do: element by element, a
/// proper prefix first.
pub open spec fn numbers_before(a: Seq<nat>, b: Seq<nat>) -> bool
    decreases a.len(),
{
    if a.len() == 0 {
        b.len() > 0
    } else if b.len() == 0 {
        false
    } else if a[0] != b[0] {
        a[0] < b[0]
    } else {
        numbers_before(a.drop_first(), b.drop_first())
    }
}

fn strip_v(v: &Vec<char>) -> (k: usize)
    ensures
        k <= v.len(),
        v@.subrange(k as int, v.len() as int) == without_v(v@),
{
    let mut k: usize = 0;
    assert(v@.subrange(0, v.len() as int) =~= v@);
    while k < v.len() && v[k] == 'v'
        invariant
            0 <= k <= v.len(),
            without_v(v@.subrange(k as int, v.len() as int)) == without_v(v@),
        decreases v.len() - k,
    {
        assert(v@.subrange(k as int, v.len() as int).drop_first() =~= v@.subrange(
            k + 1,
            v.len() as int,
        ));
        k = k + 1;
    }
    k
}

/// The numbers of a version.
pub fn parse_version(s: &str) -> (r: Vec<u64>)
    ensures
        r@.len() == version_numbers(s@).len(),
        forall|i: int| 0 <= i < r@.len() ==> r@[i] as nat == #[trigger] version_numbers(s@)[i],
{
    let v = chars_of(s);
    let k = strip_v(&v);
    let t = string_of(&v, k, v.len());
    let w = chars_of(t.as_str());
    let m1 = find_char_from(&w, 0, '-');
    assert(w@.subrange(0, w.len() as int) =~= w@);
    proof {
        lemma_before_char(w@, '-');
    }
    let u = string_of(&w, 0, m1);
    let x = chars_of(u.as_str());
    let m2 = find_char_from(&x, 0, '+');
    assert(x@.subrange(0, x.len() as int) =~= x@);
    proof {
        lemma_before_char(x@, '+');
    }
    let c = string_of(&x, 0, m2);
    assert(c@ == version_core(s@));
    let cv = chars_of(c.as_str());
    let mut out: Vec<u64> = Vec::new();
    let ghost acc: Seq<nat> = Seq::empty();
    let mut lo: usize = 0;
    assert(cv@.subrange(0, cv.len() as int) =~= cv@);
    while lo <= cv.len()
        invariant
            0 <= lo <= cv.len(),
            out@.len() == acc.len(),
            forall|i: int| 0 <= i < acc.len() ==> out@[i] as nat == #[trigger] acc[i],
            version_numbers(s@) == acc + leading_numbers(cv@.subrange(lo as int, cv.len() as int)),
        decreases cv.len() + 1 - lo,
    {
        let ghost rest = cv@.subrange(lo as int, cv.len() as int);
        let e = find_char_from(&cv, lo, '.');
        proof {
            lemma_before_char(rest, '.');
        }
        let part = string_of(&cv, lo, e);
        assert(part@ =~= before_char(rest, '.'));
        match parse_unsigned_str(part.as_str(), u64::MAX) {
            None => {
                assert(leading_numbers(rest) =~= Seq::<nat>::empty());
                assert(version_numbers(s@) =~= acc);
                return out;
            },
            Some(n) => {
                proof {
                    acc = acc.push(n as nat);
                }
                out.push(n);
                if e == cv.len() {
                    assert(!has_char(rest, '.'));
                    assert(leading_numbers(rest) =~= seq![n as nat]);
                    assert(version_numbers(s@) =~= acc);
                    return out;
                }
                assert(has_char(rest, '.'));
                assert(rest.subrange(part@.len() as int + 1, rest.len() as int) =~= cv@.subrange(
                    e + 1,
                    cv.len() as int,
                ));
                lo = e + 1;
            },
        }
    }
    out
}

/// Whether release `latest` is newer than `current`, by their numbers.
pub fn is_newer(latest: &str, current: &str) -> (r: bool)
    ensures
        r == numbers_before(version_numbers(current@), version_numbers(latest@)),
{
    let a = parse_version(current);
    let b = parse_version(latest);
    let ghost sa = version_numbers(current@);
    let ghost sb = version_numbers(latest@);
    let mut i: usize = 0;
    assert(sa.skip(0) =~= sa);
    assert(sb.skip(0) =~= sb);
    while i < a.len() && i < b.len()
        invariant
            0 <= i <= a.len(),
            i <= b.len(),
            sa == version_numbers(current@),
            sb == version_numbers(latest@),
            a@.len() == sa.len(),
            b@.len() == sb.len(),
            forall|k: int| 0 <= k < a@.len() ==> a@[k] as nat == #[trigger] sa[k],
            forall|k: int| 0 <= k < b@.len() ==> b@[k] as nat == #[trigger] sb[k],
            numbers_before(sa, sb) == numbers_before(sa.skip(i as int), sb.skip(i as int)),
        decreases a.len() - i,
    {
        assert(sa.skip(i as int)[0] == sa[i as int]);
        assert(sb.skip(i as int)[0] == sb[i as int]);
        assert(a@[i as int] as nat == sa[i as int]);
        assert(b@[i as int] as nat == sb[i as int]);
        let x = a[i];
        let y = b[i];
        if x != y {
            assert(numbers_before(sa.skip(i as int), sb.skip(i as int)) == (sa[i as int]
                < sb[i as int]));
            return x < y;
        }
        assert(sa.skip(i as int).drop_first() =~= sa.skip(i + 1));
        assert(sb.skip(i as int).drop_first() =~= sb.skip(i + 1));
        i = i + 1;
    }
    i == a.len() && i < b.len()
}

} // verus!
