//! Local addresses: which ones to offer as "the server's address", and
//! which ones make sense to bind to but never to advertise.

use vstd::prelude::*;

use crate::text::{
    all_digits, chars_of, concat3, digit_char, digits_value, is_digit, lemma_digits_value_push,
    owned, push_str, split_n, split_n_str, str_eq, views,
};

verus! {

// ---------------------------------------------------------------------------
// IPv4 literals
// ---------------------------------------------------------------------------

/// One part of a dotted quad as `Ipv4Addr::from_str` takes it: one to
/// three ASCII digits, at most 255, and no leading zero (octal is refused).
pub open spec fn octet_ok(g: Seq<char>) -> bool {
    &&& 1 <= g.len() <= 3
    &&& all_digits(g)
    &&& digits_value(g) <= 255
    &&& (g.len() == 1 || g[0] != '0')
}

/// `s` is an IPv4 literal: four octets separated by dots.
pub open spec fn ipv4_ok(s: Seq<char>) -> bool {
    let parts = split_n(s, '.', 5);
    parts.len() == 4 && forall|i: int| 0 <= i < 4 ==> octet_ok(#[trigger] parts[i])
}

/// The first octet of an IPv4 literal.
pub open spec fn first_octet(s: Seq<char>) -> nat {
    digits_value(split_n(s, '.', 5)[0])
}

/// Addresses that make sense to bind to but never to advertise: the
/// wildcard, and the loopback network (first octet 127).
pub open spec fn spec_unroutable(ip: Seq<char>) -> bool {
    ip == "0.0.0.0"@ || (ipv4_ok(ip) && first_octet(ip) == 127)
}

fn octet_value(g: &str) -> (r: Option<u32>)
    ensures
        r matches Some(v) ==> octet_ok(g@) && v == digits_value(g@),
        r is None ==> !octet_ok(g@),
{
    let v = chars_of(g);
    if v.len() < 1 || v.len() > 3 {
        return None;
    }
    let mut acc: u32 = 0;
    let mut i: usize = 0;
    while i < v.len()
        invariant
            0 <= i <= v.len() <= 3,
            v@ == g@,
            forall|k: int| 0 <= k < i ==> is_digit(#[trigger] v@[k]),
            acc == digits_value(v@.subrange(0, i as int)),
            (i == 0 && acc == 0) || (i == 1 && acc < 10) || (i == 2 && acc < 100) || (i == 3
                && acc < 1000),
        decreases v.len() - i,
    {
        let c = v[i];
        if !digit_char(c) {
            assert(!all_digits(g@)) by {
                assert(!is_digit(g@[i as int]));
            }
            return None;
        }
        proof {
            lemma_digits_value_push(v@.subrange(0, i as int), c);
            assert(v@.subrange(0, i + 1) =~= v@.subrange(0, i as int).push(c));
        }
        acc = acc * 10 + ((c as u32) - 48);
        i = i + 1;
    }
    assert(v@.subrange(0, v.len() as int) =~= v@);
    if acc > 255 {
        return None;
    }
    if v.len() > 1 && v[0] == '0' {
        return None;
    }
    Some(acc)
}

/// The octets of an IPv4 literal, by `Ipv4Addr::from_str`'s rules.
pub fn parse_ipv4(s: &str) -> (r: Option<Vec<u32>>)
    ensures
        r is Some <==> ipv4_ok(s@),
        r matches Some(o) ==> o@.len() == 4 && forall|i: int|
            0 <= i < 4 ==> #[trigger] o@[i] == digits_value(split_n(s@, '.', 5)[i]),
{
    let parts = split_n_str(s, '.', 5);
    let ghost ps = split_n(s@, '.', 5);
    assert(views(parts@) == ps);
    if parts.len() != 4 {
        return None;
    }
    let mut out: Vec<u32> = Vec::new();
    let mut i: usize = 0;
    while i < 4
        invariant
            0 <= i <= 4,
            parts.len() == 4,
            views(parts@) == ps,
            ps == split_n(s@, '.', 5),
            out@.len() == i,
            forall|k: int| 0 <= k < i ==> octet_ok(#[trigger] ps[k]) && out@[k] == digits_value(ps[k]),
        decreases 4 - i,
    {
        assert(parts@[i as int]@ == ps[i as int]);
        match octet_value(parts[i].as_str()) {
            Some(v) => {
                out.push(v);
            },
            None => {
                return None;
            },
        }
        i = i + 1;
    }
    Some(out)
}

/// Bindable but useless to advertise: `addr = "0.0.0.0"` would give hosts
/// a one-liner pointing at `http://0.0.0.0:8080`.
pub fn is_unroutable_advertised(ip: &str) -> (r: bool)
    ensures
        r == spec_unroutable(ip@),
{
    proof {
        reveal_strlit("0.0.0.0");
    }
    if str_eq(ip, "0.0.0.0") {
        return true;
    }
    match parse_ipv4(ip) {
        Some(o) => o[0] == 127,
        None => false,
    }
}

// ---------------------------------------------------------------------------
// Text order
// ---------------------------------------------------------------------------

/// `a` sorts before `b` as `String`s do: character by character, a proper
/// prefix first.
pub open spec fn text_lt(a: Seq<char>, b: Seq<char>) -> bool
    decreases a.len(),
{
    if a.len() == 0 {
        b.len() > 0
    } else if b.len() == 0 {
        false
    } else if a[0] != b[0] {
        a[0] < b[0]
    } else {
        text_lt(a.drop_first(), b.drop_first())
    }
}

pub proof fn lemma_text_lt_irreflexive(a: Seq<char>)
    ensures
        !text_lt(a, a),
    decreases a.len(),
{
    if a.len() > 0 {
        lemma_text_lt_irreflexive(a.drop_first());
    }
}

pub proof fn lemma_text_lt_transitive(a: Seq<char>, b: Seq<char>, c: Seq<char>)
    requires
        text_lt(a, b),
        text_lt(b, c),
    ensures
        text_lt(a, c),
    decreases a.len(),
{
    if a.len() > 0 && b.len() > 0 && c.len() > 0 && a[0] == b[0] && b[0] == c[0] {
        lemma_text_lt_transitive(a.drop_first(), b.drop_first(), c.drop_first());
    }
}

pub proof fn lemma_text_lt_total(a: Seq<char>, b: Seq<char>)
    ensures
        a == b || text_lt(a, b) || text_lt(b, a),
    decreases a.len(),
{
    if a.len() > 0 && b.len() > 0 && a[0] == b[0] {
        lemma_text_lt_total(a.drop_first(), b.drop_first());
        if a.drop_first() == b.drop_first() {
            assert forall|i: int| 0 <= i < a.len() implies a[i] == b[i] by {
                if i > 0 {
                    assert(a[i] == a.drop_first()[i - 1]);
                    assert(b[i] == b.drop_first()[i - 1]);
                }
            }
            assert(a =~= b);
        }
    } else if a.len() == 0 && b.len() == 0 {
        assert(a =~= b);
    }
}

proof fn lemma_text_lt_asymmetric(a: Seq<char>, b: Seq<char>)
    requires
        text_lt(a, b),
    ensures
        !text_lt(b, a),
{
    if text_lt(b, a) {
        lemma_text_lt_transitive(a, b, a);
        lemma_text_lt_irreflexive(a);
    }
}

/// `a < b` on strings.
pub fn text_less(a: &str, b: &str) -> (r: bool)
    ensures
        r == text_lt(a@, b@),
{
    let x = chars_of(a);
    let y = chars_of(b);
    let mut i: usize = 0;
    assert(x@.subrange(0, x.len() as int) =~= x@);
    assert(y@.subrange(0, y.len() as int) =~= y@);
    while i < x.len() && i < y.len()
        invariant
            0 <= i <= x.len(),
            i <= y.len(),
            x@ == a@,
            y@ == b@,
            text_lt(a@, b@) == text_lt(x@.subrange(i as int, x.len() as int), y@.subrange(
                i as int,
                y.len() as int,
            )),
        decreases x.len() - i,
    {
        let ghost xs = x@.subrange(i as int, x.len() as int);
        let ghost ys = y@.subrange(i as int, y.len() as int);
        assert(xs[0] == x@[i as int] && ys[0] == y@[i as int]);
        if x[i] != y[i] {
            return x[i] < y[i];
        }
        assert(xs.drop_first() =~= x@.subrange(i + 1, x.len() as int));
        assert(ys.drop_first() =~= y@.subrange(i + 1, y.len() as int));
        i = i + 1;
    }
    i == x.len() && i < y.len()
}

// ---------------------------------------------------------------------------
// Offered addresses
// ---------------------------------------------------------------------------

/// A network interface as the operating system lists it.
#[derive(Debug)]
pub struct Interface {
    pub name: String,
    pub ip: String,
    pub is_ipv4: bool,
    pub is_loopback: bool,
}

/// The interfaces worth offering: IPv4 and not loopback, as
/// (label, address) with the label `"<ip> (<name>)"`.
pub open spec fn offered(ifs: Seq<Interface>) -> Seq<(Seq<char>, Seq<char>)>
    decreases ifs.len(),
{
    if ifs.len() == 0 {
        Seq::empty()
    } else {
        let rest = offered(ifs.drop_last());
        let f = ifs.last();
        if f.is_ipv4 && !f.is_loopback {
            rest.push((f.ip@ + " ("@ + f.name@ + ")"@, f.ip@))
        } else {
            rest
        }
    }
}

/// The first of `c` with address `ip`, if any.
pub open spec fn first_with(c: Seq<(Seq<char>, Seq<char>)>, ip: Seq<char>, k: int) -> Option<int>
    decreases c.len() - k,
{
    if k < 0 || k >= c.len() {
        None
    } else if c[k].1 == ip {
        Some(k)
    } else {
        first_with(c, ip, k + 1)
    }
}

pub open spec fn pair_view(p: (String, String)) -> (Seq<char>, Seq<char>) {
    (p.0@, p.1@)
}

/// A sorted list of distinct addresses drawn from `c`, each with the
/// label of its first occurrence there, holding every address of `c`.
pub open spec fn sorted_unique_of(
    s: Seq<(Seq<char>, Seq<char>)>,
    c: Seq<(Seq<char>, Seq<char>)>,
) -> bool {
    &&& forall|i: int, j: int| 0 <= i < j < s.len() ==> text_lt(#[trigger] s[i].1, #[trigger] s[j].1)
    &&& forall|i: int|
        0 <= i < s.len() ==> (#[trigger] first_with(c, s[i].1, 0)) is Some && s[i].0 == c[first_with(
            c,
            s[i].1,
            0,
        )->0].0
    &&& forall|j: int| 0 <= j < c.len() ==> exists|i: int| 0 <= i < s.len() && s[i].1 == (#[trigger] c[j]).1
}

proof fn lemma_first_with(c: Seq<(Seq<char>, Seq<char>)>, ip: Seq<char>, k: int)
    requires
        0 <= k,
    ensures
        first_with(c, ip, k) matches Some(j) ==> k <= j < c.len() && c[j].1 == ip && forall|m: int|
            k <= m < j ==> c[m].1 != ip,
        first_with(c, ip, k) is None ==> forall|m: int| k <= m < c.len() ==> #[trigger] c[m].1 != ip,
    decreases c.len() - k,
{
    if k < c.len() && c[k].1 != ip {
        lemma_first_with(c, ip, k + 1);
    }
}

proof fn lemma_first_with_push(c: Seq<(Seq<char>, Seq<char>)>, x: (Seq<char>, Seq<char>), ip: Seq<char>, k: int)
    requires
        0 <= k <= c.len(),
    ensures
        first_with(c, ip, k) is Some ==> first_with(c.push(x), ip, k) == first_with(c, ip, k),
        first_with(c, ip, k) is None ==> first_with(c.push(x), ip, k) == (if x.1 == ip {
            Some(c.len() as int)
        } else {
            None
        }),
    decreases c.len() - k,
{
    let d = c.push(x);
    if k < c.len() {
        assert(d[k] == c[k]);
        if c[k].1 != ip {
            lemma_first_with_push(c, x, ip, k + 1);
        }
    } else {
        assert(d[k] == x);
        assert(first_with(d, ip, k + 1) is None);
    }
}

/// The list of `pairs` in view.
pub open spec fn pairs_view(v: Seq<(String, String)>) -> Seq<(Seq<char>, Seq<char>)> {
    Seq::new(v.len(), |i: int| pair_view(v[i]))
}

/// The IPv4 addresses worth offering as "the server's address": the
/// interfaces' addresses sorted as text, each once (with the label of its
/// first interface), then the wildcard and loopback, which make sense for a
/// bind selector.
pub fn available_addrs(interfaces: &Vec<Interface>) -> (r: Vec<(String, String)>)
    ensures
        r@.len() >= 2,
        sorted_unique_of(pairs_view(r@).take(r@.len() - 2), offered(interfaces@)),
        pair_view(r@[r@.len() - 2]) == ("0.0.0.0 (all interfaces)"@, "0.0.0.0"@),
        pair_view(r@[r@.len() - 1]) == ("127.0.0.1 (loopback)"@, "127.0.0.1"@),
{
    let mut out: Vec<(String, String)> = Vec::new();
    let mut n: usize = 0;
    while n < interfaces.len()
        invariant
            0 <= n <= interfaces.len(),
            sorted_unique_of(pairs_view(out@), offered(interfaces@.take(n as int))),
        decreases interfaces.len() - n,
    {
        let ghost before = offered(interfaces@.take(n as int));
        let ghost old_out = pairs_view(out@);
        assert(interfaces@.take(n + 1).drop_last() =~= interfaces@.take(n as int));
        let f = &interfaces[n];
        if f.is_ipv4 && !f.is_loopback {
            let ghost cand = (f.ip@ + " ("@ + f.name@ + ")"@, f.ip@);
            let ghost after = before.push(cand);
            assert(offered(interfaces@.take(n + 1)) == after);
            // the first position whose address does not sort before f.ip
            let mut k: usize = 0;
            while k < out.len() && text_less(out[k].1.as_str(), f.ip.as_str())
                invariant
                    0 <= k <= out.len(),
                    pairs_view(out@) == old_out,
                    forall|m: int| 0 <= m < k ==> text_lt(#[trigger] old_out[m].1, f.ip@),
                decreases out.len() - k,
            {
                k = k + 1;
            }
            let dup = k < out.len() && str_eq(out[k].1.as_str(), f.ip.as_str());
            if dup {
                proof {
                    lemma_sorted_unique_dup(old_out, before, cand, k as int);
                }
            } else {
                let mut label = concat3(f.ip.as_str(), " (", f.name.as_str());
                push_str(&mut label, ")");
                let ip = owned(f.ip.as_str());
                out.insert(k, (label, ip));
                proof {
                    assert(pairs_view(out@) =~= old_out.insert(k as int, cand));
                    lemma_sorted_unique_insert(old_out, before, cand, k as int);
                }
            }
        } else {
            assert(offered(interfaces@.take(n + 1)) == before);
        }
        n = n + 1;
    }
    assert(interfaces@.take(interfaces.len() as int) =~= interfaces@);
    let ghost body = pairs_view(out@);
    out.push((owned("0.0.0.0 (all interfaces)"), owned("0.0.0.0")));
    out.push((owned("127.0.0.1 (loopback)"), owned("127.0.0.1")));
    assert(pairs_view(out@).take(out@.len() - 2) =~= body);
    out
}

proof fn lemma_sorted_unique_dup(
    s: Seq<(Seq<char>, Seq<char>)>,
    c: Seq<(Seq<char>, Seq<char>)>,
    x: (Seq<char>, Seq<char>),
    k: int,
)
    requires
        sorted_unique_of(s, c),
        0 <= k < s.len(),
        s[k].1 == x.1,
    ensures
        sorted_unique_of(s, c.push(x)),
{
    let d = c.push(x);
    assert forall|i: int| 0 <= i < s.len() implies (#[trigger] first_with(d, s[i].1, 0)) is Some
        && s[i].0 == d[first_with(d, s[i].1, 0)->0].0 by {
        lemma_first_with_push(c, x, s[i].1, 0);
        lemma_first_with(c, s[i].1, 0);
    }
    assert forall|j: int| 0 <= j < d.len() implies exists|i: int|
        0 <= i < s.len() && s[i].1 == (#[trigger] d[j]).1 by {
        if j < c.len() {
            assert(d[j] == c[j]);
        } else {
            assert(s[k].1 == d[j].1);
        }
    }
}

proof fn lemma_sorted_unique_insert(
    s: Seq<(Seq<char>, Seq<char>)>,
    c: Seq<(Seq<char>, Seq<char>)>,
    x: (Seq<char>, Seq<char>),
    k: int,
)
    requires
        sorted_unique_of(s, c),
        0 <= k <= s.len(),
        forall|m: int| 0 <= m < k ==> text_lt(#[trigger] s[m].1, x.1),
        k < s.len() ==> !text_lt(s[k].1, x.1) && s[k].1 != x.1,
    ensures
        sorted_unique_of(s.insert(k, x), c.push(x)),
{
    let t = s.insert(k, x);
    let d = c.push(x);
    // x.1 is new: no earlier candidate has it
    assert forall|j: int| 0 <= j < c.len() implies #[trigger] c[j].1 != x.1 by {
        let i = choose|i: int| 0 <= i < s.len() && s[i].1 == c[j].1;
        if c[j].1 == x.1 {
            if i < k {
                lemma_text_lt_irreflexive(x.1);
            } else if i > k {
                assert(text_lt(s[k].1, s[i].1));
                lemma_text_lt_total(s[k].1, x.1);
                lemma_text_lt_asymmetric(s[k].1, x.1);
            }
        }
    }
    lemma_first_with(c, x.1, 0);
    lemma_first_with_push(c, x, x.1, 0);
    if k < s.len() {
        lemma_text_lt_total(s[k].1, x.1);
    }
    assert forall|i: int, j: int| 0 <= i < j < t.len() implies text_lt(
        #[trigger] t[i].1,
        #[trigger] t[j].1,
    ) by {
        if j < k {
            assert(t[i] == s[i] && t[j] == s[j]);
        } else if j == k {
            assert(t[i] == s[i]);
        } else if i < k {
            assert(t[i] == s[i] && t[j] == s[j - 1]);
            assert(text_lt(s[i].1, x.1));
            if j - 1 == k {
                assert(text_lt(x.1, s[k].1));
            } else {
                assert(text_lt(s[k].1, s[j - 1].1));
                lemma_text_lt_transitive(x.1, s[k].1, s[j - 1].1);
            }
            lemma_text_lt_transitive(s[i].1, x.1, s[j - 1].1);
        } else if i == k {
            assert(t[j] == s[j - 1]);
            if j - 1 == k {
            } else {
                assert(text_lt(s[k].1, s[j - 1].1));
                lemma_text_lt_transitive(x.1, s[k].1, s[j - 1].1);
            }
        } else {
            assert(t[i] == s[i - 1] && t[j] == s[j - 1]);
        }
    }
    assert forall|i: int| 0 <= i < t.len() implies (#[trigger] first_with(d, t[i].1, 0)) is Some
        && t[i].0 == d[first_with(d, t[i].1, 0)->0].0 by {
        if i == k {
            assert(t[i] == x);
        } else {
            let si = if i < k {
                i
            } else {
                i - 1
            };
            assert(t[i] == s[si]);
            lemma_first_with_push(c, x, s[si].1, 0);
            lemma_first_with(c, s[si].1, 0);
        }
    }
    assert forall|j: int| 0 <= j < d.len() implies exists|i: int|
        0 <= i < t.len() && t[i].1 == (#[trigger] d[j]).1 by {
        if j < c.len() {
            assert(d[j] == c[j]);
            let i = choose|i: int| 0 <= i < s.len() && s[i].1 == c[j].1;
            if i < k {
                assert(t[i] == s[i]);
            } else {
                assert(t[i + 1] == s[i]);
            }
        } else {
            assert(t[k] == x);
        }
    }
}

} // verus!
