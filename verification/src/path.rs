//! When two paths name the same file as far as their text tells: they are
//! compared by components, as `Path` compares them on Unix, where `/` is
//! the separator. Repeated separators, a trailing separator and `.` parts
//! after the start make no difference; a leading `/` or `.` does.

use vstd::prelude::*;

use crate::text::{
    before_char, chars_of, find_char_from, has_char, lemma_before_char, owned, push_line, str_eq,
    string_of, views,
};

verus! {

/// The `/`-separated parts of `s` that name something: neither empty nor `.`.
pub open spec fn normal_parts(s: Seq<char>) -> Seq<Seq<char>>
    decreases s.len(),
{
    let p = before_char(s, '/');
    let head = if p.len() > 0 && p != "."@ {
        seq![p]
    } else {
        Seq::empty()
    };
    if has_char(s, '/') {
        proof {
            lemma_before_char(s, '/');
        }
        head + normal_parts(s.subrange(p.len() as int + 1, s.len() as int))
    } else {
        head
    }
}

/// Whether `s` starts at the current directory: `.` alone or before a `/`.
pub open spec fn starts_at_cur_dir(s: Seq<char>) -> bool {
    s.len() > 0 && s[0] == '.' && (s.len() == 1 || s[1] == '/')
}

/// The components of path `s`: the root (`/`) or a leading current
/// directory (`.`), then the parts that name something.
pub open spec fn path_components(s: Seq<char>) -> Seq<Seq<char>> {
    let lead = if s.len() > 0 && s[0] == '/' {
        seq!["/"@]
    } else if starts_at_cur_dir(s) {
        seq!["."@]
    } else {
        Seq::empty()
    };
    lead + normal_parts(s)
}

/// Paths `a` and `b` have the same components.
pub open spec fn same_path(a: Seq<char>, b: Seq<char>) -> bool {
    path_components(a) == path_components(b)
}

fn normal_parts_of(v: &Vec<char>) -> (r: Vec<String>)
    ensures
        views(r@) == normal_parts(v@),
{
    let mut out: Vec<String> = Vec::new();
    let mut lo: usize = 0;
    assert(v@.subrange(0, v.len() as int) =~= v@);
    assert(views(out@) =~= Seq::<Seq<char>>::empty());
    while lo <= v.len()
        invariant
            0 <= lo <= v.len(),
            normal_parts(v@) == views(out@) + normal_parts(v@.subrange(lo as int, v.len() as int)),
        decreases v.len() + 1 - lo,
    {
        let ghost rest = v@.subrange(lo as int, v.len() as int);
        let ghost out0 = views(out@);
        let e = find_char_from(v, lo, '/');
        proof {
            lemma_before_char(rest, '/');
        }
        let part = string_of(v, lo, e);
        assert(part@ =~= before_char(rest, '/'));
        let ghost p = part@;
        let ghost head: Seq<Seq<char>> = if p.len() > 0 && p != "."@ {
            seq![p]
        } else {
            Seq::empty()
        };
        if e > lo && !str_eq(part.as_str(), ".") {
            push_line(&mut out, part);
        }
        assert(views(out@) =~= out0 + head);
        if e == v.len() {
            assert(!has_char(rest, '/'));
            assert(normal_parts(rest) == head);
            assert(normal_parts(v@) =~= views(out@));
            return out;
        }
        assert(has_char(rest, '/'));
        let ghost next = v@.subrange(e + 1, v.len() as int);
        assert(rest.subrange(p.len() as int + 1, rest.len() as int) =~= next);
        assert(normal_parts(rest) == head + normal_parts(next));
        assert(out0 + (head + normal_parts(next)) =~= (out0 + head) + normal_parts(next));
        lo = e + 1;
    }
    out
}

/// The components of path `s`.
pub fn path_components_of(s: &str) -> (r: Vec<String>)
    ensures
        views(r@) == path_components(s@),
{
    let v = chars_of(s);
    let mut out: Vec<String> = Vec::new();
    if v.len() > 0 && v[0] == '/' {
        push_line(&mut out, owned("/"));
    } else if v.len() > 0 && v[0] == '.' && (v.len() == 1 || v[1] == '/') {
        push_line(&mut out, owned("."));
    }
    let ghost lead = views(out@);
    let rest = normal_parts_of(&v);
    let mut i: usize = 0;
    while i < rest.len()
        invariant
            0 <= i <= rest.len(),
            views(out@) == lead + views(rest@).take(i as int),
        decreases rest.len() - i,
    {
        let ghost before = views(out@);
        push_line(&mut out, rest[i].clone());
        assert(views(rest@)[i as int] == rest@[i as int]@);
        assert(views(rest@).take(i + 1) =~= views(rest@).take(i as int).push(rest@[i as int]@));
        assert(views(out@) =~= lead + views(rest@).take(i + 1));
        i = i + 1;
    }
    assert(views(rest@).take(rest.len() as int) =~= views(rest@));
    out
}

/// Whether paths `a` and `b` have the same components.
pub fn same_path_str(a: &str, b: &str) -> (r: bool)
    ensures
        r == same_path(a@, b@),
{
    let x = path_components_of(a);
    let y = path_components_of(b);
    if x.len() != y.len() {
        assert(views(x@).len() != views(y@).len());
        return false;
    }
    let mut i: usize = 0;
    while i < x.len()
        invariant
            0 <= i <= x.len(),
            x.len() == y.len(),
            views(x@) == path_components(a@),
            views(y@) == path_components(b@),
            forall|k: int| 0 <= k < i ==> x@[k]@ == y@[k]@,
        decreases x.len() - i,
    {
        if !str_eq(x[i].as_str(), y[i].as_str()) {
            assert(views(x@)[i as int] != views(y@)[i as int]);
            return false;
        }
        i = i + 1;
    }
    assert(views(x@) =~= views(y@)) by {
        assert forall|k: int| 0 <= k < views(x@).len() implies views(x@)[k] == views(y@)[k] by {
            assert(x@[k]@ == y@[k]@);
        }
    }
    true
}

} // verus!
