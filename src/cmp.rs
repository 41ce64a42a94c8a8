//! Three-way comparison of text and of lists of text, in the order of `str`:
//! lexicographic by code point.
use vstd::prelude::*;

use crate::text::{chars_of, views};

verus! {

/// Compares two texts: -1, 0 or 1.
pub open spec fn str_cmp(a: Seq<char>, b: Seq<char>) -> int
    decreases a.len(),
{
    if a.len() == 0 {
        if b.len() == 0 {
            0
        } else {
            -1
        }
    } else if b.len() == 0 {
        1
    } else if a[0] < b[0] {
        -1
    } else if a[0] > b[0] {
        1
    } else {
        str_cmp(a.drop_first(), b.drop_first())
    }
}

/// Compares two lists of texts lexicographically: -1, 0 or 1.
pub open spec fn list_cmp(a: Seq<Seq<char>>, b: Seq<Seq<char>>) -> int
    decreases a.len(),
{
    if a.len() == 0 {
        if b.len() == 0 {
            0
        } else {
            -1
        }
    } else if b.len() == 0 {
        1
    } else if str_cmp(a[0], b[0]) != 0 {
        str_cmp(a[0], b[0])
    } else {
        list_cmp(a.drop_first(), b.drop_first())
    }
}

/// Compares two integers: -1, 0 or 1.
pub open spec fn int_cmp(a: int, b: int) -> int {
    if a < b {
        -1
    } else if a > b {
        1
    } else {
        0
    }
}

proof fn lemma_str_cmp_pair(a: Seq<char>, b: Seq<char>)
    ensures
        str_cmp(a, b) == -str_cmp(b, a),
        (str_cmp(a, b) == 0) == (a == b),
        -1 <= str_cmp(a, b) <= 1,
    decreases a.len(),
{
    if a.len() > 0 && b.len() > 0 {
        lemma_str_cmp_pair(a.drop_first(), b.drop_first());
        if a[0] == b[0] && a.drop_first() == b.drop_first() {
            assert(a =~= seq![a[0]] + a.drop_first());
            assert(b =~= seq![b[0]] + b.drop_first());
        }
    } else if a.len() == 0 && b.len() == 0 {
        assert(a =~= b);
    }
}

proof fn lemma_str_cmp_trans(a: Seq<char>, b: Seq<char>, c: Seq<char>)
    requires
        str_cmp(a, b) <= 0,
        str_cmp(b, c) <= 0,
    ensures
        str_cmp(a, c) <= 0,
    decreases a.len(),
{
    if a.len() > 0 && b.len() > 0 && c.len() > 0 && a[0] == b[0] && b[0] == c[0] {
        lemma_str_cmp_trans(a.drop_first(), b.drop_first(), c.drop_first());
    }
}

proof fn lemma_str_cmp_trans_strict(a: Seq<char>, b: Seq<char>, c: Seq<char>)
    ensures
        str_cmp(a, b) < 0 && str_cmp(b, c) <= 0 ==> str_cmp(a, c) < 0,
        str_cmp(a, b) <= 0 && str_cmp(b, c) < 0 ==> str_cmp(a, c) < 0,
{
    lemma_str_cmp_pair(a, b);
    lemma_str_cmp_pair(b, c);
    lemma_str_cmp_pair(a, c);
    if str_cmp(a, b) <= 0 && str_cmp(b, c) <= 0 {
        lemma_str_cmp_trans(a, b, c);
    }
}

/// Text comparison is a total order: antisymmetric, zero exactly on equal
/// texts, and transitive.
pub proof fn lemma_str_cmp_total()
    ensures
        forall|a: Seq<char>, b: Seq<char>| #[trigger] str_cmp(a, b) == -str_cmp(b, a),
        forall|a: Seq<char>, b: Seq<char>| (#[trigger] str_cmp(a, b) == 0) == (a == b),
        forall|a: Seq<char>, b: Seq<char>| -1 <= #[trigger] str_cmp(a, b) <= 1,
        forall|a: Seq<char>, b: Seq<char>, c: Seq<char>|
            #[trigger] str_cmp(a, b) <= 0 && #[trigger] str_cmp(b, c) <= 0 ==> str_cmp(a, c) <= 0,
{
    assert forall|a: Seq<char>, b: Seq<char>| #[trigger] str_cmp(a, b) == -str_cmp(b, a) && (str_cmp(a, b) == 0) == (a == b)
        && -1 <= str_cmp(a, b) <= 1 by {
        lemma_str_cmp_pair(a, b);
    }
    assert forall|a: Seq<char>, b: Seq<char>, c: Seq<char>| #[trigger] str_cmp(a, b) <= 0 && #[trigger] str_cmp(b, c) <= 0 implies str_cmp(a, c) <= 0 by {
        lemma_str_cmp_trans(a, b, c);
    }
}

proof fn lemma_list_cmp_pair(a: Seq<Seq<char>>, b: Seq<Seq<char>>)
    ensures
        list_cmp(a, b) == -list_cmp(b, a),
        (list_cmp(a, b) == 0) == (a == b),
        -1 <= list_cmp(a, b) <= 1,
    decreases a.len(),
{
    if a.len() > 0 && b.len() > 0 {
        lemma_str_cmp_pair(a[0], b[0]);
        lemma_list_cmp_pair(a.drop_first(), b.drop_first());
        if a[0] == b[0] && a.drop_first() == b.drop_first() {
            assert(a =~= seq![a[0]] + a.drop_first());
            assert(b =~= seq![b[0]] + b.drop_first());
        }
    } else if a.len() == 0 && b.len() == 0 {
        assert(a =~= b);
    }
}

proof fn lemma_list_cmp_trans(a: Seq<Seq<char>>, b: Seq<Seq<char>>, c: Seq<Seq<char>>)
    requires
        list_cmp(a, b) <= 0,
        list_cmp(b, c) <= 0,
    ensures
        list_cmp(a, c) <= 0,
    decreases a.len(),
{
    if a.len() > 0 && b.len() > 0 && c.len() > 0 {
        lemma_str_cmp_total();
        lemma_str_cmp_trans_strict(a[0], b[0], c[0]);
        if a[0] == b[0] && b[0] == c[0] {
            lemma_list_cmp_trans(a.drop_first(), b.drop_first(), c.drop_first());
        }
    }
}

/// List comparison is a total order: antisymmetric, zero exactly on equal
/// lists, and transitive.
pub proof fn lemma_list_cmp_total()
    ensures
        forall|a: Seq<Seq<char>>, b: Seq<Seq<char>>| #[trigger] list_cmp(a, b) == -list_cmp(b, a),
        forall|a: Seq<Seq<char>>, b: Seq<Seq<char>>| (#[trigger] list_cmp(a, b) == 0) == (a == b),
        forall|a: Seq<Seq<char>>, b: Seq<Seq<char>>| -1 <= #[trigger] list_cmp(a, b) <= 1,
        forall|a: Seq<Seq<char>>, b: Seq<Seq<char>>, c: Seq<Seq<char>>|
            #[trigger] list_cmp(a, b) <= 0 && #[trigger] list_cmp(b, c) <= 0 ==> list_cmp(a, c) <= 0,
{
    assert forall|a: Seq<Seq<char>>, b: Seq<Seq<char>>| #[trigger] list_cmp(a, b) == -list_cmp(b, a) && (list_cmp(a, b) == 0) == (a == b)
        && -1 <= list_cmp(a, b) <= 1 by {
        lemma_list_cmp_pair(a, b);
    }
    assert forall|a: Seq<Seq<char>>, b: Seq<Seq<char>>, c: Seq<Seq<char>>| #[trigger] list_cmp(a, b) <= 0 && #[trigger] list_cmp(b, c) <= 0 implies list_cmp(a, c) <= 0 by {
        lemma_list_cmp_trans(a, b, c);
    }
}

fn compare_chars(a: &Vec<char>, b: &Vec<char>) -> (r: i8)
    ensures
        r as int == str_cmp(a@, b@),
{
    let mut i: usize = 0;
    proof {
        assert(a@.subrange(0, a.len() as int) =~= a@);
        assert(b@.subrange(0, b.len() as int) =~= b@);
    }
    while i < a.len() && i < b.len()
        invariant
            i <= a.len(),
            i <= b.len(),
            str_cmp(a@, b@) == str_cmp(a@.subrange(i as int, a.len() as int), b@.subrange(i as int, b.len() as int)),
        decreases a.len() - i,
    {
        let ghost sa = a@.subrange(i as int, a.len() as int);
        let ghost sb = b@.subrange(i as int, b.len() as int);
        proof {
            assert(sa[0] == a@[i as int] && sb[0] == b@[i as int]);
            assert(sa.drop_first() =~= a@.subrange(i + 1, a.len() as int));
            assert(sb.drop_first() =~= b@.subrange(i + 1, b.len() as int));
        }
        if a[i] < b[i] {
            return -1;
        }
        if a[i] > b[i] {
            return 1;
        }
        i = i + 1;
    }
    let ghost sa = a@.subrange(i as int, a.len() as int);
    let ghost sb = b@.subrange(i as int, b.len() as int);
    if i < a.len() {
        proof {
            assert(sa.len() > 0 && sb.len() == 0);
        }
        1
    } else if i < b.len() {
        proof {
            assert(sa.len() == 0 && sb.len() > 0);
        }
        -1
    } else {
        proof {
            assert(sa.len() == 0 && sb.len() == 0);
        }
        0
    }
}

/// Compares two strings in the order of `str`.
pub fn compare_str(a: &String, b: &String) -> (r: i8)
    ensures
        r as int == str_cmp(a@, b@),
{
    compare_chars(&chars_of(a.as_str()), &chars_of(b.as_str()))
}

/// Compares two lists of strings lexicographically.
pub fn compare_list(a: &Vec<String>, b: &Vec<String>) -> (r: i8)
    ensures
        r as int == list_cmp(views(a@), views(b@)),
{
    let ghost va = views(a@);
    let ghost vb = views(b@);
    let mut i: usize = 0;
    proof {
        assert(va.subrange(0, va.len() as int) =~= va);
        assert(vb.subrange(0, vb.len() as int) =~= vb);
    }
    while i < a.len() && i < b.len()
        invariant
            i <= a.len(),
            i <= b.len(),
            va == views(a@),
            vb == views(b@),
            list_cmp(va, vb) == list_cmp(va.subrange(i as int, va.len() as int), vb.subrange(i as int, vb.len() as int)),
        decreases a.len() - i,
    {
        let ghost sa = va.subrange(i as int, va.len() as int);
        let ghost sb = vb.subrange(i as int, vb.len() as int);
        proof {
            assert(sa[0] == a@[i as int]@ && sb[0] == b@[i as int]@);
            assert(sa.drop_first() =~= va.subrange(i + 1, va.len() as int));
            assert(sb.drop_first() =~= vb.subrange(i + 1, vb.len() as int));
        }
        let c = compare_str(&a[i], &b[i]);
        if c != 0 {
            return c;
        }
        i = i + 1;
    }
    let ghost sa = va.subrange(i as int, va.len() as int);
    let ghost sb = vb.subrange(i as int, vb.len() as int);
    if i < a.len() {
        proof {
            assert(sa.len() > 0 && sb.len() == 0);
        }
        1
    } else if i < b.len() {
        proof {
            assert(sa.len() == 0 && sb.len() > 0);
        }
        -1
    } else {
        proof {
            assert(sa.len() == 0 && sb.len() == 0);
        }
        0
    }
}

} // verus!
