use vstd::prelude::*;
use crate::text::views;

verus! {

/// Lexicographic order of texts by character; a proper prefix comes first.
pub open spec fn text_lt(a: Seq<char>, b: Seq<char>) -> bool
    decreases a.len(),
{
    if a.len() == 0 {
        b.len() > 0
    } else if b.len() == 0 {
        false
    } else if a[0] != b[0] {
        a[0] < b[0]
    } else {
        text_lt(a.drop_first(), b.drop_first())
    }
}

/// Lexicographic order of paths, segment by segment; a proper prefix comes first.
pub open spec fn path_lt(p: Seq<Seq<char>>, q: Seq<Seq<char>>) -> bool
    decreases p.len(),
{
    if p.len() == 0 {
        q.len() > 0
    } else if q.len() == 0 {
        false
    } else if p[0] != q[0] {
        text_lt(p[0], q[0])
    } else {
        path_lt(p.drop_first(), q.drop_first())
    }
}

/// No text comes before itself.
pub proof fn lemma_text_lt_irreflexive(a: Seq<char>)
    ensures
        !text_lt(a, a),
    decreases a.len(),
{
    if a.len() > 0 {
        lemma_text_lt_irreflexive(a.drop_first());
    }
}

/// Of two different texts, one comes before the other.
pub proof fn lemma_text_lt_total(a: Seq<char>, b: Seq<char>)
    requires
        a != b,
    ensures
        text_lt(a, b) || text_lt(b, a),
    decreases a.len(),
{
    if a.len() > 0 && b.len() > 0 && a[0] == b[0] {
        if a.drop_first() == b.drop_first() {
            assert(a =~= seq![a[0]] + a.drop_first());
            assert(b =~= seq![b[0]] + b.drop_first());
        }
        lemma_text_lt_total(a.drop_first(), b.drop_first());
    } else if a.len() == 0 && b.len() == 0 {
        assert(a =~= b);
    }
}

/// The order of texts is transitive.
pub proof fn lemma_text_lt_transitive(a: Seq<char>, b: Seq<char>, c: Seq<char>)
    requires
        text_lt(a, b),
        text_lt(b, c),
    ensures
        text_lt(a, c),
    decreases a.len(),
{
    if a.len() > 0 && b.len() > 0 && c.len() > 0 && a[0] == b[0] && b[0] == c[0] {
        lemma_text_lt_transitive(a.drop_first(), b.drop_first(), c.drop_first());
    }
}

/// No path comes before itself.
pub proof fn lemma_path_lt_irreflexive(p: Seq<Seq<char>>)
    ensures
        !path_lt(p, p),
    decreases p.len(),
{
    if p.len() > 0 {
        lemma_path_lt_irreflexive(p.drop_first());
    }
}

/// Of two different paths, one comes before the other.
pub proof fn lemma_path_lt_total(p: Seq<Seq<char>>, q: Seq<Seq<char>>)
    requires
        p != q,
    ensures
        path_lt(p, q) || path_lt(q, p),
    decreases p.len(),
{
    if p.len() > 0 && q.len() > 0 {
        if p[0] == q[0] {
            if p.drop_first() == q.drop_first() {
                assert(p =~= seq![p[0]] + p.drop_first());
                assert(q =~= seq![q[0]] + q.drop_first());
            }
            lemma_path_lt_total(p.drop_first(), q.drop_first());
        } else {
            lemma_text_lt_total(p[0], q[0]);
        }
    } else if p.len() == 0 && q.len() == 0 {
        assert(p =~= q);
    }
}

/// The order of paths is transitive.
pub proof fn lemma_path_lt_transitive(p: Seq<Seq<char>>, q: Seq<Seq<char>>, r: Seq<Seq<char>>)
    requires
        path_lt(p, q),
        path_lt(q, r),
    ensures
        path_lt(p, r),
    decreases p.len(),
{
    if p.len() > 0 && q.len() > 0 && r.len() > 0 {
        if p[0] == q[0] && q[0] == r[0] {
            lemma_path_lt_transitive(p.drop_first(), q.drop_first(), r.drop_first());
        } else if p[0] != q[0] && q[0] != r[0] {
            lemma_text_lt_transitive(p[0], q[0], r[0]);
            if p[0] == r[0] {
                lemma_text_lt_transitive(p[0], q[0], p[0]);
                lemma_text_lt_irreflexive(p[0]);
            }
        }
    }
}

/// Compares two texts: -1 where `a` comes first, 0 where they are equal, 1 where `b` does.
pub fn compare_text(a: &str, b: &str) -> (r: i8)
    ensures
        (r == -1) == text_lt(a@, b@),
        (r == 0) == (a@ == b@),
        (r == 1) == text_lt(b@, a@),
{
    let n = a.unicode_len();
    let m = b.unicode_len();
    let mut i: usize = 0;
    proof {
        assert(a@.subrange(0, n as int) =~= a@);
        assert(b@.subrange(0, m as int) =~= b@);
    }
    while i < n && i < m && a.get_char(i) == b.get_char(i)
        invariant
            n == a@.len(),
            m == b@.len(),
            i <= n,
            i <= m,
            a@.subrange(0, i as int) == b@.subrange(0, i as int),
            text_lt(a@, b@) == text_lt(a@.subrange(i as int, n as int), b@.subrange(i as int, m as int)),
            text_lt(b@, a@) == text_lt(b@.subrange(i as int, m as int), a@.subrange(i as int, n as int)),
        decreases n - i,
    {
        assert(a@.subrange(i as int, n as int).drop_first() =~= a@.subrange(i + 1, n as int));
        assert(b@.subrange(i as int, m as int).drop_first() =~= b@.subrange(i + 1, m as int));
        assert(a@.subrange(0, i + 1) =~= a@.subrange(0, i as int).push(a@[i as int]));
        assert(b@.subrange(0, i + 1) =~= b@.subrange(0, i as int).push(b@[i as int]));
        i = i + 1;
    }
    if i == n && i == m {
        assert(a@ =~= a@.subrange(0, i as int));
        assert(b@ =~= b@.subrange(0, i as int));
        proof {
            lemma_text_lt_irreflexive(a@);
        }
        0
    } else if i == n {
        assert(a@ != b@) by {
            assert(a@.len() != b@.len());
        }
        -1
    } else if i == m {
        assert(a@.len() != b@.len());
        1
    } else {
        let x = a.get_char(i);
        let y = b.get_char(i);
        assert(a@[i as int] != b@[i as int]);
        if x < y {
            assert(a@ != b@);
            -1
        } else {
            assert(a@ != b@);
            1
        }
    }
}

/// Compares two paths: -1 where `p` comes first, 0 where they are equal, 1 where `q` does.
pub fn compare_path(p: &Vec<String>, q: &Vec<String>) -> (r: i8)
    ensures
        (r == -1) == path_lt(views(p@), views(q@)),
        (r == 0) == (views(p@) == views(q@)),
        (r == 1) == path_lt(views(q@), views(p@)),
{
    let ghost a = views(p@);
    let ghost b = views(q@);
    let n = p.len();
    let m = q.len();
    let mut i: usize = 0;
    proof {
        assert(a.subrange(0, n as int) =~= a);
        assert(b.subrange(0, m as int) =~= b);
    }
    while i < n && i < m && compare_text(p[i].as_str(), q[i].as_str()) == 0
        invariant
            n == a.len(),
            m == b.len(),
            a == views(p@),
            b == views(q@),
            i <= n,
            i <= m,
            a.subrange(0, i as int) == b.subrange(0, i as int),
            path_lt(a, b) == path_lt(a.subrange(i as int, n as int), b.subrange(i as int, m as int)),
            path_lt(b, a) == path_lt(b.subrange(i as int, m as int), a.subrange(i as int, n as int)),
        decreases n - i,
    {
        assert(a.subrange(i as int, n as int).drop_first() =~= a.subrange(i + 1, n as int));
        assert(b.subrange(i as int, m as int).drop_first() =~= b.subrange(i + 1, m as int));
        assert(a.subrange(0, i + 1) =~= a.subrange(0, i as int).push(a[i as int]));
        assert(b.subrange(0, i + 1) =~= b.subrange(0, i as int).push(b[i as int]));
        i = i + 1;
    }
    if i < n && i < m {
        let c = compare_text(p[i].as_str(), q[i].as_str());
        assert(a.subrange(i as int, n as int)[0] == a[i as int]);
        assert(b.subrange(i as int, m as int)[0] == b[i as int]);
        assert(a[i as int] != b[i as int]);
        assert(a != b);
        c
    } else if i == n && i == m {
        assert(a =~= a.subrange(0, i as int));
        assert(b =~= b.subrange(0, i as int));
        proof {
            lemma_path_lt_irreflexive(a);
        }
        0
    } else if i == n {
        assert(a.len() != b.len());
        -1
    } else {
        assert(a.len() != b.len());
        1
    }
}

} // verus!
