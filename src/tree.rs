use vstd::prelude::*;
use crate::order::{
    compare_path, compare_text, lemma_path_lt_irreflexive, lemma_path_lt_total,
    lemma_path_lt_transitive, path_lt, text_lt,
};
use crate::text::{segments, split_segments, views};

verus! {

/// The views of a sequence of paths.
pub open spec fn path_views(v: Seq<Vec<String>>) -> Seq<Seq<Seq<char>>> {
    v.map_values(|p: Vec<String>| views(p@))
}

/// Whether `s` begins with `p`.
pub open spec fn starts_with(s: Seq<char>, p: Seq<char>) -> bool {
    p.len() <= s.len() && s.subrange(0, p.len() as int) == p
}

/// `s` with every leading `/` removed.
pub open spec fn trim_start_slashes(s: Seq<char>) -> Seq<char>
    decreases s.len(),
{
    if s.len() > 0 && s[0] == '/' {
        trim_start_slashes(s.drop_first())
    } else {
        s
    }
}

/// A key as seen from a prefix: the prefix, where the key begins with it, and the `/` after
/// it are cut off. Under the empty prefix a key stays whole.
pub open spec fn relative(prefix: Seq<char>, key: Seq<char>) -> Seq<char> {
    if prefix.len() == 0 {
        key
    } else {
        trim_start_slashes(
            if starts_with(key, prefix) {
                key.subrange(prefix.len() as int, key.len() as int)
            } else {
                key
            },
        )
    }
}

/// The path of a key below a prefix: the non-empty segments of the key as seen from it.
pub open spec fn key_path(prefix: Seq<char>, key: Seq<char>) -> Seq<Seq<char>> {
    segments(relative(prefix, key))
}

/// Whether `p` begins with the text `pre`.
fn begins_with(s: &str, pre: &str) -> (r: bool)
    ensures
        r == starts_with(s@, pre@),
{
    let n = pre.unicode_len();
    if n > s.unicode_len() {
        return false;
    }
    let mut i: usize = 0;
    while i < n
        invariant
            n == pre@.len(),
            n <= s@.len(),
            i <= n,
            forall|k: int| 0 <= k < i ==> s@[k] == pre@[k],
        decreases n - i,
    {
        if s.get_char(i) != pre.get_char(i) {
            assert(s@.subrange(0, n as int)[i as int] != pre@[i as int]);
            return false;
        }
        i = i + 1;
    }
    assert(s@.subrange(0, n as int) =~= pre@);
    true
}

/// The key as seen from the prefix.
pub fn relative_key(prefix: &str, key: &str) -> (r: String)
    ensures
        r@ == relative(prefix@, key@),
{
    let n = prefix.unicode_len();
    if n == 0 {
        return String::from_str(key);
    }
    let m = key.unicode_len();
    let mut start: usize = if begins_with(key, prefix) {
        n
    } else {
        0
    };
    let ghost cut = if starts_with(key@, prefix@) {
        key@.subrange(prefix@.len() as int, key@.len() as int)
    } else {
        key@
    };
    assert(cut =~= key@.subrange(start as int, m as int));
    while start < m && key.get_char(start) == '/'
        invariant
            start <= m,
            m == key@.len(),
            trim_start_slashes(cut) == trim_start_slashes(key@.subrange(start as int, m as int)),
        decreases m - start,
    {
        assert(key@.subrange(start as int, m as int).drop_first() =~= key@.subrange(
            start + 1,
            m as int,
        ));
        start = start + 1;
    }
    String::from_str(key.substring_char(start, m))
}

/// The segments of a key below a prefix.
pub fn key_segments(prefix: &str, key: &str) -> (r: Vec<String>)
    ensures
        views(r@) == key_path(prefix@, key@),
{
    let rel = relative_key(prefix, key);
    split_segments(rel.as_str())
}

/// Whether paths are in strictly increasing order.
pub open spec fn sorted(s: Seq<Seq<Seq<char>>>) -> bool {
    forall|a: int, b: int| 0 <= a < b < s.len() ==> path_lt(#[trigger] s[a], #[trigger] s[b])
}

/// Puts a path into its place in a sorted list, unless it is there already.
fn insert_sorted(nodes: &mut Vec<Vec<String>>, x: Vec<String>)
    requires
        sorted(path_views(old(nodes)@)),
    ensures
        sorted(path_views(final(nodes)@)),
        forall|q: Seq<Seq<char>>|
            path_views(final(nodes)@).contains(q) <==> (path_views(old(nodes)@).contains(q) || q
                == views(x@)),
{
    let ghost xv = views(x@);
    let ghost old_v = path_views(nodes@);
    let mut j: usize = 0;
    while j < nodes.len() && compare_path(&nodes[j], &x) == -1
        invariant
            j <= nodes@.len(),
            nodes@ == old(nodes)@,
            old_v == path_views(nodes@),
            xv == views(x@),
            forall|k: int| 0 <= k < j ==> path_lt(#[trigger] old_v[k], xv),
        decreases nodes@.len() - j,
    {
        j = j + 1;
    }
    if j < nodes.len() && compare_path(&nodes[j], &x) == 0 {
        assert forall|q: Seq<Seq<char>>|
            path_views(nodes@).contains(q) <==> (old_v.contains(q) || q == xv) by {
            if q == xv {
                assert(old_v[j as int] == q);
            }
        }
        return ;
    }
    proof {
        if j < old_v.len() {
            lemma_path_lt_total(old_v[j as int], xv);
        }
    }
    nodes.insert(j, x);
    let ghost new_v = path_views(nodes@);
    assert(new_v =~= old_v.insert(j as int, xv));
    proof {
        old_v.insert_ensures(j as int, xv);
        assert forall|a: int, b: int| 0 <= a < b < new_v.len() implies path_lt(
            #[trigger] new_v[a],
            #[trigger] new_v[b],
        ) by {
            if b < j {
                assert(path_lt(old_v[a], old_v[b]));
            } else if b == j {
                assert(path_lt(old_v[a], xv));
            } else if a < j {
                assert(path_lt(old_v[a], old_v[b - 1]));
            } else if a == j {
                if b - 1 > j {
                    assert(path_lt(old_v[j as int], old_v[b - 1]));
                    lemma_path_lt_transitive(xv, old_v[j as int], old_v[b - 1]);
                }
            } else {
                assert(path_lt(old_v[a - 1], old_v[b - 1]));
            }
        }
        assert forall|q: Seq<Seq<char>>| new_v.contains(q) <==> (old_v.contains(q) || q == xv) by {
            if new_v.contains(q) {
                let k = choose|k: int| 0 <= k < new_v.len() && new_v[k] == q;
                if k < j {
                    assert(old_v[k] == q);
                } else if k > j {
                    assert(old_v[k - 1] == q);
                }
            }
            if old_v.contains(q) {
                let k = choose|k: int| 0 <= k < old_v.len() && old_v[k] == q;
                if k < j {
                    assert(new_v[k] == q);
                } else {
                    assert(new_v[k + 1] == q);
                }
            }
            if q == xv {
                assert(new_v[j as int] == q);
            }
        }
    }
}


/// Whether `q` is a node of the tree of `keys` below `prefix`: a non-empty beginning of the
/// path of one of the keys.
pub open spec fn is_node(prefix: Seq<char>, keys: Seq<Seq<char>>, q: Seq<Seq<char>>) -> bool {
    exists|j: int, i: int|
        0 <= j < keys.len() && 1 <= i <= key_path(prefix, keys[j]).len() && q == #[trigger] key_path(
            prefix,
            keys[j],
        ).subrange(0, i)
}

/// The nodes that come from the keys before `keys[j]`, and from the beginnings of `keys[j]`'s
/// path shorter than `i`.
spec fn is_node_before(
    prefix: Seq<char>,
    keys: Seq<Seq<char>>,
    j: int,
    i: int,
    q: Seq<Seq<char>>,
) -> bool {
    exists|j2: int, i2: int|
        0 <= j2 < keys.len() && 1 <= i2 <= key_path(prefix, keys[j2]).len() && (j2 < j || (j2 == j
            && i2 < i)) && q == #[trigger] key_path(prefix, keys[j2]).subrange(0, i2)
}

/// The first `n` segments of a path.
fn first_segments(p: &Vec<String>, n: usize) -> (r: Vec<String>)
    requires
        n <= p@.len(),
    ensures
        views(r@) == views(p@).subrange(0, n as int),
{
    let mut out: Vec<String> = Vec::new();
    let mut i: usize = 0;
    while i < n
        invariant
            i <= n,
            n <= p@.len(),
            views(out@) == views(p@).subrange(0, i as int),
        decreases n - i,
    {
        let ghost prev = out@;
        out.push(p[i].clone());
        assert(views(out@) =~= views(prev).push(p@[i as int]@));
        assert(views(p@).subrange(0, i + 1) =~= views(p@).subrange(0, i as int).push(
            views(p@)[i as int],
        ));
        i = i + 1;
    }
    out
}

/// The nodes of the tree of `keys` below `prefix`, each once, in increasing path order.
pub fn tree_nodes(prefix: &str, keys: &Vec<String>) -> (r: Vec<Vec<String>>)
    ensures
        sorted(path_views(r@)),
        forall|q: Seq<Seq<char>>|
            path_views(r@).contains(q) <==> is_node(prefix@, views(keys@), q),
{
    let ghost ks = views(keys@);
    let mut nodes: Vec<Vec<String>> = Vec::new();
    let mut j: usize = 0;
    while j < keys.len()
        invariant
            j <= keys@.len(),
            ks == views(keys@),
            sorted(path_views(nodes@)),
            forall|q: Seq<Seq<char>>|
                path_views(nodes@).contains(q) <==> is_node_before(prefix@, ks, j as int, 0, q),
        decreases keys@.len() - j,
    {
        let segs = key_segments(prefix, keys[j].as_str());
        let ghost path = key_path(prefix@, ks[j as int]);
        let mut i: usize = 0;
        assert forall|q: Seq<Seq<char>>|
            is_node_before(prefix@, ks, j as int, 0, q) <==> is_node_before(
                prefix@,
                ks,
                j as int,
                1,
                q,
            ) by {
            if is_node_before(prefix@, ks, j as int, 1, q) {
                let (j2, i2) = choose|j2: int, i2: int|
                    0 <= j2 < ks.len() && 1 <= i2 <= key_path(prefix@, ks[j2]).len() && (j2 < j
                        || (j2 == j && i2 < 1)) && q == #[trigger] key_path(prefix@, ks[j2]).subrange(
                        0,
                        i2,
                    );
                assert(j2 < j);
            }
        }
        while i < segs.len()
            invariant
                0 <= i <= segs@.len(),
                j < keys@.len(),
                ks == views(keys@),
                views(segs@) == path,
                path == key_path(prefix@, ks[j as int]),
                sorted(path_views(nodes@)),
                forall|q: Seq<Seq<char>>|
                    path_views(nodes@).contains(q) <==> is_node_before(
                        prefix@,
                        ks,
                        j as int,
                        i + 1,
                        q,
                    ),
            decreases segs@.len() - i,
        {
            let x = first_segments(&segs, i + 1);
            let ghost xv = views(x@);
            insert_sorted(&mut nodes, x);
            assert forall|q: Seq<Seq<char>>|
                path_views(nodes@).contains(q) <==> is_node_before(
                    prefix@,
                    ks,
                    j as int,
                    i + 2,
                    q,
                ) by {
                if is_node_before(prefix@, ks, j as int, i + 2, q) {
                    let (j2, i2) = choose|j2: int, i2: int|
                        0 <= j2 < ks.len() && 1 <= i2 <= key_path(prefix@, ks[j2]).len() && (j2
                            < j || (j2 == j && i2 < i + 2)) && q == #[trigger] key_path(
                            prefix@,
                            ks[j2],
                        ).subrange(0, i2);
                    if j2 < j || i2 < i + 1 {
                        assert(is_node_before(prefix@, ks, j as int, i + 1, q));
                    }
                }
                if q == xv {
                    assert(q == key_path(prefix@, ks[j as int]).subrange(0, i + 1));
                }
            }
            i = i + 1;
        }
        assert forall|q: Seq<Seq<char>>|
            path_views(nodes@).contains(q) <==> is_node_before(prefix@, ks, j + 1, 0, q) by {
            if is_node_before(prefix@, ks, j as int, i + 1, q) {
                let (j2, i2) = choose|j2: int, i2: int|
                    0 <= j2 < ks.len() && 1 <= i2 <= key_path(prefix@, ks[j2]).len() && (j2 < j
                        || (j2 == j && i2 < i + 1)) && q == #[trigger] key_path(prefix@, ks[j2]).subrange(
                        0,
                        i2,
                    );
                assert(is_node_before(prefix@, ks, j + 1, 0, q));
            }
            if is_node_before(prefix@, ks, j + 1, 0, q) {
                let (j2, i2) = choose|j2: int, i2: int|
                    0 <= j2 < ks.len() && 1 <= i2 <= key_path(prefix@, ks[j2]).len() && (j2 < j + 1
                        || (j2 == j + 1 && i2 < 0)) && q == #[trigger] key_path(prefix@, ks[j2]).subrange(
                        0,
                        i2,
                    );
                assert(is_node_before(prefix@, ks, j as int, i + 1, q));
            }
        }
        j = j + 1;
    }
    assert forall|q: Seq<Seq<char>>|
        is_node_before(prefix@, ks, j as int, 0, q) <==> is_node(prefix@, ks, q) by {
        if is_node(prefix@, ks, q) {
            let (j2, i2) = choose|j2: int, i2: int|
                0 <= j2 < ks.len() && 1 <= i2 <= key_path(prefix@, ks[j2]).len() && q
                    == #[trigger] key_path(prefix@, ks[j2]).subrange(0, i2);
            assert(is_node_before(prefix@, ks, j as int, 0, q));
        }
    }
    nodes
}


/// Whether two paths are siblings: as long as each other, equal but for the last segment.
pub open spec fn siblings(q: Seq<Seq<char>>, p: Seq<Seq<char>>) -> bool {
    q.len() == p.len() && p.len() >= 1 && q.drop_last() == p.drop_last()
}

/// Whether no sibling of `p` among `nodes` has a later name.
pub open spec fn is_last(nodes: Seq<Seq<Seq<char>>>, p: Seq<Seq<char>>) -> bool {
    !exists|k: int|
        0 <= k < nodes.len() && siblings(#[trigger] nodes[k], p) && text_lt(p.last(), nodes[k].last())
}

/// What a node contributes to the indentation of its descendants.
pub open spec fn pad(nodes: Seq<Seq<Seq<char>>>, p: Seq<Seq<char>>) -> Seq<char> {
    if is_last(nodes, p) {
        "    "@
    } else {
        "│   "@
    }
}

/// The connector drawn before a node's name.
pub open spec fn connector(nodes: Seq<Seq<Seq<char>>>, p: Seq<Seq<char>>) -> Seq<char> {
    if is_last(nodes, p) {
        "└── "@
    } else {
        "├── "@
    }
}

/// The indentation of a node: one pad for each of its first `n - 1` ancestors, outermost first.
pub open spec fn indent(nodes: Seq<Seq<Seq<char>>>, p: Seq<Seq<char>>, n: int) -> Seq<char>
    decreases n,
{
    if n <= 1 {
        seq![]
    } else {
        indent(nodes, p, n - 1) + pad(nodes, p.subrange(0, n - 1))
    }
}

/// The line that shows node `p`.
pub open spec fn line_of(nodes: Seq<Seq<Seq<char>>>, p: Seq<Seq<char>>) -> Seq<char> {
    indent(nodes, p, p.len() as int) + connector(nodes, p) + p.last()
}

/// The lines that show `nodes`, one per node, in their order.
pub open spec fn lines_of(nodes: Seq<Seq<Seq<char>>>) -> Seq<Seq<char>> {
    nodes.map_values(|p: Seq<Seq<char>>| line_of(nodes, p))
}

/// Whether `q` and the first `n` segments of `p` are siblings.
fn sibling_of_prefix(q: &Vec<String>, p: &Vec<String>, n: usize) -> (r: bool)
    requires
        1 <= n <= p@.len(),
    ensures
        r == siblings(views(q@), views(p@).subrange(0, n as int)),
{
    let ghost pn = views(p@).subrange(0, n as int);
    let ghost qv = views(q@);
    if q.len() != n {
        return false;
    }
    let mut t: usize = 0;
    while t + 1 < n
        invariant
            t < n,
            n == q@.len(),
            n <= p@.len(),
            qv == views(q@),
            pn == views(p@).subrange(0, n as int),
            forall|k: int| 0 <= k < t ==> qv[k] == pn[k],
        decreases n - t,
    {
        if !crate::text::same_text(q[t].as_str(), p[t].as_str()) {
            assert(qv.drop_last()[t as int] != pn.drop_last()[t as int]);
            return false;
        }
        t = t + 1;
    }
    assert(qv.drop_last() =~= pn.drop_last());
    true
}

/// Whether the first `n` segments of `p` make a node with no later sibling among `nodes`.
fn last_at(nodes: &Vec<Vec<String>>, p: &Vec<String>, n: usize) -> (r: bool)
    requires
        1 <= n <= p@.len(),
    ensures
        r == is_last(path_views(nodes@), views(p@).subrange(0, n as int)),
{
    let ghost nv = path_views(nodes@);
    let ghost pn = views(p@).subrange(0, n as int);
    let mut k: usize = 0;
    while k < nodes.len()
        invariant
            k <= nodes@.len(),
            1 <= n <= p@.len(),
            nv == path_views(nodes@),
            pn == views(p@).subrange(0, n as int),
            forall|k2: int|
                0 <= k2 < k ==> !(siblings(#[trigger] nv[k2], pn) && text_lt(pn.last(), nv[k2].last())),
        decreases nodes@.len() - k,
    {
        if sibling_of_prefix(&nodes[k], p, n) {
            let c = compare_text(p[n - 1].as_str(), nodes[k][n - 1].as_str());
            assert(nv[k as int][n - 1] == nodes@[k as int]@[n - 1]@);
            if c == -1 {
                assert(siblings(nv[k as int], pn) && text_lt(pn.last(), nv[k as int].last()));
                return false;
            }
        }
        k = k + 1;
    }
    true
}

/// The line that shows the node `p` of `nodes`.
fn render_line(nodes: &Vec<Vec<String>>, p: &Vec<String>) -> (r: String)
    requires
        p@.len() >= 1,
    ensures
        r@ == line_of(path_views(nodes@), views(p@)),
{
    let ghost nv = path_views(nodes@);
    let ghost pv = views(p@);
    let len = p.len();
    let mut out = String::new();
    let mut n: usize = 1;
    while n < len
        invariant
            1 <= n <= len,
            len == p@.len(),
            pv == views(p@),
            nv == path_views(nodes@),
            out@ == indent(nv, pv, n as int),
        decreases len - n,
    {
        if last_at(nodes, p, n) {
            out.append("    ");
        } else {
            out.append("│   ");
        }
        n = n + 1;
    }
    assert(pv.subrange(0, len as int) =~= pv);
    if last_at(nodes, p, len) {
        out.append("└── ");
    } else {
        out.append("├── ");
    }
    out.append(p[len - 1].as_str());
    out
}

/// The lines that show `nodes`, one per node.
fn render_nodes(nodes: &Vec<Vec<String>>) -> (r: Vec<String>)
    requires
        forall|k: int| 0 <= k < nodes@.len() ==> (#[trigger] nodes@[k])@.len() >= 1,
    ensures
        views(r@) == lines_of(path_views(nodes@)),
{
    let mut out: Vec<String> = Vec::new();
    let mut k: usize = 0;
    while k < nodes.len()
        invariant
            k <= nodes@.len(),
            forall|k2: int| 0 <= k2 < nodes@.len() ==> (#[trigger] nodes@[k2])@.len() >= 1,
            views(out@) == lines_of(path_views(nodes@)).subrange(0, k as int),
        decreases nodes@.len() - k,
    {
        let line = render_line(nodes, &nodes[k]);
        let ghost prev = out@;
        out.push(line);
        assert(path_views(nodes@)[k as int] == views(nodes@[k as int]@));
        assert(lines_of(path_views(nodes@))[k as int] == line@);
        assert(views(out@) =~= views(prev).push(line@));
        assert(views(out@) =~= lines_of(path_views(nodes@)).subrange(0, k + 1));
        k = k + 1;
    }
    assert(lines_of(path_views(nodes@)).subrange(0, k as int) =~= lines_of(path_views(nodes@)));
    out
}

/// Whether `order` lists the nodes of the tree of `keys` below `prefix`, each once, in
/// increasing path order. Exactly one sequence does (`lemma_tree_order_unique`).
pub open spec fn is_tree_order(
    prefix: Seq<char>,
    keys: Seq<Seq<char>>,
    order: Seq<Seq<Seq<char>>>,
) -> bool {
    sorted(order) && forall|q: Seq<Seq<char>>| order.contains(q) <==> is_node(prefix, keys, q)
}

/// The marker shown where a prefix holds no keys.
pub open spec fn empty_marker() -> Seq<char> {
    "<empty>"@
}

/// Draws the keys below `prefix` as a tree: a depth-first walk that visits children in name
/// order, one line per node, with `└── ` before the last child of a node and `├── ` before
/// the others, indented by `    ` below a last child and by `│   ` below any other.
/// No keys at all give the empty marker alone.
pub fn render_tree(prefix: &str, keys: &Vec<String>) -> (r: Vec<String>)
    ensures
        keys@.len() == 0 ==> views(r@) == seq![empty_marker()],
        keys@.len() > 0 ==> exists|order: Seq<Seq<Seq<char>>>|
            is_tree_order(prefix@, views(keys@), order) && views(r@) == lines_of(order),
{
    if keys.len() == 0 {
        let mut out: Vec<String> = Vec::new();
        out.push(String::from_str("<empty>"));
        assert(views(out@) =~= seq![empty_marker()]);
        return out;
    }
    let nodes = tree_nodes(prefix, keys);
    proof {
        let nv = path_views(nodes@);
        assert forall|k: int| 0 <= k < nodes@.len() implies (#[trigger] nodes@[k])@.len() >= 1 by {
            assert(nv.contains(nv[k]));
            let (j2, i2) = choose|j2: int, i2: int|
                0 <= j2 < views(keys@).len() && 1 <= i2 <= key_path(prefix@, views(keys@)[j2]).len()
                    && nv[k] == #[trigger] key_path(prefix@, views(keys@)[j2]).subrange(0, i2);
            assert(nv[k].len() == nodes@[k]@.len());
        }
    }
    let lines = render_nodes(&nodes);
    assert(is_tree_order(prefix@, views(keys@), path_views(nodes@)));
    lines
}


/// Two sequences that hold the same paths, each in strictly increasing order, are equal.
pub proof fn lemma_sorted_unique(a: Seq<Seq<Seq<char>>>, b: Seq<Seq<Seq<char>>>)
    requires
        sorted(a),
        sorted(b),
        forall|q: Seq<Seq<char>>| a.contains(q) <==> b.contains(q),
    ensures
        a == b,
    decreases a.len(),
{
    if a.len() == 0 {
        if b.len() > 0 {
            assert(b.contains(b[0]));
        }
        assert(a =~= b);
    } else {
        assert(a.contains(a[0]));
        let k = choose|k: int| 0 <= k < b.len() && b[k] == a[0];
        assert(b.contains(b[0]));
        let m = choose|m: int| 0 <= m < a.len() && a[m] == b[0];
        if k > 0 {
            assert(path_lt(b[0], b[k]));
            if m > 0 {
                assert(path_lt(a[0], a[m]));
                lemma_path_lt_transitive(a[0], b[0], a[0]);
            }
            lemma_path_lt_irreflexive(a[0]);
        }
        assert(a[0] == b[0]);
        let a2 = a.drop_first();
        let b2 = b.drop_first();
        assert forall|q: Seq<Seq<char>>| a2.contains(q) <==> b2.contains(q) by {
            if a2.contains(q) {
                let i = choose|i: int| 0 <= i < a2.len() && a2[i] == q;
                assert(a[i + 1] == q);
                assert(path_lt(a[0], a[i + 1]));
                lemma_path_lt_irreflexive(q);
                assert(b.contains(q));
                let j = choose|j: int| 0 <= j < b.len() && b[j] == q;
                assert(j != 0);
                assert(b2[j - 1] == q);
            }
            if b2.contains(q) {
                let i = choose|i: int| 0 <= i < b2.len() && b2[i] == q;
                assert(b[i + 1] == q);
                assert(path_lt(b[0], b[i + 1]));
                lemma_path_lt_irreflexive(q);
                assert(a.contains(q));
                let j = choose|j: int| 0 <= j < a.len() && a[j] == q;
                assert(j != 0);
                assert(a2[j - 1] == q);
            }
        }
        lemma_sorted_unique(a2, b2);
        assert(a =~= seq![a[0]] + a2);
        assert(b =~= seq![b[0]] + b2);
    }
}

/// The tree order of a set of keys is unique, so the lines that `render_tree` returns are
/// fixed by its inputs.
pub proof fn lemma_tree_order_unique(
    prefix: Seq<char>,
    keys: Seq<Seq<char>>,
    o1: Seq<Seq<Seq<char>>>,
    o2: Seq<Seq<Seq<char>>>,
)
    requires
        is_tree_order(prefix, keys, o1),
        is_tree_order(prefix, keys, o2),
    ensures
        o1 == o2,
        lines_of(o1) == lines_of(o2),
{
    lemma_sorted_unique(o1, o2);
}

} // verus!
