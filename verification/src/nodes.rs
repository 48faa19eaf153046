//! Paths and the OSCQuery address tree: splitting an OSC address into its
//! pieces, finding the node at a path, and growing the tree by a path.
use vstd::prelude::*;
use vstd::string::*;
use crate::format::OSCQNode;

verus! {

/// `s` cut at every `/`, as `str::split('/')` does: empty pieces included,
/// and one piece more than there are slashes.
pub open spec fn split_on_slash(s: Seq<char>) -> Seq<Seq<char>>
    decreases s.len(),
{
    if s.len() == 0 {
        seq![Seq::<char>::empty()]
    } else {
        let prev = split_on_slash(s.drop_last());
        if s.last() == '/' {
            prev.push(Seq::<char>::empty())
        } else {
            prev.update(prev.len() - 1, prev.last().push(s.last()))
        }
    }
}

/// The pieces of `parts` that are not empty, in order.
pub open spec fn keep_nonempty(parts: Seq<Seq<char>>) -> Seq<Seq<char>> {
    parts.filter(|p: Seq<char>| p.len() > 0)
}

/// The pieces of an OSC address: its parts between slashes that are not empty.
pub open spec fn path_pieces(s: Seq<char>) -> Seq<Seq<char>> {
    keep_nonempty(split_on_slash(s))
}

/// The views of a sequence of strings.
pub open spec fn string_views(v: Seq<String>) -> Seq<Seq<char>> {
    v.map_values(|s: String| s@)
}

/// The OSC address of the node reached by the pieces `q`: each piece preceded
/// by a slash; empty for the root.
pub open spec fn joined_path(q: Seq<Seq<char>>) -> Seq<char>
    decreases q.len(),
{
    if q.len() == 0 {
        Seq::<char>::empty()
    } else {
        joined_path(q.drop_last()) + seq!['/'] + q.last()
    }
}

/// The position of the first child entry of `c` under the piece `k`.
pub open spec fn key_index(c: Seq<(String, OSCQNode)>, k: Seq<char>) -> Option<int>
    decreases c.len(),
{
    if c.len() == 0 {
        None
    } else {
        match key_index(c.drop_last(), k) {
            Some(i) => Some(i),
            None => if c.last().0@ == k {
                Some(c.len() - 1)
            } else {
                None
            },
        }
    }
}

/// The node that the pieces `q` lead to from `n`, each piece selecting the
/// first child entry under it; `None` where some piece leads nowhere.
pub open spec fn node_at(n: OSCQNode, q: Seq<Seq<char>>) -> Option<OSCQNode>
    decreases q.len(),
{
    if q.len() == 0 {
        Some(n)
    } else {
        match key_index(n.contents@, q[0]) {
            Some(i) => node_at(n.contents@[i].1, q.drop_first()),
            None => None,
        }
    }
}

/// Two nodes carry the same address, type, access and value.
pub open spec fn same_attributes(a: OSCQNode, b: OSCQNode) -> bool {
    &&& a.full_path == b.full_path
    &&& a.ty == b.ty
    &&& a.access == b.access
    &&& a.value == b.value
}

/// A node created for the pieces `q`: its address joins them, and it has no
/// type, access or value.
pub open spec fn fresh_node(m: OSCQNode, q: Seq<Seq<char>>) -> bool {
    &&& m.full_path@ == joined_path(q)
    &&& m.ty is None
    &&& m.access is None
    &&& m.value is None
}

/// What a tree holds at `q` after the pieces `ps` were added below `old`,
/// which stands at the pieces `base` from the root: a node that was there
/// keeps its attributes; a prefix of `ps` that led nowhere now leads to a
/// fresh node; every other path still leads nowhere.
pub open spec fn grown_at(
    old: OSCQNode,
    new: OSCQNode,
    ps: Seq<Seq<char>>,
    base: Seq<Seq<char>>,
    q: Seq<Seq<char>>,
) -> bool {
    match node_at(old, q) {
        Some(o) => node_at(new, q) matches Some(m) && same_attributes(m, o),
        None => if q.is_prefix_of(ps) {
            node_at(new, q) matches Some(m) && fresh_node(m, base + q)
        } else {
            node_at(new, q) is None
        },
    }
}

/// `new` is `old` with the pieces `ps` added, `old` standing at `base`.
pub open spec fn grown_by(old: OSCQNode, new: OSCQNode, ps: Seq<Seq<char>>, base: Seq<Seq<char>>) -> bool {
    forall|q: Seq<Seq<char>>|
        #![trigger node_at(new, q)]
        #![trigger node_at(old, q)]
        grown_at(old, new, ps, base, q)
}

/// `new` is `old` after the OSC address `path` was added to it.
pub open spec fn path_inserted(old: OSCQNode, new: OSCQNode, path: Seq<char>) -> bool {
    grown_by(old, new, path_pieces(path), Seq::<Seq<char>>::empty())
}

/// No child entries of `c` share a piece.
pub open spec fn distinct_keys(c: Seq<(String, OSCQNode)>) -> bool {
    forall|i: int, j: int| 0 <= i < j < c.len() ==> #[trigger] c[i].0@ != #[trigger] c[j].0@
}

/// No node of the tree has two child entries under the same piece.
pub open spec fn keys_distinct_everywhere(n: OSCQNode) -> bool {
    forall|q: Seq<Seq<char>>|
        #[trigger] node_at(n, q) is Some ==> distinct_keys(node_at(n, q).unwrap().contents@)
}

/// Every node below the root has the address that its pieces join to.
pub open spec fn paths_consistent(n: OSCQNode) -> bool {
    forall|q: Seq<Seq<char>>|
        q.len() > 0 && #[trigger] node_at(n, q) is Some ==> node_at(n, q).unwrap().full_path@
            == joined_path(q)
}

proof fn lemma_key_index_push(c: Seq<(String, OSCQNode)>, x: (String, OSCQNode), k: Seq<char>)
    ensures
        key_index(c.push(x), k) == (match key_index(c, k) {
            Some(i) => Some(i),
            None => if x.0@ == k {
                Some(c.len() as int)
            } else {
                None
            },
        }),
{
    assert(c.push(x).drop_last() =~= c);
}

proof fn lemma_key_index_bounds(c: Seq<(String, OSCQNode)>, k: Seq<char>)
    ensures
        match key_index(c, k) {
            Some(i) => 0 <= i < c.len() && c[i].0@ == k && forall|j: int|
                0 <= j < i ==> #[trigger] c[j].0@ != k,
            None => forall|j: int| 0 <= j < c.len() ==> #[trigger] c[j].0@ != k,
        },
    decreases c.len(),
{
    if c.len() > 0 {
        lemma_key_index_bounds(c.drop_last(), k);
        assert forall|j: int| 0 <= j < c.len() - 1 implies c.drop_last()[j] == c[j] by {}
    }
}

proof fn lemma_key_index_update(c: Seq<(String, OSCQNode)>, j: int, x: (String, OSCQNode), k: Seq<char>)
    requires
        0 <= j < c.len(),
        x.0@ == c[j].0@,
    ensures
        key_index(c.update(j, x), k) == key_index(c, k),
    decreases c.len(),
{
    let u = c.update(j, x);
    if j == c.len() - 1 {
        assert(u.drop_last() =~= c.drop_last());
    } else {
        assert(u.drop_last() =~= c.drop_last().update(j, x));
        lemma_key_index_update(c.drop_last(), j, x, k);
    }
}

proof fn lemma_key_index_first(c: Seq<(String, OSCQNode)>, k: Seq<char>, i: int)
    requires
        0 <= i < c.len(),
        c[i].0@ == k,
        forall|j: int| 0 <= j < i ==> #[trigger] c[j].0@ != k,
    ensures
        key_index(c, k) == Some(i),
{
    lemma_key_index_bounds(c, k);
}

proof fn lemma_filter_push(a: Seq<Seq<char>>, x: Seq<char>)
    ensures
        keep_nonempty(a.push(x)) == if x.len() > 0 {
            keep_nonempty(a).push(x)
        } else {
            keep_nonempty(a)
        },
{
    reveal_with_fuel(Seq::<_>::filter, 1);
    assert(a.push(x).drop_last() =~= a);
}

proof fn lemma_views_push(v: Seq<String>, x: String)
    ensures
        string_views(v.push(x)) == string_views(v).push(x@),
{
    assert(string_views(v.push(x)) =~= string_views(v).push(x@));
}

/// Splits an OSC address into its pieces: the parts between slashes that are
/// not empty, as `path.split('/')` with the empty parts skipped.
pub fn split_path(path: &str) -> (res: Vec<String>)
    ensures
        string_views(res@) == path_pieces(path@),
{
    let n = path.unicode_len();
    let ghost s = path@;
    let mut out: Vec<String> = Vec::new();
    let mut start: usize = 0;
    let mut i: usize = 0;
    let ghost mut done: Seq<Seq<char>> = Seq::empty();
    assert(s.take(0) =~= Seq::<char>::empty());
    assert(string_views(out@) =~= Seq::<Seq<char>>::empty());
    reveal_with_fuel(Seq::<_>::filter, 1);
    while i < n
        invariant
            n == s.len(),
            s == path@,
            start <= i <= n,
            split_on_slash(s.take(i as int)) == done.push(s.subrange(start as int, i as int)),
            string_views(out@) == keep_nonempty(done),
        decreases n - i,
    {
        let c = path.get_char(i);
        let ghost cur = s.subrange(start as int, i as int);
        assert(s.take(i + 1).drop_last() =~= s.take(i as int));
        assert(s.take(i + 1).last() == c);
        if c == '/' {
            proof {
                lemma_filter_push(done, cur);
            }
            if start < i {
                let piece = path.substring_char(start, i).to_owned();
                proof {
                    lemma_views_push(out@, piece);
                }
                out.push(piece);
            }
            proof {
                done = done.push(cur);
            }
            start = i + 1;
            assert(s.subrange(start as int, i + 1) =~= Seq::<char>::empty());
        } else {
            assert(s.subrange(start as int, i + 1) =~= cur.push(c));
            assert(done.push(cur).update(done.len() as int, cur.push(c)) =~= done.push(cur.push(c)));
        }
        i = i + 1;
    }
    assert(s.take(n as int) =~= s);
    let ghost cur = s.subrange(start as int, n as int);
    proof {
        lemma_filter_push(done, cur);
    }
    if start < n {
        let piece = path.substring_char(start, n).to_owned();
        proof {
            lemma_views_push(out@, piece);
        }
        out.push(piece);
    }
    out
}

/// The position of the first child entry of `contents` under `piece`.
pub fn find_child(contents: &Vec<(String, OSCQNode)>, piece: &String) -> (res: Option<usize>)
    ensures
        match res {
            Some(i) => key_index(contents@, piece@) == Some(i as int),
            None => key_index(contents@, piece@) is None,
        },
{
    let mut i: usize = 0;
    while i < contents.len()
        invariant
            i <= contents@.len(),
            forall|j: int| 0 <= j < i ==> #[trigger] contents@[j].0@ != piece@,
        decreases contents.len() - i,
    {
        if contents[i].0 == *piece {
            proof {
                lemma_key_index_first(contents@, piece@, i as int);
            }
            return Some(i);
        }
        i = i + 1;
    }
    proof {
        lemma_key_index_bounds(contents@, piece@);
    }
    None
}

proof fn lemma_prefix_cons(q: Seq<Seq<char>>, ps: Seq<Seq<char>>)
    requires
        q.len() > 0,
        ps.len() > 0,
    ensures
        q.is_prefix_of(ps) <==> (q[0] == ps[0] && q.drop_first().is_prefix_of(ps.drop_first())),
{
    if q.is_prefix_of(ps) {
        assert(q[0] == ps.subrange(0, q.len() as int)[0]);
        assert(q.drop_first() =~= ps.drop_first().subrange(0, q.len() - 1));
    }
    if q[0] == ps[0] && q.drop_first().is_prefix_of(ps.drop_first()) {
        assert forall|k: int| 0 < k < q.len() implies q[k] == ps[k] by {
            assert(q[k] == q.drop_first()[k - 1]);
            assert(q.drop_first()[k - 1] == ps.drop_first().subrange(0, q.len() - 1)[k - 1]);
        }
        assert(q =~= ps.subrange(0, q.len() as int));
    }
}

/// A node whose children are those of `old` but for the child under `piece`,
/// now `new_child`, has distinct keys everywhere when `old` and `new_child` do
/// and its own keys are distinct.
proof fn lemma_child_replaced_keys_distinct(
    old: OSCQNode,
    new: OSCQNode,
    piece: Seq<char>,
    new_child: OSCQNode,
)
    requires
        keys_distinct_everywhere(old),
        keys_distinct_everywhere(new_child),
        distinct_keys(new.contents@),
        key_index(new.contents@, piece) is Some,
        new.contents@[key_index(new.contents@, piece).unwrap()].1 == new_child,
        forall|q: Seq<Seq<char>>|
            q.len() > 0 && q[0] != piece ==> #[trigger] node_at(new, q) == node_at(old, q),
    ensures
        keys_distinct_everywhere(new),
{
    assert forall|q: Seq<Seq<char>>| #[trigger] node_at(new, q) is Some implies distinct_keys(
        node_at(new, q).unwrap().contents@,
    ) by {
        if q.len() > 0 {
            if q[0] == piece {
                assert(node_at(new, q) == node_at(new_child, q.drop_first()));
            } else {
                assert(node_at(new, q) == node_at(old, q));
            }
        }
    }
}

/// Adds the pieces `pieces[i..]` below `node`, which stands at the pieces
/// `pieces[..i]` and has the address `full_path`.
fn insert_pieces(node: &mut OSCQNode, pieces: &Vec<String>, i: usize, full_path: &String)
    requires
        i <= pieces@.len(),
        full_path@ == joined_path(string_views(pieces@).take(i as int)),
    ensures
        grown_by(*old(node), *final(node), string_views(pieces@).skip(i as int),
            string_views(pieces@).take(i as int)),
        keys_distinct_everywhere(*old(node)) ==> keys_distinct_everywhere(*final(node)),
    decreases pieces@.len() - i,
{
    let ghost views = string_views(pieces@);
    let ghost ps = views.skip(i as int);
    let ghost base = views.take(i as int);
    let ghost old_node = *node;
    if i == pieces.len() {
        assert forall|q: Seq<Seq<char>>| grown_at(old_node, *node, ps, base, q) by {
            if q.len() > 0 {
                assert(!q.is_prefix_of(ps));
            }
        }
        return;
    }
    let piece = &pieces[i];
    let mut child_path = full_path.clone();
    child_path.append("/");
    child_path.append(piece.as_str());
    proof {
        reveal_strlit("/");
        let b1 = views.take(i + 1);
        assert(b1.drop_last() =~= base);
        assert(b1.last() == piece@);
        assert(child_path@ =~= joined_path(b1));
    }
    let ghost new_base = views.take(i + 1);
    let ghost rest = views.skip(i + 1);
    assert(ps[0] == piece@);
    assert(ps.drop_first() =~= rest);
    let ghost old_contents = node.contents@;
    proof {
        lemma_key_index_bounds(old_contents, piece@);
    }
    match find_child(&node.contents, piece) {
        Some(j) => {
            let (key, mut child) = node.contents.remove(j);
            let ghost old_child = child;
            proof {
                if keys_distinct_everywhere(old_node) {
                    assert forall|r: Seq<Seq<char>>| #[trigger] node_at(old_child, r) is Some
                        implies distinct_keys(node_at(old_child, r).unwrap().contents@) by {
                        let q = seq![piece@] + r;
                        assert(q.drop_first() =~= r);
                        assert(node_at(old_node, q) == node_at(old_child, r));
                    }
                }
            }
            insert_pieces(&mut child, pieces, i + 1, &child_path);
            let ghost new_child = child;
            node.contents.insert(j, (key, child));
            proof {
                let entry = (key, new_child);
                assert(node.contents@ =~= old_contents.update(j as int, entry));
                lemma_key_index_bounds(old_contents, piece@);
                assert forall|q: Seq<Seq<char>>| grown_at(old_node, *node, ps, base, q) by {
                    if q.len() > 0 {
                        lemma_key_index_update(old_contents, j as int, entry, q[0]);
                        lemma_prefix_cons(q, ps);
                        let r = q.drop_first();
                        if q[0] == piece@ {
                            assert(grown_at(old_child, new_child, rest, new_base, r));
                            assert(base + q =~= new_base + r);
                        } else {
                            lemma_key_index_bounds(old_contents, q[0]);
                        }
                    }
                }
                if keys_distinct_everywhere(old_node) {
                    assert(node_at(old_node, Seq::empty()) == Some(old_node));
                    assert forall|a: int, b: int| 0 <= a < b < node.contents@.len()
                        implies #[trigger] node.contents@[a].0@ != #[trigger] node.contents@[b].0@ by {
                        assert(node.contents@[a].0@ == old_contents[a].0@);
                        assert(node.contents@[b].0@ == old_contents[b].0@);
                    }
                    assert forall|q: Seq<Seq<char>>| q.len() > 0 && q[0] != piece@ implies
                        #[trigger] node_at(*node, q) == node_at(old_node, q) by {
                        lemma_key_index_update(old_contents, j as int, entry, q[0]);
                        lemma_key_index_bounds(old_contents, q[0]);
                        if let Some(k) = key_index(old_contents, q[0]) {
                            assert(node.contents@[k] == old_contents[k]);
                        }
                    }
                    lemma_key_index_update(old_contents, j as int, entry, piece@);
                    lemma_child_replaced_keys_distinct(old_node, *node, piece@, new_child);
                }
            }
        },
        None => {
            let mut child = OSCQNode::with_full_path(child_path.clone());
            let ghost fresh = child;
            proof {
                assert forall|r: Seq<Seq<char>>| #[trigger] node_at(fresh, r) is Some
                    implies distinct_keys(node_at(fresh, r).unwrap().contents@) by {
                    if r.len() > 0 {
                        assert(key_index(fresh.contents@, r[0]) is None);
                    }
                }
            }
            insert_pieces(&mut child, pieces, i + 1, &child_path);
            let ghost new_child = child;
            let key = piece.clone();
            node.contents.push((key, child));
            proof {
                let entry = (key, new_child);
                assert(node.contents@ == old_contents.push(entry));
                lemma_key_index_bounds(old_contents, piece@);
                assert forall|q: Seq<Seq<char>>| grown_at(old_node, *node, ps, base, q) by {
                    if q.len() > 0 {
                        lemma_key_index_push(old_contents, entry, q[0]);
                        lemma_prefix_cons(q, ps);
                        let r = q.drop_first();
                        if q[0] == piece@ {
                            assert(grown_at(fresh, new_child, rest, new_base, r));
                            assert(base + q =~= new_base + r);
                            if r.len() > 0 {
                                assert(key_index(fresh.contents@, r[0]) is None);
                            } else {
                                assert(new_base + r =~= new_base);
                            }
                        } else {
                            lemma_key_index_bounds(old_contents, q[0]);
                        }
                    }
                }
                if keys_distinct_everywhere(old_node) {
                    assert(node_at(old_node, Seq::empty()) == Some(old_node));
                    assert forall|a: int, b: int| 0 <= a < b < node.contents@.len()
                        implies #[trigger] node.contents@[a].0@ != #[trigger] node.contents@[b].0@ by {
                        assert(node.contents@[a].0@ == old_contents[a].0@);
                        if b < old_contents.len() {
                            assert(node.contents@[b].0@ == old_contents[b].0@);
                        }
                    }
                    assert forall|q: Seq<Seq<char>>| q.len() > 0 && q[0] != piece@ implies
                        #[trigger] node_at(*node, q) == node_at(old_node, q) by {
                        lemma_key_index_push(old_contents, entry, q[0]);
                        lemma_key_index_bounds(old_contents, q[0]);
                        if let Some(k) = key_index(old_contents, q[0]) {
                            assert(node.contents@[k] == old_contents[k]);
                        }
                    }
                    lemma_key_index_push(old_contents, entry, piece@);
                    lemma_child_replaced_keys_distinct(old_node, *node, piece@, new_child);
                }
            }
        },
    }
}

/// Adds the OSC address `path` to the tree below `root`: every prefix of the
/// path's pieces that led nowhere now leads to a new node whose address is
/// that prefix; nodes that were there keep their attributes.
pub fn insert_path(root: &mut OSCQNode, path: &str)
    ensures
        path_inserted(*old(root), *final(root), path@),
        keys_distinct_everywhere(*old(root)) ==> keys_distinct_everywhere(*final(root)),
{
    let pieces = split_path(path);
    let start = String::new();
    assert(string_views(pieces@).take(0) =~= Seq::<Seq<char>>::empty());
    assert(string_views(pieces@).skip(0) =~= string_views(pieces@));
    insert_pieces(root, &pieces, 0, &start);
}

/// `q` is a prefix of the pieces of one of the addresses `dirs`.
pub open spec fn listed(dirs: Seq<Seq<char>>, q: Seq<Seq<char>>) -> bool {
    exists|k: int| 0 <= k < dirs.len() && q.is_prefix_of(#[trigger] path_pieces(dirs[k]))
}

/// `t` is the tree of the addresses `dirs`: a root at `/` with no type,
/// access or value, and below it exactly one fresh node for every prefix of
/// the pieces of an address, no node having two children under one piece.
pub open spec fn built_from(t: OSCQNode, dirs: Seq<Seq<char>>) -> bool {
    &&& t.full_path@ == "/"@
    &&& t.ty is None
    &&& t.access is None
    &&& t.value is None
    &&& forall|q: Seq<Seq<char>>|
        #![trigger node_at(t, q)]
        (node_at(t, q) is Some <==> (q.len() == 0 || listed(dirs, q)))
    &&& forall|q: Seq<Seq<char>>|
        #![trigger node_at(t, q)]
        q.len() > 0 && node_at(t, q) is Some ==> fresh_node(node_at(t, q).unwrap(), q)
    &&& keys_distinct_everywhere(t)
}

/// Builds the address tree of `directories`, adding them one after another to
/// a root node at `/`.
pub fn build_node_tree(directories: &Vec<String>) -> (res: OSCQNode)
    ensures
        built_from(res, string_views(directories@)),
{
    let ghost dirs = string_views(directories@);
    let mut root = OSCQNode::default();
    proof {
        assert(dirs.take(0) =~= Seq::<Seq<char>>::empty());
        assert forall|q: Seq<Seq<char>>| #[trigger] node_at(root, q) is Some
            implies distinct_keys(node_at(root, q).unwrap().contents@) by {
            if q.len() > 0 {
                assert(key_index(root.contents@, q[0]) is None);
            }
        }
        assert forall|q: Seq<Seq<char>>| q.len() > 0 implies #[trigger] node_at(root, q) is None by {
            assert(key_index(root.contents@, q[0]) is None);
        }
    }
    let mut i: usize = 0;
    while i < directories.len()
        invariant
            i <= directories@.len(),
            dirs == string_views(directories@),
            built_from(root, dirs.take(i as int)),
        decreases directories.len() - i,
    {
        let ghost before = root;
        insert_path(&mut root, directories[i].as_str());
        proof {
            let d0 = dirs.take(i as int);
            let d1 = dirs.take(i + 1);
            let ps = path_pieces(dirs[i as int]);
            assert(dirs[i as int] == directories@[i as int]@);
            assert forall|q: Seq<Seq<char>>| listed(d1, q) <==> (listed(d0, q) || q.is_prefix_of(ps)) by {
                if listed(d1, q) {
                    let k = choose|k: int| 0 <= k < d1.len() && q.is_prefix_of(#[trigger] path_pieces(d1[k]));
                    if k < i {
                        assert(d0[k] == d1[k]);
                    } else {
                        assert(d1[k] == dirs[i as int]);
                    }
                }
                if listed(d0, q) {
                    let k = choose|k: int| 0 <= k < d0.len() && q.is_prefix_of(#[trigger] path_pieces(d0[k]));
                    assert(d0[k] == d1[k]);
                }
                if q.is_prefix_of(ps) {
                    assert(d1[i as int] == dirs[i as int]);
                }
            }
            assert forall|q: Seq<Seq<char>>| #![trigger node_at(root, q)]
                (node_at(root, q) is Some <==> (q.len() == 0 || listed(d1, q))) by {
                assert(grown_at(before, root, ps, Seq::empty(), q));
            }
            assert forall|q: Seq<Seq<char>>| #![trigger node_at(root, q)]
                q.len() > 0 && node_at(root, q) is Some implies fresh_node(node_at(root, q).unwrap(), q) by {
                assert(grown_at(before, root, ps, Seq::empty(), q));
                assert(Seq::<Seq<char>>::empty() + q =~= q);
            }
            assert(grown_at(before, root, ps, Seq::empty(), Seq::empty()));
        }
        i = i + 1;
    }
    assert(dirs.take(directories@.len() as int) =~= dirs);
    root
}

/// The node that the pieces `pieces` lead to from `root`, each piece selecting
/// the first child under it; `None` where some piece leads nowhere.
pub fn find_node<'a>(root: &'a OSCQNode, pieces: &Vec<String>) -> (res: Option<&'a OSCQNode>)
    ensures
        match res {
            Some(n) => node_at(*root, string_views(pieces@)) == Some(*n),
            None => node_at(*root, string_views(pieces@)) is None,
        },
{
    let ghost views = string_views(pieces@);
    let mut node: &'a OSCQNode = root;
    let mut i: usize = 0;
    assert(views.skip(0) =~= views);
    while i < pieces.len()
        invariant
            i <= pieces@.len(),
            views == string_views(pieces@),
            node_at(*root, views) == node_at(*node, views.skip(i as int)),
        decreases pieces.len() - i,
    {
        let ghost rest = views.skip(i as int);
        assert(rest[0] == pieces@[i as int]@);
        assert(rest.drop_first() =~= views.skip(i + 1));
        match find_child(&node.contents, &pieces[i]) {
            Some(j) => {
                proof {
                    lemma_key_index_bounds(node.contents@, pieces@[i as int]@);
                }
                node = &node.contents[j].1;
            },
            None => {
                return None;
            },
        }
        i = i + 1;
    }
    assert(views.skip(pieces@.len() as int) =~= Seq::<Seq<char>>::empty());
    Some(node)
}

/// After an address is added, every prefix of its pieces leads to a node.
pub proof fn inserted_path_is_found(old: OSCQNode, new: OSCQNode, path: Seq<char>, q: Seq<Seq<char>>)
    requires
        path_inserted(old, new, path),
        q.is_prefix_of(path_pieces(path)),
    ensures
        node_at(new, q) is Some,
{
    assert(grown_at(old, new, path_pieces(path), Seq::empty(), q));
}

/// Adding an address keeps every node's address equal to the join of the
/// pieces that lead to it.
pub proof fn insert_path_keeps_paths_consistent(old: OSCQNode, new: OSCQNode, path: Seq<char>)
    requires
        path_inserted(old, new, path),
        paths_consistent(old),
    ensures
        paths_consistent(new),
{
    assert forall|q: Seq<Seq<char>>| q.len() > 0 && #[trigger] node_at(new, q) is Some implies node_at(
        new,
        q,
    ).unwrap().full_path@ == joined_path(q) by {
        assert(grown_at(old, new, path_pieces(path), Seq::empty(), q));
        assert(Seq::<Seq<char>>::empty() + q =~= q);
    }
}

/// Adding the same address a second time changes nothing that a path leads
/// to: the same paths lead to nodes, and those nodes carry the same
/// attributes.
pub proof fn insert_path_idempotent(t0: OSCQNode, t1: OSCQNode, t2: OSCQNode, path: Seq<char>)
    requires
        path_inserted(t0, t1, path),
        path_inserted(t1, t2, path),
    ensures
        forall|q: Seq<Seq<char>>|
            #![trigger node_at(t2, q)]
            (node_at(t2, q) is Some <==> node_at(t1, q) is Some) && (node_at(t2, q) is Some
                ==> same_attributes(node_at(t2, q).unwrap(), node_at(t1, q).unwrap())),
{
    let ps = path_pieces(path);
    assert forall|q: Seq<Seq<char>>|
        #![trigger node_at(t2, q)]
        (node_at(t2, q) is Some <==> node_at(t1, q) is Some) && (node_at(t2, q) is Some
            ==> same_attributes(node_at(t2, q).unwrap(), node_at(t1, q).unwrap())) by {
        assert(grown_at(t0, t1, ps, Seq::empty(), q));
        assert(grown_at(t1, t2, ps, Seq::empty(), q));
    }
}

proof fn lemma_split_pieces_no_slash(s: Seq<char>)
    ensures
        split_on_slash(s).len() >= 1,
        forall|i: int, j: int|
            0 <= i < split_on_slash(s).len() && 0 <= j < split_on_slash(s)[i].len()
                ==> #[trigger] split_on_slash(s)[i][j] != '/',
    decreases s.len(),
{
    if s.len() > 0 {
        lemma_split_pieces_no_slash(s.drop_last());
        let prev = split_on_slash(s.drop_last());
        if s.last() != '/' {
            assert forall|i: int, j: int|
                0 <= i < split_on_slash(s).len() && 0 <= j < split_on_slash(s)[i].len()
                    implies #[trigger] split_on_slash(s)[i][j] != '/' by {
                if i == prev.len() - 1 {
                    if j < prev[i].len() {
                        assert(split_on_slash(s)[i][j] == prev[i][j]);
                    }
                } else {
                    assert(split_on_slash(s)[i] == prev[i]);
                }
            }
        } else {
            assert forall|i: int, j: int|
                0 <= i < split_on_slash(s).len() && 0 <= j < split_on_slash(s)[i].len()
                    implies #[trigger] split_on_slash(s)[i][j] != '/' by {
                if i < prev.len() {
                    assert(split_on_slash(s)[i] == prev[i]);
                }
            }
        }
    }
}

proof fn lemma_split_without_slash(s: Seq<char>)
    requires
        forall|i: int| 0 <= i < s.len() ==> s[i] != '/',
    ensures
        split_on_slash(s) == seq![s],
    decreases s.len(),
{
    if s.len() > 0 {
        lemma_split_without_slash(s.drop_last());
        assert(s.last() == s[s.len() - 1]);
        assert(s.drop_last().push(s.last()) =~= s);
        assert(seq![s.drop_last()].update(0, s.drop_last().push(s.last())) =~= seq![s]);
    } else {
        assert(s =~= Seq::<char>::empty());
    }
}

proof fn lemma_split_concat(s: Seq<char>, t: Seq<char>)
    ensures
        split_on_slash(s + seq!['/'] + t) == split_on_slash(s) + split_on_slash(t),
    decreases t.len(),
{
    let st = s + seq!['/'] + t;
    if t.len() == 0 {
        assert(st.drop_last() =~= s);
        assert(st.last() == '/');
        assert(split_on_slash(s).push(Seq::<char>::empty()) =~= split_on_slash(s)
            + seq![Seq::<char>::empty()]);
    } else {
        lemma_split_concat(s, t.drop_last());
        lemma_split_pieces_no_slash(t.drop_last());
        assert(st.drop_last() =~= s + seq!['/'] + t.drop_last());
        assert(st.last() == t.last());
        let a = split_on_slash(s);
        let b = split_on_slash(t.drop_last());
        if t.last() == '/' {
            assert((a + b).push(Seq::<char>::empty()) =~= a + b.push(Seq::<char>::empty()));
        } else {
            let ab = a + b;
            assert(ab.update(ab.len() - 1, ab.last().push(t.last())) =~= a + b.update(
                b.len() - 1,
                b.last().push(t.last()),
            ));
        }
    }
}

proof fn lemma_keep_nonempty_elements(parts: Seq<Seq<char>>)
    ensures
        forall|i: int| 0 <= i < keep_nonempty(parts).len() ==> (#[trigger] keep_nonempty(parts)[i]).len() > 0
            && exists|k: int| 0 <= k < parts.len() && parts[k] == keep_nonempty(parts)[i],
    decreases parts.len(),
{
    if parts.len() > 0 {
        let prev = parts.drop_last();
        lemma_keep_nonempty_elements(prev);
        assert(prev.push(parts.last()) =~= parts);
        lemma_filter_push(prev, parts.last());
        assert forall|i: int| 0 <= i < keep_nonempty(parts).len() implies (#[trigger] keep_nonempty(
            parts,
        )[i]).len() > 0 && exists|k: int| 0 <= k < parts.len() && parts[k] == keep_nonempty(parts)[i] by {
            if i < keep_nonempty(prev).len() {
                assert(keep_nonempty(parts)[i] == keep_nonempty(prev)[i]);
                let k = choose|k: int| 0 <= k < prev.len() && prev[k] == keep_nonempty(prev)[i];
                assert(parts[k] == prev[k]);
            } else {
                assert(parts[parts.len() - 1] == parts.last());
            }
        }
    } else {
        reveal_with_fuel(Seq::<_>::filter, 1);
    }
}

/// Only `/` separates the pieces of an OSC address: every piece is a non-empty
/// run of characters none of which is `/`.
pub proof fn pieces_are_slash_free(s: Seq<char>)
    ensures
        forall|i: int| 0 <= i < path_pieces(s).len() ==> #[trigger] path_pieces(s)[i].len() > 0,
        forall|i: int, j: int|
            0 <= i < path_pieces(s).len() && 0 <= j < path_pieces(s)[i].len()
                ==> #[trigger] path_pieces(s)[i][j] != '/',
{
    lemma_split_pieces_no_slash(s);
    lemma_keep_nonempty_elements(split_on_slash(s));
    let parts = split_on_slash(s);
    assert forall|i: int, j: int|
        0 <= i < path_pieces(s).len() && 0 <= j < path_pieces(s)[i].len()
            implies #[trigger] path_pieces(s)[i][j] != '/' by {
        let k = choose|k: int| 0 <= k < parts.len() && parts[k] == keep_nonempty(parts)[i];
        assert(parts[k][j] != '/');
    }
}

/// An address with no `/` in it is a single piece, itself, when it is not
/// empty, and has no pieces when it is.
pub proof fn slash_free_address_is_one_piece(s: Seq<char>)
    requires
        forall|i: int| 0 <= i < s.len() ==> s[i] != '/',
    ensures
        s.len() > 0 ==> path_pieces(s) == seq![s],
        s.len() == 0 ==> path_pieces(s).len() == 0,
{
    lemma_split_without_slash(s);
    lemma_filter_push(Seq::<Seq<char>>::empty(), s);
    reveal_with_fuel(Seq::<_>::filter, 1);
    assert(Seq::<Seq<char>>::empty().push(s) =~= seq![s]);
    assert(Seq::<Seq<char>>::empty().push(s) =~= seq![s]);
}

/// The pieces of two addresses joined by a `/` are the pieces of the first
/// followed by the pieces of the second.
pub proof fn pieces_of_joined_addresses(s: Seq<char>, t: Seq<char>)
    ensures
        path_pieces(s + seq!['/'] + t) == path_pieces(s) + path_pieces(t),
{
    lemma_split_concat(s, t);
    Seq::<Seq<char>>::filter_distributes_over_add(
        split_on_slash(s),
        split_on_slash(t),
        |p: Seq<char>| p.len() > 0,
    );
}

} // verus!
