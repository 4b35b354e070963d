use vstd::prelude::*;
use vstd::set_lib::lemma_set_union_finite_iff;
use crate::value::StmValue;

verus! {

/// A node of the unbalanced binary search tree: everything in the left
/// subtree is smaller than the node's value, everything in the right one
/// larger, and duplicates are never stored.
struct BstNode {
    val: i32,
    l: Option<Box<BstNode>>,
    r: Option<Box<BstNode>>,
}

/// The set of values a subtree holds.
spec fn sub_elems(o: Option<Box<BstNode>>) -> Set<int>
    decreases o,
{
    match o {
        None => Set::empty(),
        Some(b) => sub_elems(b.l).union(sub_elems(b.r)).insert(b.val as int),
    }
}

/// The number of nodes in a subtree.
spec fn sub_count(o: Option<Box<BstNode>>) -> nat
    decreases o,
{
    match o {
        None => 0,
        Some(b) => 1 + sub_count(b.l) + sub_count(b.r),
    }
}

/// The search-tree shape: left strictly below, right strictly above, at
/// every node.
spec fn sub_bst(o: Option<Box<BstNode>>) -> bool
    decreases o,
{
    match o {
        None => true,
        Some(b) => {
            &&& sub_bst(b.l)
            &&& sub_bst(b.r)
            &&& forall|x: int| sub_elems(b.l).contains(x) ==> x < b.val as int
            &&& forall|x: int| sub_elems(b.r).contains(x) ==> x > b.val as int
        },
    }
}


proof fn lemma_disjoint_union_len<A>(a: Set<A>, b: Set<A>)
    requires
        a.finite(),
        b.finite(),
        a.intersect(b).is_empty(),
    ensures
        a.union(b).finite(),
        a.union(b).len() == a.len() + b.len(),
    decreases a.len(),
{
    lemma_set_union_finite_iff(a, b);
    if a.is_empty() {
        assert(a.union(b) =~= b);
    } else {
        let x = a.choose();
        assert(a.contains(x));
        assert(!b.contains(x)) by {
            if b.contains(x) {
                assert(a.intersect(b).contains(x));
            }
        }
        assert(a.remove(x).intersect(b).is_empty()) by {
            assert forall|y: A| !(a.remove(x).intersect(b).contains(y)) by {
                if a.remove(x).intersect(b).contains(y) {
                    assert(a.intersect(b).contains(y));
                }
            }
            assert(a.remove(x).intersect(b) =~= Set::empty());
        }
        lemma_disjoint_union_len(a.remove(x), b);
        assert(a.union(b).remove(x) =~= a.remove(x).union(b));
    }
}

/// In a search tree the node count equals the number of distinct values:
/// the two subtrees share nothing and neither holds the node's own value,
/// so every node carries a value of its own.
proof fn lemma_sub_count_is_cardinality(o: Option<Box<BstNode>>)
    requires
        sub_bst(o),
    ensures
        sub_elems(o).finite(),
        sub_count(o) == sub_elems(o).len(),
    decreases o,
{
    match o {
        None => {},
        Some(b) => {
            lemma_sub_count_is_cardinality(b.l);
            lemma_sub_count_is_cardinality(b.r);
            let le = sub_elems(b.l);
            let re = sub_elems(b.r);
            assert(le.intersect(re).is_empty()) by {
                assert forall|y: int| !(le.intersect(re).contains(y)) by {
                    if le.intersect(re).contains(y) {
                        assert(y < b.val as int && y > b.val as int);
                    }
                }
                assert(le.intersect(re) =~= Set::empty());
            }
            lemma_disjoint_union_len(le, re);
            assert(!le.union(re).contains(b.val as int));
            assert(le.union(re).insert(b.val as int).len() == le.union(re).len() + 1);
        },
    }
}

fn insert_node(node: Option<Box<BstNode>>, new_val: i32) -> (r: Option<Box<BstNode>>)
    requires
        sub_bst(node),
    ensures
        sub_bst(r),
        sub_elems(r) == sub_elems(node).insert(new_val as int),
        sub_count(r) == sub_count(node) + (if sub_elems(node).contains(new_val as int) {
            0int
        } else {
            1int
        }),
    decreases node,
{
    match node {
        None => {
            let fresh = Some(Box::new(BstNode { val: new_val, l: None, r: None }));
            proof {
                assert(sub_elems(fresh) =~= sub_elems(node).insert(new_val as int));
            }
            fresh
        },
        Some(b) => {
            let mut n = *b;
            let ghost l0 = n.l;
            let ghost r0 = n.r;
            if new_val == n.val {
                let kept = Some(Box::new(n));
                proof {
                    assert(sub_elems(kept) =~= sub_elems(kept).insert(new_val as int));
                }
                kept
            } else if new_val < n.val {
                n.l = insert_node(n.l, new_val);
                let grown = Some(Box::new(n));
                proof {
                    assert(sub_elems(grown) =~= sub_elems(l0).union(sub_elems(r0)).insert(
                        n.val as int,
                    ).insert(new_val as int));
                    assert(!sub_elems(r0).contains(new_val as int));
                }
                grown
            } else {
                n.r = insert_node(n.r, new_val);
                let grown = Some(Box::new(n));
                proof {
                    assert(sub_elems(grown) =~= sub_elems(l0).union(sub_elems(r0)).insert(
                        n.val as int,
                    ).insert(new_val as int));
                    assert(!sub_elems(l0).contains(new_val as int));
                }
                grown
            }
        },
    }
}

fn count_nodes(o: &Option<Box<BstNode>>) -> (r: i32)
    requires
        sub_count(*o) <= 0x7fff_ffff,
    ensures
        0 <= r,
        r as int == sub_count(*o),
    decreases *o,
{
    match o {
        None => 0,
        Some(b) => {
            let lc = count_nodes(&b.l);
            let rc = count_nodes(&b.r);
            lc + rc + 1
        },
    }
}

fn clone_node(o: &Option<Box<BstNode>>) -> (r: Option<Box<BstNode>>)
    ensures
        r == *o,
    decreases *o,
{
    match o {
        None => None,
        Some(b) => Some(
            Box::new(BstNode { val: b.val, l: clone_node(&b.l), r: clone_node(&b.r) }),
        ),
    }
}

/// An unbalanced binary search tree of distinct integers, the whole of
/// which is meant to live inside one transactional variable.
pub struct Bst {
    root: Option<Box<BstNode>>,
}

impl Bst {
    /// The set of values stored.
    pub closed spec fn elems(&self) -> Set<int> {
        sub_elems(self.root)
    }

    /// The search-tree shape.
    pub closed spec fn is_bst(&self) -> bool {
        sub_bst(self.root)
    }

    /// The number of nodes.
    pub closed spec fn count(&self) -> nat {
        sub_count(self.root)
    }

    /// The empty tree.
    pub fn new() -> (r: Bst)
        ensures
            r.is_bst(),
            r.elems() == Set::<int>::empty(),
            r.count() == 0,
    {
        Bst { root: None }
    }

    /// Insert a value; a value already present leaves the tree as it was.
    pub fn insert(&mut self, new_val: i32)
        requires
            old(self).is_bst(),
        ensures
            final (self).is_bst(),
            final (self).elems() == old(self).elems().insert(new_val as int),
            final (self).count() == old(self).count() + (if old(self).elems().contains(
                new_val as int,
            ) {
                0int
            } else {
                1int
            }),
    {
        let root = self.root.take();
        self.root = insert_node(root, new_val);
    }

    /// The number of values stored.
    pub fn size(&mut self) -> (r: i32)
        requires
            old(self).count() <= 0x7fff_ffff,
        ensures
            *final (self) == *old(self),
            0 <= r,
            r as int == old(self).count(),
    {
        count_nodes(&self.root)
    }
}

/// In a search tree the size equals the number of distinct values stored:
/// what the tree reports as its size is the cardinality of its value set.
pub proof fn lemma_bst_count_is_cardinality(t: &Bst)
    requires
        t.is_bst(),
    ensures
        t.elems().finite(),
        t.count() == t.elems().len(),
{
    lemma_sub_count_is_cardinality(t.root);
}

impl StmValue for Bst {
    /// A tree is a fit payload when it has the search shape.
    open spec fn inv(&self) -> bool {
        self.is_bst()
    }

    fn dup(&self) -> (r: Self)
        ensures
            r == *self,
    {
        Bst { root: clone_node(&self.root) }
    }
}

} // verus!
