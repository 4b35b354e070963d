use vstd::prelude::*;
use crate::value::StmValue;

verus! {

/// A node of the ascending singly linked list; duplicates are never stored.
struct LlNode {
    val: i32,
    next: Option<Box<LlNode>>,
}

/// The set of values a tail holds.
spec fn sub_set(o: Option<Box<LlNode>>) -> Set<int>
    decreases o,
{
    match o {
        None => Set::empty(),
        Some(b) => sub_set(b.next).insert(b.val as int),
    }
}

/// The number of nodes in a tail.
spec fn sub_len(o: Option<Box<LlNode>>) -> nat
    decreases o,
{
    match o {
        None => 0,
        Some(b) => 1 + sub_len(b.next),
    }
}

/// Strictly ascending: every value further down the list is larger.
spec fn sub_sorted(o: Option<Box<LlNode>>) -> bool
    decreases o,
{
    match o {
        None => true,
        Some(b) => {
            &&& sub_sorted(b.next)
            &&& forall|x: int| sub_set(b.next).contains(x) ==> x > b.val as int
        },
    }
}

proof fn lemma_sub_len_is_cardinality(o: Option<Box<LlNode>>)
    requires
        sub_sorted(o),
    ensures
        sub_set(o).finite(),
        sub_len(o) == sub_set(o).len(),
    decreases o,
{
    match o {
        None => {},
        Some(b) => {
            lemma_sub_len_is_cardinality(b.next);
            assert(!sub_set(b.next).contains(b.val as int));
        },
    }
}

fn insert_node(node: Option<Box<LlNode>>, new_val: i32) -> (r: Option<Box<LlNode>>)
    requires
        sub_sorted(node),
    ensures
        sub_sorted(r),
        sub_set(r) == sub_set(node).insert(new_val as int),
        sub_len(r) == sub_len(node) + (if sub_set(node).contains(new_val as int) {
            0int
        } else {
            1int
        }),
    decreases node,
{
    let ghost node0 = node;
    match node {
        None => {
            let fresh = Some(Box::new(LlNode { val: new_val, next: None }));
            proof {
                assert(sub_sorted(fresh));
                assert(sub_set(fresh) =~= sub_set(node0).insert(new_val as int));
            }
            fresh
        },
        Some(b) => {
            let mut n = *b;
            let ghost tail0 = n.next;
            let ghost head_val = n.val;
            if new_val == n.val {
                let kept = Some(Box::new(n));
                proof {
                    assert(sub_set(kept) =~= sub_set(node0));
                    assert(sub_set(node0).contains(new_val as int));
                    assert(sub_set(kept) =~= sub_set(node0).insert(new_val as int));
                }
                kept
            } else if new_val < n.val {
                let inner = Box::new(n);
                let ghost inner0 = inner;
                let prepended = Some(Box::new(LlNode { val: new_val, next: Some(inner) }));
                proof {
                    assert(sub_set(Some(inner0)) =~= sub_set(node0));
                    assert forall|x: int| sub_set(Some(inner0)).contains(x) implies x
                        > new_val as int by {
                        if x != head_val as int {
                            assert(sub_set(tail0).contains(x));
                        }
                    }
                    assert(sub_sorted(prepended));
                    assert(sub_set(prepended) =~= sub_set(node0).insert(new_val as int));
                    assert(!sub_set(node0).contains(new_val as int)) by {
                        if sub_set(node0).contains(new_val as int) {
                            assert(sub_set(Some(inner0)).contains(new_val as int));
                        }
                    }
                }
                prepended
            } else {
                n.next = insert_node(n.next, new_val);
                let grown = Some(Box::new(n));
                proof {
                    assert(sub_set(n.next) == sub_set(tail0).insert(new_val as int));
                    assert forall|x: int| sub_set(n.next).contains(x) implies x
                        > head_val as int by {
                        if x != new_val as int {
                            assert(sub_set(tail0).contains(x));
                        }
                    }
                    assert(sub_sorted(grown));
                    assert(sub_set(grown) =~= sub_set(node0).insert(new_val as int));
                    assert(sub_set(node0).contains(new_val as int) <==> sub_set(tail0).contains(
                        new_val as int,
                    )) by {
                        if sub_set(node0).contains(new_val as int) && !sub_set(tail0).contains(
                            new_val as int,
                        ) {
                            assert(new_val as int == head_val as int);
                        }
                    }
                }
                grown
            }
        },
    }
}

fn count_nodes(o: &Option<Box<LlNode>>) -> (r: i32)
    requires
        sub_len(*o) <= 0x7fff_ffff,
    ensures
        0 <= r,
        r as int == sub_len(*o),
    decreases *o,
{
    match o {
        None => 0,
        Some(b) => {
            let rest = count_nodes(&b.next);
            rest + 1
        },
    }
}

fn clone_node(o: &Option<Box<LlNode>>) -> (r: Option<Box<LlNode>>)
    ensures
        r == *o,
    decreases *o,
{
    match o {
        None => None,
        Some(b) => Some(Box::new(LlNode { val: b.val, next: clone_node(&b.next) })),
    }
}

/// An ascending linked list of distinct integers, the whole of which is
/// meant to live inside one transactional variable.
pub struct Ll {
    root: Option<Box<LlNode>>,
}

impl Ll {
    /// The set of values stored.
    pub closed spec fn elems(&self) -> Set<int> {
        sub_set(self.root)
    }

    /// The strictly ascending shape.
    pub closed spec fn is_sorted(&self) -> bool {
        sub_sorted(self.root)
    }

    /// The number of nodes.
    pub closed spec fn count(&self) -> nat {
        sub_len(self.root)
    }

    /// The empty list.
    pub fn new() -> (r: Ll)
        ensures
            r.is_sorted(),
            r.elems() == Set::<int>::empty(),
            r.count() == 0,
    {
        Ll { root: None }
    }

    /// Insert a value at its place in the order; a value already present
    /// leaves the list as it was.
    pub fn insert(&mut self, new_val: i32)
        requires
            old(self).is_sorted(),
        ensures
            final (self).is_sorted(),
            final (self).elems() == old(self).elems().insert(new_val as int),
            final (self).count() == old(self).count() + (if old(self).elems().contains(
                new_val as int,
            ) {
                0int
            } else {
                1int
            }),
    {
        let root = self.root.take();
        self.root = insert_node(root, new_val);
    }

    /// The number of values stored.
    pub fn len(&mut self) -> (r: i32)
        requires
            old(self).count() <= 0x7fff_ffff,
        ensures
            *final (self) == *old(self),
            0 <= r,
            r as int == old(self).count(),
    {
        count_nodes(&self.root)
    }
}

/// In a sorted list the length equals the number of distinct values stored.
pub proof fn lemma_ll_len_is_cardinality(l: &Ll)
    requires
        l.is_sorted(),
    ensures
        l.elems().finite(),
        l.count() == l.elems().len(),
{
    lemma_sub_len_is_cardinality(l.root);
}

impl StmValue for Ll {
    /// A list is a fit payload when it keeps the ascending order.
    open spec fn inv(&self) -> bool {
        self.is_sorted()
    }

    fn dup(&self) -> (r: Self)
        ensures
            r == *self,
    {
        Ll { root: clone_node(&self.root) }
    }
}

} // verus!
