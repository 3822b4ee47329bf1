//! Cancellation contexts.
//!
//! Contexts form a tree. A background context is a root and is never done;
//! every context created with `with_cancel` is a child of the context it was
//! created from and can be cancelled. Cancelling a context marks it done and
//! sweeps through its children: every child that is not yet done is cancelled
//! in turn. All contexts of one tree live in a `CtxTree`, and a `Ctx` is a
//! handle into it.
use vstd::prelude::*;

verus! {

/// Marker for a context that can only be observed.
#[derive(Clone, Copy, Debug, PartialEq, Eq, Hash)]
pub struct Background;

/// Marker for a context that can be cancelled.
#[derive(Clone, Copy, Debug, PartialEq, Eq, Hash)]
pub struct Cancel;

/// One context of the tree: its parent (`None` for a background root) and
/// whether it has been cancelled.
#[derive(Clone, Copy, Debug)]
pub struct CtxNode {
    pub parent: Option<usize>,
    pub done: bool,
}

/// All contexts of one cancellation tree.
#[derive(Debug)]
pub struct CtxTree {
    nodes: Vec<CtxNode>,
}

/// A handle to a context of a `CtxTree`.
#[derive(Clone, Copy, Debug)]
pub struct Ctx<K> {
    id: usize,
    kind: K,
}

/// A sequence of nodes is a well-formed tree: every parent comes before its
/// child, and roots (background contexts) are never done.
pub open spec fn wf_nodes(nodes: Seq<CtxNode>) -> bool {
    forall|i: int|
        0 <= i < nodes.len() ==> match #[trigger] nodes[i].parent {
            Some(p) => p < i,
            None => !nodes[i].done,
        }
}

/// Whether cancelling context `n` reaches context `m`: `m` is `n` itself, or
/// `m` was not done and its parent was reached.
pub open spec fn swept(nodes: Seq<CtxNode>, n: int, m: int) -> bool
    decreases m,
{
    if m == n {
        true
    } else if m < n || m >= nodes.len() {
        false
    } else {
        match nodes[m].parent {
            Some(p) => p < m && !nodes[m].done && swept(nodes, n, p as int),
            None => false,
        }
    }
}

/// The tree after cancelling context `n`: every reached context that can be
/// cancelled (that is not a root) is done; nothing else changes.
pub open spec fn cancelled(nodes: Seq<CtxNode>, n: int) -> Seq<CtxNode> {
    Seq::new(
        nodes.len(),
        |m: int|
            CtxNode {
                parent: nodes[m].parent,
                done: nodes[m].done || (swept(nodes, n, m) && nodes[m].parent is Some),
            },
    )
}

/// `m` is `n` or lies below `n` in the tree.
pub open spec fn descends(nodes: Seq<CtxNode>, m: int, n: int) -> bool
    decreases m,
{
    if m == n {
        true
    } else if m < 0 || m >= nodes.len() {
        false
    } else {
        match nodes[m].parent {
            Some(p) => p < m && descends(nodes, p as int, n),
            None => false,
        }
    }
}

impl View for CtxTree {
    type V = Seq<CtxNode>;

    closed spec fn view(&self) -> Seq<CtxNode> {
        self.nodes@
    }
}

impl CtxTree {
    /// The tree is well formed.
    pub open spec fn wf(&self) -> bool {
        wf_nodes(self@)
    }

    /// Creates a tree without contexts.
    pub fn new() -> (t: CtxTree)
        ensures
            t.wf(),
            t@ == Seq::<CtxNode>::empty(),
    {
        CtxTree { nodes: Vec::new() }
    }

    /// Number of contexts in the tree.
    pub fn len(&self) -> (r: usize)
        ensures
            r == self@.len(),
    {
        self.nodes.len()
    }
}

impl<K> Ctx<K> {
    /// Index of the context in its tree.
    pub closed spec fn index(&self) -> int {
        self.id as int
    }

    /// The context belongs to `tree`.
    pub open spec fn within(&self, tree: &CtxTree) -> bool {
        0 <= self.index() < tree@.len()
    }

    /// Creates a cancellable child of this context. The child is not done,
    /// whatever the state of this context.
    pub fn with_cancel(&self, tree: &mut CtxTree) -> (c: Ctx<Cancel>)
        requires
            old(tree).wf(),
            self.within(old(tree)),
        ensures
            final(tree).wf(),
            c.index() == old(tree)@.len(),
            final(tree)@ == old(tree)@.push(CtxNode { parent: Some(self.index() as usize), done: false }),
    {
        let id = tree.nodes.len();
        tree.nodes.push(CtxNode { parent: Some(self.id), done: false });
        Ctx { id, kind: Cancel }
    }

    /// A background view of the same context: it observes the same state but
    /// cannot cancel it.
    pub fn to_background(&self) -> (c: Ctx<Background>)
        ensures
            c.index() == self.index(),
    {
        Ctx { id: self.id, kind: Background }
    }

    /// Whether the context has been cancelled.
    pub fn is_done(&self, tree: &CtxTree) -> (r: bool)
        requires
            self.within(tree),
        ensures
            r == tree@[self.index()].done,
    {
        tree.nodes[self.id].done
    }
}

impl Ctx<Cancel> {
    /// Cancels this context and sweeps the cancellation through its
    /// children: every child that is not yet done is cancelled too. The
    /// handle must name a context of this tree made by `with_cancel`.
    pub fn cancel(&self, tree: &mut CtxTree)
        requires
            old(tree).wf(),
            self.within(old(tree)),
            old(tree)@[self.index()].parent is Some,
        ensures
            final(tree).wf(),
            final(tree)@ == cancelled(old(tree)@, self.index()),
            final(tree)@[self.index()].done,
    {
        cancel_at(tree, self.id);
    }
}

impl<K> Ctx<K> {
    /// Releases the last handle of a context: as when the context goes
    /// away, it is cancelled (a background context itself stays not done)
    /// and so is every child that is not yet done.
    pub fn release(self, tree: &mut CtxTree)
        requires
            old(tree).wf(),
            self.within(old(tree)),
        ensures
            final(tree).wf(),
            final(tree)@ == cancelled(old(tree)@, self.index()),
    {
        cancel_at(tree, self.id);
    }
}

/// Creates a new background context: a root of the tree that is never done.
pub fn background(tree: &mut CtxTree) -> (c: Ctx<Background>)
    requires
        old(tree).wf(),
    ensures
        final(tree).wf(),
        c.index() == old(tree)@.len(),
        final(tree)@ == old(tree)@.push(CtxNode { parent: None, done: false }),
{
    let id = tree.nodes.len();
    tree.nodes.push(CtxNode { parent: None, done: false });
    Ctx { id, kind: Background }
}

/// Lemma: a context reached from `n` lies at or after `n`.
proof fn lemma_swept_after(nodes: Seq<CtxNode>, n: int, m: int)
    requires
        swept(nodes, n, m),
    ensures
        n <= m,
    decreases m,
{
    if m != n {
        let p = nodes[m].parent.unwrap() as int;
        lemma_swept_after(nodes, n, p);
    }
}

fn cancel_at(tree: &mut CtxTree, n: usize)
    requires
        wf_nodes(old(tree).nodes@),
        n < old(tree).nodes@.len(),
    ensures
        wf_nodes(final(tree).nodes@),
        final(tree).nodes@ == cancelled(old(tree).nodes@, n as int),
{
    let ghost before = tree.nodes@;
    let len = tree.nodes.len();
    let mut marks: Vec<bool> = Vec::new();
    let mut i: usize = 0;
    while i < len
        invariant
            len == before.len(),
            n < len,
            i <= len,
            wf_nodes(before),
            marks@.len() == i,
            forall|j: int| 0 <= j < i ==> marks@[j] == swept(before, n as int, j),
            tree.nodes@.len() == len,
            forall|j: int|
                0 <= j < i ==> #[trigger] tree.nodes@[j] == cancelled(before, n as int)[j],
            forall|j: int| i <= j < len ==> #[trigger] tree.nodes@[j] == before[j],
        decreases len - i,
    {
        let node = tree.nodes[i];
        let reached = if i == n {
            true
        } else if i < n {
            false
        } else {
            match node.parent {
                Some(p) => {
                    assert(p < i) by {
                        assert(match before[i as int].parent {
                            Some(q) => q < i,
                            None => !before[i as int].done,
                        });
                    }
                    !node.done && marks[p]
                },
                None => false,
            }
        };
        assert(reached == swept(before, n as int, i as int));
        marks.push(reached);
        if reached && node.parent.is_some() {
            tree.nodes.set(i, CtxNode { parent: node.parent, done: true });
        }
        i = i + 1;
    }
    assert(tree.nodes@ =~= cancelled(before, n as int));
}

/// Law: cancelling a context marks it done, and a context that was done
/// stays done.
pub proof fn law_cancel_marks_self(nodes: Seq<CtxNode>, n: int)
    requires
        wf_nodes(nodes),
        0 <= n < nodes.len(),
        nodes[n].parent is Some,
    ensures
        cancelled(nodes, n)[n].done,
        forall|m: int| 0 <= m < nodes.len() && nodes[m].done ==> #[trigger] cancelled(nodes, n)[m].done,
{
}

/// Law: cancelling a context never touches a context outside its subtree:
/// its ancestors, siblings and other roots keep their state.
pub proof fn law_cancel_stays_in_subtree(nodes: Seq<CtxNode>, n: int, m: int)
    requires
        wf_nodes(nodes),
        0 <= n < nodes.len(),
        0 <= m < nodes.len(),
        !descends(nodes, m, n),
    ensures
        cancelled(nodes, n)[m] == nodes[m],
{
    if swept(nodes, n, m) {
        lemma_swept_descends(nodes, n, m);
    }
}

proof fn lemma_swept_descends(nodes: Seq<CtxNode>, n: int, m: int)
    requires
        swept(nodes, n, m),
    ensures
        descends(nodes, m, n),
    decreases m,
{
    if m != n {
        let p = nodes[m].parent.unwrap() as int;
        lemma_swept_descends(nodes, n, p);
    }
}

/// Law: a background context is never done, whatever is cancelled.
pub proof fn law_background_never_done(nodes: Seq<CtxNode>, n: int, m: int)
    requires
        wf_nodes(nodes),
        0 <= n < nodes.len(),
        0 <= m < nodes.len(),
        nodes[m].parent is None,
    ensures
        !cancelled(nodes, n)[m].done,
        wf_nodes(cancelled(nodes, n)),
{
    assert(nodes[m].parent is None);
    assert(match nodes[m].parent {
        Some(p) => p < m,
        None => !nodes[m].done,
    });
    lemma_cancelled_wf(nodes, n);
}

proof fn lemma_cancelled_wf(nodes: Seq<CtxNode>, n: int)
    requires
        wf_nodes(nodes),
    ensures
        wf_nodes(cancelled(nodes, n)),
{
    let c = cancelled(nodes, n);
    assert forall|i: int| 0 <= i < c.len() implies match #[trigger] c[i].parent {
        Some(p) => p < i,
        None => !c[i].done,
    } by {
        assert(match nodes[i].parent {
            Some(p) => p < i,
            None => !nodes[i].done,
        });
    }
}

/// Law: a context created from `n` and not cancelled since is cancelled when
/// `n` is cancelled.
pub proof fn law_cancel_reaches_new_child(nodes: Seq<CtxNode>, n: usize)
    requires
        wf_nodes(nodes),
        n < nodes.len(),
    ensures
        ({
            let grown = nodes.push(CtxNode { parent: Some(n), done: false });
            cancelled(grown, n as int)[nodes.len() as int].done
        }),
{
    let grown = nodes.push(CtxNode { parent: Some(n), done: false });
    let m = nodes.len() as int;
    assert(grown[m].parent == Some(n));
    assert(swept(grown, n as int, n as int));
    assert(swept(grown, n as int, m));
}

/// Law: cancelling the same context twice is the same as cancelling it once.
pub proof fn law_cancel_idempotent(nodes: Seq<CtxNode>, n: int)
    requires
        wf_nodes(nodes),
        0 <= n < nodes.len(),
    ensures
        cancelled(cancelled(nodes, n), n) == cancelled(nodes, n),
{
    let once = cancelled(nodes, n);
    assert forall|m: int| 0 <= m < once.len() && m != n implies !swept(once, n, m) by {
        lemma_swept_once_only_self(nodes, n, m);
    }
    assert(cancelled(once, n) =~= once);
}

proof fn lemma_swept_once_only_self(nodes: Seq<CtxNode>, n: int, m: int)
    requires
        wf_nodes(nodes),
        0 <= n < nodes.len(),
        m != n,
    ensures
        !swept(cancelled(nodes, n), n, m),
    decreases m,
{
    let once = cancelled(nodes, n);
    if swept(once, n, m) {
        let p = once[m].parent.unwrap() as int;
        if p == n {
            assert(swept(nodes, n, p));
            assert(nodes[m].parent == once[m].parent);
            assert(swept(nodes, n, m) || nodes[m].done);
            assert(once[m].done);
        } else {
            lemma_swept_once_only_self(nodes, n, p);
        }
    }
}

} // verus!
