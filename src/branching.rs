use vstd::prelude::*;

verus! {

/// A branch may fork while it has fewer children than allowed and lies
/// above the deepest level allowed.
pub open spec fn can_branch(child_count: nat, depth: nat, max_children: nat, max_depth: nat) -> bool {
    child_count < max_children && depth < max_depth
}

/// Whether a branch with `child_count` children at `depth` is still
/// eligible to fork under the bounds `max_children` and `max_depth`.
/// Eligibility is only the precondition of the random trial that decides
/// whether it actually forks.
pub fn may_branch(child_count: usize, depth: usize, max_children: usize, max_depth: usize) -> (r:
    bool)
    ensures
        r == can_branch(child_count as nat, depth as nat, max_children as nat, max_depth as nat),
{
    !(child_count >= max_children || depth >= max_depth)
}

/// Forking keeps the tree within its bounds. A branch within its bounds
/// that may fork is still within them with one more child, and the new
/// child, one level deeper, is within the depth bound. A branch that has
/// reached either bound never forks.
pub proof fn lemma_fork_within_bounds(
    child_count: nat,
    depth: nat,
    max_children: nat,
    max_depth: nat,
)
    requires
        child_count <= max_children,
        depth <= max_depth,
    ensures
        can_branch(child_count, depth, max_children, max_depth) ==> child_count + 1 <= max_children
            && depth + 1 <= max_depth,
        child_count >= max_children || depth >= max_depth ==> !can_branch(
            child_count,
            depth,
            max_children,
            max_depth,
        ),
{
}

/// One branch of a growing tree: the numeric growth state `G` that the
/// growth step works on, the branch's depth (0 at the root), the bounds it
/// grows under, and its children in the order they were created. Children
/// are only ever added, and only while the branch may fork, so every branch
/// stays within its bounds at all times.
#[derive(Debug)]
pub struct Node<G> {
    growth: G,
    depth: usize,
    max_children: usize,
    max_depth: usize,
    children: Vec<Node<G>>,
}

impl<G> Node<G> {
    /// The branch has no more children than allowed and lies no deeper
    /// than allowed. Every constructor establishes it and every method
    /// keeps it, for this branch and for each child it creates.
    pub open spec fn wf(&self) -> bool {
        self.spec_children().len() <= self.spec_max_children() && self.spec_depth()
            <= self.spec_max_depth()
    }

    pub closed spec fn spec_growth(&self) -> G {
        self.growth
    }

    pub closed spec fn spec_depth(&self) -> nat {
        self.depth as nat
    }

    pub closed spec fn spec_max_children(&self) -> nat {
        self.max_children as nat
    }

    pub closed spec fn spec_max_depth(&self) -> nat {
        self.max_depth as nat
    }

    pub closed spec fn spec_children(&self) -> Seq<Node<G>> {
        self.children@
    }

    /// A root branch at depth 0, with no children.
    pub fn root(growth: G, max_children: usize, max_depth: usize) -> (n: Self)
        ensures
            n.spec_growth() == growth,
            n.spec_depth() == 0,
            n.spec_max_children() == max_children,
            n.spec_max_depth() == max_depth,
            n.spec_children() == Seq::<Node<G>>::empty(),
            n.wf(),
    {
        Node { growth, depth: 0, max_children, max_depth, children: Vec::new() }
    }

    pub fn growth(&self) -> (g: &G)
        ensures
            *g == self.spec_growth(),
    {
        &self.growth
    }

    pub fn depth(&self) -> (d: usize)
        ensures
            d == self.spec_depth(),
    {
        self.depth
    }

    pub fn max_children(&self) -> (m: usize)
        ensures
            m == self.spec_max_children(),
    {
        self.max_children
    }

    pub fn max_depth(&self) -> (m: usize)
        ensures
            m == self.spec_max_depth(),
    {
        self.max_depth
    }

    /// The children in order of creation.
    pub fn children(&self) -> (c: &Vec<Node<G>>)
        ensures
            c@ == self.spec_children(),
    {
        &self.children
    }

    /// Mutable access to the growth state; the shape is left as it was.
    pub fn growth_mut(&mut self) -> (g: &mut G)
        ensures
            *g == old(self).spec_growth(),
            final(self).spec_growth() == *final(g),
            final(self).spec_depth() == old(self).spec_depth(),
            final(self).spec_max_children() == old(self).spec_max_children(),
            final(self).spec_max_depth() == old(self).spec_max_depth(),
            final(self).spec_children() == old(self).spec_children(),
            old(self).wf() ==> final(self).wf(),
    {
        &mut self.growth
    }

    /// Mutable access to the `i`-th child; the other children and this
    /// branch's own fields are left as they were.
    pub fn child_mut(&mut self, i: usize) -> (c: &mut Node<G>)
        requires
            i < old(self).spec_children().len(),
        ensures
            *c == old(self).spec_children()[i as int],
            final(self).spec_children() == old(self).spec_children().update(i as int, *final(c)),
            final(self).spec_growth() == old(self).spec_growth(),
            final(self).spec_depth() == old(self).spec_depth(),
            final(self).spec_max_children() == old(self).spec_max_children(),
            final(self).spec_max_depth() == old(self).spec_max_depth(),
            old(self).wf() ==> final(self).wf(),
    {
        &mut self.children[i]
    }

    /// Whether this branch is still eligible to fork.
    pub fn may_branch(&self) -> (r: bool)
        ensures
            r == can_branch(
                self.spec_children().len(),
                self.spec_depth(),
                self.spec_max_children(),
                self.spec_max_depth(),
            ),
    {
        may_branch(self.children.len(), self.depth, self.max_children, self.max_depth)
    }

    /// Appends a new child with the given growth state, one level deeper
    /// and under the same bounds. Only a branch that may fork gains one.
    pub fn spawn(&mut self, growth: G)
        requires
            old(self).wf(),
            can_branch(
                old(self).spec_children().len(),
                old(self).spec_depth(),
                old(self).spec_max_children(),
                old(self).spec_max_depth(),
            ),
        ensures
            final(self).spec_growth() == old(self).spec_growth(),
            final(self).spec_depth() == old(self).spec_depth(),
            final(self).spec_max_children() == old(self).spec_max_children(),
            final(self).spec_max_depth() == old(self).spec_max_depth(),
            final(self).spec_children().len() == old(self).spec_children().len() + 1,
            final(self).spec_children().drop_last() == old(self).spec_children(),
            final(self).spec_children().last().spec_growth() == growth,
            final(self).spec_children().last().spec_depth() == old(self).spec_depth() + 1,
            final(self).spec_children().last().spec_max_children() == old(self).spec_max_children(),
            final(self).spec_children().last().spec_max_depth() == old(self).spec_max_depth(),
            final(self).spec_children().last().spec_children() == Seq::<Node<G>>::empty(),
            final(self).wf(),
            final(self).spec_children().last().wf(),
    {
        let child = Node {
            growth,
            depth: self.depth + 1,
            max_children: self.max_children,
            max_depth: self.max_depth,
            children: Vec::new(),
        };
        self.children.push(child);
        proof {
            assert(self.children@.drop_last() =~= old(self).children@);
        }
    }
}

} // verus!
