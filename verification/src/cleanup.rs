//! Taking a directory tree down: what to look at and what to remove, in
//! which order.
//!
//! A [`Deleter`] is a list of work over entries of any type `P`, paths as a
//! rule. The caller looks at each entry it is handed: a file it removes, a
//! directory it lists and hands back with [`Deleter::expand`]. The directory
//! itself comes up again for removal when everything in it has been dealt
//! with.

use crate::tree::Tree;
use vstd::prelude::*;

verus! {

/// One piece of work.
pub enum Task<P> {
    /// Look at this entry: remove it if it is a file; if it is a directory,
    /// list it and expand it.
    Visit(P),
    /// Remove this directory: nothing is left in it.
    RemoveDir(P),
}

/// The visits of `entries`, the first of them last: work is taken from the
/// end, so the first entry is visited first.
pub open spec fn visits<P>(entries: Seq<P>) -> Seq<Task<P>> {
    Seq::new(entries.len(), |i: int| Task::Visit(entries[entries.len() - 1 - i]))
}

/// One removal on disk.
pub enum Removal<P> {
    File(P),
    Dir(P),
}

/// A piece of work, with the tree that stands behind an entry to visit.
pub enum Work<P> {
    Visit(Tree<P>),
    RemoveDir(P),
}

/// The removals that take `tree` down: a file is removed; of a directory
/// first each entry is taken down whole, in the order listed, and then the
/// directory is removed.
pub open spec fn removals<P>(tree: Tree<P>) -> Seq<Removal<P>>
    decreases tree, 0nat,
{
    match tree {
        Tree::File(p) => seq![Removal::File(p)],
        Tree::Dir(p, entries) => removals_from(entries, 0).push(Removal::Dir(p)),
    }
}

/// The removals that take down the entries from the one at `from` on.
pub open spec fn removals_from<P>(entries: Seq<Tree<P>>, from: nat) -> Seq<Removal<P>>
    decreases entries, entries.len() - from,
{
    if from >= entries.len() {
        Seq::empty()
    } else {
        removals(entries[from as int]) + removals_from(entries, from + 1)
    }
}

/// The task that a piece of work is handed out as.
pub open spec fn task_of<P>(work: Work<P>) -> Task<P> {
    match work {
        Work::Visit(tree) => Task::Visit(tree.name()),
        Work::RemoveDir(p) => Task::RemoveDir(p),
    }
}

/// The list of tasks that a list of work is held as.
pub open spec fn tasks_of<P>(work: Seq<Work<P>>) -> Seq<Task<P>> {
    Seq::new(work.len(), |i: int| task_of(work[i]))
}

/// The entries at the top of each of `trees`.
pub open spec fn names<P>(trees: Seq<Tree<P>>) -> Seq<P> {
    Seq::new(trees.len(), |i: int| trees[i].name())
}

/// The visits of `trees`, the first of them last.
pub open spec fn visits_of<P>(trees: Seq<Tree<P>>) -> Seq<Work<P>> {
    Seq::new(trees.len(), |i: int| Work::Visit(trees[trees.len() - 1 - i]))
}

/// The removals that working off `work` makes, from its end.
pub open spec fn pending_removals<P>(work: Seq<Work<P>>) -> Seq<Removal<P>>
    decreases work.len(),
{
    if work.len() == 0 {
        Seq::empty()
    } else {
        (match work.last() {
            Work::Visit(tree) => removals(tree),
            Work::RemoveDir(p) => seq![Removal::Dir(p)],
        }) + pending_removals(work.drop_last())
    }
}

proof fn lemma_pending_of_joined<P>(below: Seq<Work<P>>, above: Seq<Work<P>>)
    ensures
        pending_removals(below + above) == pending_removals(above) + pending_removals(below),
    decreases above.len(),
{
    if above.len() > 0 {
        assert((below + above).drop_last() =~= below + above.drop_last());
        lemma_pending_of_joined(below, above.drop_last());
    }
}

proof fn lemma_pending_of_visits<P>(trees: Seq<Tree<P>>, from: nat)
    requires
        from <= trees.len(),
    ensures
        pending_removals(visits_of(trees.skip(from as int))) == removals_from(trees, from),
    decreases trees.len() - from,
{
    if from < trees.len() {
        assert(visits_of(trees.skip(from as int)).drop_last() =~= visits_of(
            trees.skip(from as int + 1),
        ));
        lemma_pending_of_visits(trees, from + 1);
    }
}

/// Working off the visit of a tree makes the removals that take the tree
/// down.
pub proof fn lemma_visit_takes_down<P>(tree: Tree<P>)
    ensures
        pending_removals(seq![Work::Visit(tree)]) == removals(tree),
{
    let work = seq![Work::Visit(tree)];
    assert(pending_removals(work.drop_last()) =~= Seq::empty());
}

/// Expanding a directory changes nothing in the removals to come: with the
/// directory's own removal put below the visits of its entries, the list
/// stands for the same removals, in the same order, as with the visit of the
/// directory in their place. And the list is held as the tasks that
/// [`Deleter::expand`] leaves.
pub proof fn lemma_expand_keeps_removals<P>(work: Seq<Work<P>>, dir: P, entries: Seq<Tree<P>>)
    ensures
        pending_removals(work.push(Work::RemoveDir(dir)) + visits_of(entries)) == pending_removals(
            work.push(Work::Visit(Tree::Dir(dir, entries))),
        ),
        tasks_of(work.push(Work::RemoveDir(dir)) + visits_of(entries)) == tasks_of(work).push(
            Task::RemoveDir(dir),
        ) + visits(names(entries)),
        tasks_of(work.push(Work::Visit(Tree::Dir(dir, entries)))) == tasks_of(work).push(
            Task::Visit(dir),
        ),
{
    let expanded = work.push(Work::RemoveDir(dir));
    let whole = work.push(Work::Visit(Tree::Dir(dir, entries)));
    lemma_pending_of_joined(expanded, visits_of(entries));
    assert(entries.skip(0) =~= entries);
    lemma_pending_of_visits(entries, 0);
    assert(expanded.drop_last() =~= work);
    assert(whole.drop_last() =~= work);
}

/// A file to visit is removed next, before anything that stands below it.
pub proof fn lemma_file_is_removed_next<P>(work: Seq<Work<P>>, file: P)
    ensures
        pending_removals(work.push(Work::Visit(Tree::File(file)))) == seq![Removal::File(file)]
            + pending_removals(work),
{
    assert(work.push(Work::Visit(Tree::File(file))).drop_last() =~= work);
}

/// A directory to remove is removed next, before anything that stands below
/// it.
pub proof fn lemma_dir_is_removed_next<P>(work: Seq<Work<P>>, dir: P)
    ensures
        pending_removals(work.push(Work::RemoveDir(dir))) == seq![Removal::Dir(dir)]
            + pending_removals(work),
{
    assert(work.push(Work::<P>::RemoveDir(dir)).drop_last() =~= work);
}

/// The work that is left in taking a tree down.
pub struct Deleter<P> {
    stack: Vec<Task<P>>,
}

impl<P> View for Deleter<P> {
    type V = Seq<Task<P>>;

    /// The work that is left; what is done next stands last.
    closed spec fn view(&self) -> Seq<Task<P>> {
        self.stack@
    }
}

impl<P> Deleter<P> {
    /// The work of taking down what `root` names.
    pub fn new(root: P) -> (deleter: Deleter<P>)
        ensures
            deleter@ == seq![Task::Visit(root)],
    {
        let mut stack: Vec<Task<P>> = Vec::new();
        stack.push(Task::Visit(root));
        Deleter { stack }
    }

    /// Whether no work is left.
    pub fn is_done(&self) -> (done: bool)
        ensures
            done == (self@.len() == 0),
    {
        self.stack.len() == 0
    }

    /// Takes the next piece of work off the list; `None` when none is left.
    pub fn next(&mut self) -> (task: Option<Task<P>>)
        ensures
            match task {
                Some(t) => old(self)@.len() > 0 && t == old(self)@.last() && final(self)@ == old(
                    self,
                )@.drop_last(),
                None => old(self)@.len() == 0 && final(self)@ == old(self)@,
            },
    {
        self.stack.pop()
    }

    /// Puts the directory `dir`, which was found to hold `entries`, back on
    /// the list: first a visit of each entry, in the order listed, then the
    /// removal of `dir` itself.
    pub fn expand(&mut self, dir: P, entries: Vec<P>)
        ensures
            final(self)@ == old(self)@.push(Task::RemoveDir(dir)) + visits(entries@),
    {
        let ghost listed = entries@;
        let ghost below = self.stack@.push(Task::RemoveDir(dir));
        let mut entries = entries;
        self.stack.push(Task::RemoveDir(dir));
        while entries.len() > 0
            invariant
                entries@ == listed.take(entries@.len() as int),
                entries@.len() <= listed.len(),
                self.stack@ == below + visits(listed).take(listed.len() - entries@.len()),
            decreases entries@.len(),
        {
            if let Some(entry) = entries.pop() {
                self.stack.push(Task::Visit(entry));
            }
        }
    }
}

} // verus!
