//! Stages and the ordered schedule that runs them once per update.
use vstd::prelude::*;

verus! {

/// One step of a [`Schedule`]. Implementors keep whatever state they need between updates.
pub trait Stage<C>: Sized {
    /// What one run of the stage may do: starting as `before` on the context `context_before`,
    /// it ends as `after`, having left the context as `context_after`. Each implementor says
    /// what its runs do; one that does not promises nothing of them.
    open spec fn ran(before: Self, context_before: C, after: Self, context_after: C) -> bool {
        true
    }

    /// Runs the stage; this happens once per update.
    /// Implementors must initialize all of their state before running the first time.
    fn run(&mut self, context: &mut C)
        ensures
            Self::ran(*old(self), *old(context), *final(self), *final(context)),
    ;
}

/// The stages `before` ran one after the other, each on the context the previous one left:
/// `contexts` holds the context before each run and, last, the context after all of them, and
/// `after` holds the stages as their runs left them.
pub open spec fn ran_in_order<C, S: Stage<C>>(
    before: Seq<S>,
    after: Seq<S>,
    contexts: Seq<C>,
) -> bool {
    &&& after.len() == before.len()
    &&& contexts.len() == before.len() + 1
    &&& forall|i: int|
        0 <= i < before.len() ==> #[trigger] S::ran(before[i], contexts[i], after[i], contexts[i + 1])
}

/// A stage that does nothing.
pub struct NopStage;

impl<C> Stage<C> for NopStage {
    /// Running changes neither the stage nor the context.
    open spec fn ran(before: Self, context_before: C, after: Self, context_after: C) -> bool {
        after == before && context_after == context_before
    }

    fn run(&mut self, _context: &mut C) {
    }
}

/// A fixed number of stages of one type that run one after the other.
pub struct MultiStage<const I: usize, S> {
    stages: [S; I],
}

impl<const I: usize, S> MultiStage<I, S> {
    /// The stages, in the order in which they run.
    pub closed spec fn stages(&self) -> Seq<S> {
        self.stages@
    }

    pub fn new(stages: [S; I]) -> (r: Self)
        ensures
            r.stages() == stages@,
    {
        Self { stages }
    }
}

impl<const I: usize, C, S: Stage<C>> Stage<C> for MultiStage<I, S> {
    /// Running runs each stage once, in order, each on the context the previous one left.
    open spec fn ran(before: Self, context_before: C, after: Self, context_after: C) -> bool {
        exists|contexts: Seq<C>|
            {
                &&& ran_in_order(before.stages(), after.stages(), contexts)
                &&& contexts[0] == context_before
                &&& contexts.last() == context_after
            }
    }

    fn run(&mut self, context: &mut C) {
        let ghost start = self.stages@;
        let ghost mut contexts: Seq<C> = seq![*context];
        let mut i: usize = 0;
        while i < I
            invariant
                self.stages@.len() == I,
                start.len() == I,
                i <= I,
                contexts.len() == i + 1,
                contexts[0] == *old(context),
                contexts.last() == *context,
                forall|k: int| i <= k < I ==> self.stages@[k] == start[k],
                forall|k: int|
                    0 <= k < i ==> #[trigger] S::ran(start[k], contexts[k], self.stages@[k], contexts[k + 1]),
            decreases I - i,
        {
            let ghost before = self.stages@;
            let ghost context_before = *context;
            self.stages[i].run(context);
            proof {
                contexts = contexts.push(*context);
                assert(S::ran(before[i as int], context_before, self.stages@[i as int], *context));
                assert forall|k: int| 0 <= k < i + 1 implies #[trigger] S::ran(
                    start[k],
                    contexts[k],
                    self.stages@[k],
                    contexts[k + 1],
                ) by {
                    if k < i {
                        assert(self.stages@[k] == before[k]);
                    }
                }
            }
            i = i + 1;
        }
        proof {
            assert(ran_in_order(start, self.stages@, contexts));
        }
    }
}

/// A container of stages set to be run in a linear order.
///
/// Each stage is stored under a label; no label occurs twice. The stages run in the
/// order in which the entries are stored. A schedule is itself a stage, so schedules can be
/// nested.
pub struct Schedule<S> {
    stages: Vec<(String, S)>,
}

/// The labels of the given entries, in order.
pub open spec fn labels_of<S>(entries: Seq<(String, S)>) -> Seq<Seq<char>> {
    entries.map_values(|e: (String, S)| e.0@)
}

/// The stages of the given entries, in order.
pub open spec fn stages_of<S>(entries: Seq<(String, S)>) -> Seq<S> {
    entries.map_values(|e: (String, S)| e.1)
}

/// No label occurs twice among the entries.
pub open spec fn labels_unique<S>(entries: Seq<(String, S)>) -> bool {
    forall|i: int, j: int|
        0 <= i < entries.len() && 0 <= j < entries.len() && i != j ==> #[trigger] entries[i].0@
            != #[trigger] entries[j].0@
}

/// The position of the entry stored under `label`, if there is one.
pub open spec fn index_of<S>(entries: Seq<(String, S)>, label: Seq<char>) -> int {
    choose|i: int| 0 <= i < entries.len() && entries[i].0@ == label
}

/// Some entry is stored under `label`.
pub open spec fn has_label<S>(entries: Seq<(String, S)>, label: Seq<char>) -> bool {
    exists|i: int| 0 <= i < entries.len() && entries[i].0@ == label
}

impl<S> Schedule<S> {
    /// The entries (label and stage), in execution order.
    pub closed spec fn entries(&self) -> Seq<(String, S)> {
        self.stages@
    }

    /// The labels, in execution order.
    pub open spec fn labels(&self) -> Seq<Seq<char>> {
        labels_of(self.entries())
    }

    /// Well-formedness: no label occurs twice.
    pub open spec fn wf(&self) -> bool {
        labels_unique(self.entries())
    }

    /// Some stage is stored under `label`.
    pub open spec fn contains(&self, label: Seq<char>) -> bool {
        has_label(self.entries(), label)
    }

    /// The position of the stage stored under `label`.
    pub open spec fn position(&self, label: Seq<char>) -> int {
        index_of(self.entries(), label)
    }

    /// Creates an empty schedule.
    pub fn new() -> (r: Self)
        ensures
            r.wf(),
            r.entries() == Seq::<(String, S)>::empty(),
    {
        Schedule { stages: Vec::new() }
    }

    /// Finds the position of `label`.
    fn find(&self, label: &String) -> (r: Option<usize>)
        requires
            self.wf(),
        ensures
            r is None <==> !self.contains(label@),
            r matches Some(i) ==> i < self.entries().len() && self.entries()[i as int].0@ == label@
                && i == self.position(label@),
    {
        let mut i: usize = 0;
        while i < self.stages.len()
            invariant
                i <= self.stages@.len(),
                labels_unique(self.stages@),
                forall|k: int| 0 <= k < i ==> self.stages@[k].0@ != label@,
            decreases self.stages@.len() - i,
        {
            if self.stages[i].0 == *label {
                proof {
                    let p = index_of(self.stages@, label@);
                    assert(0 <= i < self.stages@.len() && self.stages@[i as int].0@ == label@);
                    assert(0 <= p < self.stages@.len() && self.stages@[p].0@ == label@);
                    assert(p == i);
                }
                return Some(i);
            }
            i = i + 1;
        }
        None
    }

    /// Adds the given `stage` at the last position of the schedule.
    ///
    /// No stage may already hold that label.
    pub fn add_stage(&mut self, label: &str, stage: S) -> (r: &mut Self)
        requires
            old(self).wf(),
            !old(self).contains(label@),
        ensures
            r.wf(),
            r.entries().len() == old(self).entries().len() + 1,
            r.labels() == old(self).labels().push(label@),
            r.entries().drop_last() == old(self).entries(),
            r.entries().last().1 == stage,
            *final(self) == *final(r),
    {
        let label = label.to_owned();
        let ghost label_view = label@;
        self.stages.push((label, stage));
        proof {
            assert(labels_of(self.stages@) =~= labels_of(old(self).stages@).push(label_view));
            assert(self.stages@.drop_last() =~= old(self).stages@);
        }
        self
    }

    /// Removes the stage stored under `label`.
    ///
    /// A stage with that label must exist.
    pub fn remove_stage(&mut self, label: &str) -> (r: &mut Self)
        requires
            old(self).wf(),
            old(self).contains(label@),
        ensures
            r.wf(),
            r.entries() == old(self).entries().remove(old(self).position(label@)),
            !r.contains(label@),
            *final(self) == *final(r),
    {
        let label = label.to_owned();
        let found = self.find(&label);
        let i = found.unwrap();
        let _removed = self.stages.remove(i);
        proof {
            let old_e = old(self).stages@;
            let new_e = self.stages@;
            assert(new_e =~= old_e.remove(i as int));
            assert forall|a: int, b: int|
                0 <= a < new_e.len() && 0 <= b < new_e.len() && a != b implies #[trigger] new_e[a].0@
                != #[trigger] new_e[b].0@ by {
                let a0 = if a < i { a } else { a + 1 };
                let b0 = if b < i { b } else { b + 1 };
                assert(new_e[a] == old_e[a0]);
                assert(new_e[b] == old_e[b0]);
            }
            assert forall|k: int| 0 <= k < new_e.len() implies new_e[k].0@ != label@ by {
                let k0 = if k < i { k } else { k + 1 };
                assert(new_e[k] == old_e[k0]);
            }
        }
        self
    }

    /// Adds the given `stage` immediately after the `target` stage.
    ///
    /// The `target` stage must exist, and no stage may already hold `label`.
    pub fn add_stage_after(&mut self, target: &str, label: &str, stage: S) -> (r: &mut Self)
        requires
            old(self).wf(),
            old(self).contains(target@),
            !old(self).contains(label@),
        ensures
            r.wf(),
            r.entries().len() == old(self).entries().len() + 1,
            r.entries() == old(self).entries().insert(
                old(self).position(target@) + 1,
                r.entries()[old(self).position(target@) + 1],
            ),
            r.entries()[old(self).position(target@) + 1].0@ == label@,
            r.entries()[old(self).position(target@) + 1].1 == stage,
            r.position(label@) == r.position(target@) + 1,
            *final(self) == *final(r),
    {
        let target = target.to_owned();
        let label = label.to_owned();
        let found = self.find(&target);
        let t = found.unwrap();
        let _n = self.stages.len();
        self.insert_at(t + 1, label, stage);
        proof {
            self.lemma_position_at(target@, t as int);
            self.lemma_position_at(label@, t + 1);
        }
        self
    }

    /// Adds the given `stage` immediately before the `target` stage.
    ///
    /// The `target` stage must exist, and no stage may already hold `label`.
    pub fn add_stage_before(&mut self, target: &str, label: &str, stage: S) -> (r: &mut Self)
        requires
            old(self).wf(),
            old(self).contains(target@),
            !old(self).contains(label@),
        ensures
            r.wf(),
            r.entries().len() == old(self).entries().len() + 1,
            r.entries() == old(self).entries().insert(
                old(self).position(target@),
                r.entries()[old(self).position(target@)],
            ),
            r.entries()[old(self).position(target@)].0@ == label@,
            r.entries()[old(self).position(target@)].1 == stage,
            r.position(label@) + 1 == r.position(target@),
            *final(self) == *final(r),
    {
        let target = target.to_owned();
        let label = label.to_owned();
        let found = self.find(&target);
        let t = found.unwrap();
        self.insert_at(t, label, stage);
        proof {
            self.lemma_position_at(target@, t + 1);
            self.lemma_position_at(label@, t as int);
        }
        self
    }

    /// Inserts an entry under a fresh label at position `i`.
    fn insert_at(&mut self, i: usize, label: String, stage: S)
        requires
            old(self).wf(),
            !old(self).contains(label@),
            i <= old(self).entries().len(),
        ensures
            final(self).wf(),
            final(self).entries() == old(self).entries().insert(i as int, (label, stage)),
    {
        let ghost lv = label@;
        self.stages.insert(i, (label, stage));
        proof {
            let old_e = old(self).stages@;
            let new_e = self.stages@;
            assert forall|a: int, b: int|
                0 <= a < new_e.len() && 0 <= b < new_e.len() && a != b implies #[trigger] new_e[a].0@
                != #[trigger] new_e[b].0@ by {
                if a != i && b != i {
                    let a0 = if a < i { a } else { a - 1 };
                    let b0 = if b < i { b } else { b - 1 };
                    assert(new_e[a] == old_e[a0]);
                    assert(new_e[b] == old_e[b0]);
                } else if a == i {
                    let b0 = if b < i { b } else { b - 1 };
                    assert(new_e[b] == old_e[b0]);
                    assert(new_e[a].0@ == lv);
                } else {
                    let a0 = if a < i { a } else { a - 1 };
                    assert(new_e[a] == old_e[a0]);
                    assert(new_e[b].0@ == lv);
                }
            }
        }
    }

    /// In a well-formed schedule the position of a label is the index at which it is stored.
    proof fn lemma_position_at(&self, label: Seq<char>, i: int)
        requires
            self.wf(),
            0 <= i < self.entries().len(),
            self.entries()[i].0@ == label,
        ensures
            self.position(label) == i,
            self.contains(label),
    {
        let p = index_of(self.entries(), label);
        assert(0 <= p < self.entries().len() && self.entries()[p].0@ == label);
    }

    /// Returns a shared reference to the stage identified by `label`, if it exists.
    pub fn get_stage(&self, label: &str) -> (r: Option<&S>)
        requires
            self.wf(),
        ensures
            r is Some <==> self.contains(label@),
            r matches Some(s) ==> *s == self.entries()[self.position(label@)].1,
    {
        let label = label.to_owned();
        match self.find(&label) {
            Some(i) => Some(&self.stages[i].1),
            None => None,
        }
    }

    /// Returns a unique, mutable reference to the stage identified by `label`, if it exists.
    pub fn get_stage_mut(&mut self, label: &str) -> (r: Option<&mut S>)
        requires
            old(self).wf(),
        ensures
            r is Some <==> old(self).contains(label@),
            r matches Some(s) ==> {
                let i = old(self).position(label@);
                &&& *s == old(self).entries()[i].1
                &&& final(self).entries() == old(self).entries().update(
                    i,
                    (old(self).entries()[i].0, *final(s)),
                )
            },
            r is None ==> *final(self) == *old(self),
    {
        let label = label.to_owned();
        match self.find(&label) {
            Some(i) => {
                let entry = &mut self.stages[i];
                Some(&mut entry.1)
            },
            None => None,
        }
    }

    /// Iterates over all of schedule's stages and their labels, in execution order.
    pub fn iter_stages(&self) -> (r: &[(String, S)])
        ensures
            r@ == self.entries(),
    {
        self.stages.as_slice()
    }

    /// Executes each stage contained in the schedule, one at a time, in order: each stage runs
    /// once, on the context that the previous one left.
    pub fn run_once<C>(&mut self, context: &mut C)
        where S: Stage<C>,
        ensures
            final(self).wf() == old(self).wf(),
            final(self).labels() == old(self).labels(),
            exists|contexts: Seq<C>|
                {
                    &&& ran_in_order(
                        stages_of(old(self).entries()),
                        stages_of(final(self).entries()),
                        contexts,
                    )
                    &&& contexts[0] == *old(context)
                    &&& contexts.last() == *final(context)
                },
    {
        let mut i: usize = 0;
        let ghost start = self.stages@;
        let ghost mut contexts: Seq<C> = seq![*context];
        while i < self.stages.len()
            invariant
                i <= self.stages@.len(),
                start.len() == self.stages@.len(),
                forall|k: int| 0 <= k < start.len() ==> #[trigger] self.stages@[k].0 == start[k].0,
                contexts.len() == i + 1,
                contexts[0] == *old(context),
                contexts.last() == *context,
                forall|k: int| i <= k < start.len() ==> self.stages@[k] == start[k],
                forall|k: int|
                    0 <= k < i ==> #[trigger] S::ran(
                        start[k].1,
                        contexts[k],
                        self.stages@[k].1,
                        contexts[k + 1],
                    ),
            decreases self.stages@.len() - i,
        {
            let ghost before = self.stages@;
            let ghost context_before = *context;
            let entry = &mut self.stages[i];
            entry.1.run(context);
            proof {
                contexts = contexts.push(*context);
                assert(S::ran(before[i as int].1, context_before, self.stages@[i as int].1, *context));
                assert forall|k: int| 0 <= k < i + 1 implies #[trigger] S::ran(
                    start[k].1,
                    contexts[k],
                    self.stages@[k].1,
                    contexts[k + 1],
                ) by {
                    if k < i {
                        assert(self.stages@[k] == before[k]);
                    }
                }
                assert(self.stages@ =~= before.update(i as int, (before[i as int].0, self.stages@[i as int].1)));
                assert forall|k: int| 0 <= k < start.len() implies #[trigger] self.stages@[k].0
                    == start[k].0 by {
                    assert(self.stages@[k].0 == before[k].0);
                }
            }
            i = i + 1;
        }
        proof {
            let fin = self.stages@;
            assert(labels_of(fin) =~= labels_of(start)) by {
                assert forall|k: int| 0 <= k < start.len() implies labels_of(fin)[k] == labels_of(
                    start,
                )[k] by {
                    assert(fin[k].0 == start[k].0);
                }
            }
            if labels_unique(start) {
                assert forall|a: int, b: int|
                    0 <= a < fin.len() && 0 <= b < fin.len() && a != b implies #[trigger] fin[a].0@
                    != #[trigger] fin[b].0@ by {
                    assert(fin[a].0 == start[a].0);
                    assert(fin[b].0 == start[b].0);
                }
            }
            if labels_unique(fin) {
                assert forall|a: int, b: int|
                    0 <= a < start.len() && 0 <= b < start.len() && a != b implies #[trigger] start[a].0@
                    != #[trigger] start[b].0@ by {
                    assert(fin[a].0 == start[a].0);
                    assert(fin[b].0 == start[b].0);
                }
            }
            assert(stages_of(start) =~= start.map_values(|e: (String, S)| e.1));
            assert(ran_in_order(stages_of(start), stages_of(self.stages@), contexts));
        }
    }
}

impl<C, S: Stage<C>> Stage<C> for Schedule<S> {
    /// Running a schedule runs each of its stages once, in order, each on the context the
    /// previous one left; the labels stay as they were.
    open spec fn ran(before: Self, context_before: C, after: Self, context_after: C) -> bool {
        &&& after.labels() == before.labels()
        &&& after.wf() == before.wf()
        &&& exists|contexts: Seq<C>|
            {
                &&& ran_in_order(stages_of(before.entries()), stages_of(after.entries()), contexts)
                &&& contexts[0] == context_before
                &&& contexts.last() == context_after
            }
    }

    fn run(&mut self, context: &mut C) {
        self.run_once(context);
    }
}

/// Adding a stage under a fresh label and then looking the label up finds that stage, while
/// every other label is found as before with the same stage.
pub proof fn law_lookup_after_add<S>(
    before: Schedule<S>,
    after: Schedule<S>,
    label: Seq<char>,
    stage: S,
    other: Seq<char>,
)
    requires
        before.wf(),
        !before.contains(label),
        after.wf(),
        after.labels() == before.labels().push(label),
        after.entries().drop_last() == before.entries(),
        after.entries().last().1 == stage,
    ensures
        after.contains(label),
        after.entries()[after.position(label)].1 == stage,
        other != label ==> (after.contains(other) <==> before.contains(other)),
        other != label && before.contains(other) ==> after.entries()[after.position(other)].1
            == before.entries()[before.position(other)].1,
{
    let n = before.entries().len();
    assert(after.labels().len() == after.entries().len());
    assert(before.labels().len() == n);
    assert(after.entries().len() == n + 1);
    assert(after.labels()[n as int] == label);
    assert(after.entries()[n as int].0@ == label);
    after.lemma_position_at(label, n as int);
    if other != label {
        if before.contains(other) {
            let i = before.position(other);
            assert(before.entries()[i] == after.entries().drop_last()[i]);
            after.lemma_position_at(other, i);
        }
        if after.contains(other) {
            let j = choose|j: int| 0 <= j < after.entries().len() && after.entries()[j].0@ == other;
            assert(j != n);
            assert(after.entries()[j] == before.entries()[j]);
        }
    }
}

/// Removing a stage right after adding it under a fresh label gives back the schedule as it was.
pub proof fn law_remove_undoes_add<S>(
    before: Schedule<S>,
    added: Schedule<S>,
    after: Schedule<S>,
    label: Seq<char>,
    stage: S,
)
    requires
        before.wf(),
        !before.contains(label),
        added.wf(),
        added.labels() == before.labels().push(label),
        added.entries().drop_last() == before.entries(),
        added.entries().last().1 == stage,
        after.entries() == added.entries().remove(added.position(label)),
    ensures
        after.entries() == before.entries(),
{
    let n = before.entries().len();
    assert(added.labels().len() == added.entries().len());
    assert(before.labels().len() == n);
    assert(added.labels()[n as int] == label);
    added.lemma_position_at(label, n as int);
    assert(after.entries() =~= before.entries());
}

/// Adding a stage after (before) a target puts it directly behind (in front of) the target and
/// keeps every other stage in its order.
pub proof fn law_insert_keeps_order<S>(
    before: Schedule<S>,
    after: Schedule<S>,
    target: Seq<char>,
    label: Seq<char>,
    stage: S,
    behind: bool,
)
    requires
        before.wf(),
        before.contains(target),
        !before.contains(label),
        after.wf(),
        after.entries() == before.entries().insert(
            if behind { before.position(target) + 1 } else { before.position(target) },
            after.entries()[if behind { before.position(target) + 1 } else { before.position(target) }],
        ),
        after.entries()[if behind { before.position(target) + 1 } else { before.position(target) }].0@
            == label,
    ensures
        behind ==> after.position(label) == after.position(target) + 1,
        !behind ==> after.position(label) + 1 == after.position(target),
        after.entries().remove(after.position(label)) == before.entries(),
{
    let t = before.position(target);
    let i = if behind { t + 1 } else { t };
    let t2 = if behind { t } else { t + 1 };
    assert(after.entries()[t2] == before.entries()[t]);
    after.lemma_position_at(target, t2);
    after.lemma_position_at(label, i);
    assert(after.entries().remove(i) =~= before.entries());
}

impl<S> Default for Schedule<S> {
    fn default() -> (r: Self)
        ensures
            r.wf(),
            r.entries() == Seq::<(String, S)>::empty(),
    {
        Schedule::new()
    }
}

} // verus!
