use vstd::prelude::*;

verus! {

/// The entry function that the closure of a thunk holds.
///
/// A thunk starts with its initial entry, which evaluates the body.  While
/// one caller evaluates a synchronized (shared between threads) thunk, the
/// closure holds the locked entry, which yields and then calls whatever entry
/// the closure holds by then.  Once the value is stored, the closure holds the
/// normal entry, which returns the stored value.
#[derive(Clone, Copy, Debug, PartialEq, Eq, Structural)]
pub enum Entry {
    Initial,
    Locked,
    Normal,
}

/// What a caller that ran the initial entry does next.
#[derive(Clone, Copy, Debug, PartialEq, Eq, Structural)]
pub enum InitialStep {
    /// The caller evaluates the body, then stores the value.
    Evaluate,
    /// Another caller got there first: the call goes on to the entry that the
    /// closure holds at this moment.
    Forward(Entry),
}

/// The state of a thunk: the entry its closure holds, the value it stores,
/// whether it is shared between threads, and how many callers are evaluating
/// its body and have not stored the value yet.
pub ghost struct SpecThunk<V> {
    pub entry: Entry,
    pub value: Option<V>,
    pub synchronized: bool,
    pub evaluators: nat,
}

/// A thunk as it is created: with its initial entry and no value.
pub open spec fn fresh<V>(synchronized: bool) -> SpecThunk<V> {
    SpecThunk { entry: Entry::Initial, value: None, synchronized, evaluators: 0 }
}

/// The state of a thunk after a caller runs its initial entry, and what that
/// caller does next.  A synchronized thunk swaps its initial entry for the
/// locked one atomically, so only the caller whose swap succeeds evaluates;
/// the others go on to the entry the closure holds at that moment.
pub open spec fn run_initial<V>(s: SpecThunk<V>) -> (SpecThunk<V>, InitialStep) {
    if !s.synchronized {
        (SpecThunk { evaluators: s.evaluators + 1, ..s }, InitialStep::Evaluate)
    } else if s.entry == Entry::Initial {
        (SpecThunk { entry: Entry::Locked, evaluators: s.evaluators + 1, ..s }, InitialStep::Evaluate)
    } else {
        (s, InitialStep::Forward(s.entry))
    }
}

/// The state of a thunk after a caller that evaluates its body stores
/// `value`: it releases the free variables, stores the value, then gives the
/// closure the normal entry.  A caller that does not evaluate stores nothing.
pub open spec fn run_finish<V>(s: SpecThunk<V>, value: V) -> SpecThunk<V> {
    if s.evaluators == 0 {
        s
    } else {
        SpecThunk { entry: Entry::Normal, value: Some(value), evaluators: (s.evaluators - 1) as nat, ..s }
    }
}

/// The entry to which a caller of the locked entry goes on, after yielding.
pub open spec fn run_locked<V>(s: SpecThunk<V>) -> Entry {
    s.entry
}

/// What the callers of a thunk do, one atomic step at a time.
pub ghost enum Operation<V> {
    /// A caller runs the initial entry.
    RunInitial,
    /// A caller that evaluated the body stores its value.
    Finish(V),
    /// A caller runs the locked entry: it yields, then calls the entry that
    /// the closure holds by then.
    RunLocked,
    /// A caller runs the normal entry and reads the stored value.
    RunNormal,
    /// The last reference to the closure goes away: the drop function that
    /// its metadata names runs.
    DropClosure,
}

pub open spec fn apply<V>(s: SpecThunk<V>, op: Operation<V>) -> SpecThunk<V> {
    match op {
        Operation::RunInitial => run_initial(s).0,
        Operation::Finish(v) => run_finish(s, v),
        _ => s,
    }
}

/// The state after the operations, in order.
pub open spec fn run_all<V>(s: SpecThunk<V>, ops: Seq<Operation<V>>) -> SpecThunk<V>
    decreases ops.len(),
{
    if ops.len() == 0 {
        s
    } else {
        apply(run_all(s, ops.drop_last()), ops.last())
    }
}

/// How many callers evaluate the body during the operations.
pub open spec fn evaluations<V>(s: SpecThunk<V>, ops: Seq<Operation<V>>) -> nat
    decreases ops.len(),
{
    if ops.len() == 0 {
        0
    } else {
        evaluations(s, ops.drop_last()) + if ops.last() is RunInitial && run_initial(
            run_all(s, ops.drop_last()),
        ).1 == InitialStep::Evaluate {
            1nat
        } else {
            0nat
        }
    }
}

/// How many callers store a value during the operations.
pub open spec fn stores<V>(s: SpecThunk<V>, ops: Seq<Operation<V>>) -> nat
    decreases ops.len(),
{
    if ops.len() == 0 {
        0
    } else {
        stores(s, ops.drop_last()) + if ops.last() is Finish && run_all(s, ops.drop_last()).evaluators
            > 0 {
            1nat
        } else {
            0nat
        }
    }
}

/// How many times the free variables are released during the operations:
/// by each caller that stores a value, and by the drop function of a closure
/// that holds no value yet.
pub open spec fn environment_releases<V>(s: SpecThunk<V>, ops: Seq<Operation<V>>) -> nat
    decreases ops.len(),
{
    if ops.len() == 0 {
        0
    } else {
        let before = run_all(s, ops.drop_last());
        environment_releases(s, ops.drop_last()) + if (ops.last() is Finish && before.evaluators > 0)
            || (ops.last() is DropClosure && before.entry != Entry::Normal) {
            1nat
        } else {
            0nat
        }
    }
}

/// How many times the value is released during the operations: by the drop
/// function of a closure that holds the normal entry.
pub open spec fn value_releases<V>(s: SpecThunk<V>, ops: Seq<Operation<V>>) -> nat
    decreases ops.len(),
{
    if ops.len() == 0 {
        0
    } else {
        value_releases(s, ops.drop_last()) + if ops.last() is DropClosure && run_all(
            s,
            ops.drop_last(),
        ).entry == Entry::Normal {
            1nat
        } else {
            0nat
        }
    }
}

/// Whether a thunk with the normal entry has a value stored.
pub open spec fn stored_before_published<V>(s: SpecThunk<V>) -> bool {
    s.entry == Entry::Normal ==> s.value is Some
}

/// A thunk's closure and the value it stores once evaluated.
pub struct Thunk<V> {
    entry: Entry,
    value: Option<V>,
    synchronized: bool,
    evaluators: Ghost<nat>,
}

impl<V> View for Thunk<V> {
    type V = SpecThunk<V>;

    closed spec fn view(&self) -> SpecThunk<V> {
        SpecThunk {
            entry: self.entry,
            value: self.value,
            synchronized: self.synchronized,
            evaluators: self.evaluators@,
        }
    }
}

impl<V> Thunk<V> {
    #[verifier::type_invariant]
    closed spec fn published_values_are_stored(self) -> bool {
        stored_before_published(self@)
    }

    /// A thunk that holds its initial entry and no value.
    pub fn new(synchronized: bool) -> (r: Thunk<V>)
        ensures
            r@ == fresh::<V>(synchronized),
    {
        Thunk { entry: Entry::Initial, value: None, synchronized, evaluators: Ghost(0) }
    }

    /// The entry that the closure holds.
    pub fn entry(&self) -> (r: Entry)
        ensures
            r == self@.entry,
    {
        self.entry
    }

    pub fn is_synchronized(&self) -> (r: bool)
        ensures
            r == self@.synchronized,
    {
        self.synchronized
    }

    /// Runs the initial entry: says whether the caller evaluates the body or
    /// goes on to the entry the closure holds now.
    pub fn run_initial(&mut self) -> (r: InitialStep)
        ensures
            (final(self)@, r) == run_initial(old(self)@),
    {
        proof {
            use_type_invariant(&*self);
        }
        if !self.synchronized {
            self.evaluators = Ghost((self.evaluators@ + 1) as nat);
            InitialStep::Evaluate
        } else if self.entry == Entry::Initial {
            self.entry = Entry::Locked;
            self.evaluators = Ghost((self.evaluators@ + 1) as nat);
            InitialStep::Evaluate
        } else {
            InitialStep::Forward(self.entry)
        }
    }

    /// Stores the value that an evaluating caller computed, then gives the
    /// closure the normal entry.
    pub fn finish(&mut self, value: V)
        requires
            old(self)@.evaluators > 0,
        ensures
            final(self)@ == run_finish(old(self)@, value),
    {
        let mut stored: Option<V> = Some(value);
        std::mem::swap(&mut stored, &mut self.value);
        self.entry = Entry::Normal;
        self.evaluators = Ghost((self.evaluators@ - 1) as nat);
    }

    /// Runs the locked entry: after yielding, the call goes on to the entry
    /// that the closure holds by then.
    pub fn run_locked(&self) -> (r: Entry)
        ensures
            r == run_locked(self@),
    {
        self.entry
    }

    /// Runs the normal entry: the stored value.
    pub fn run_normal(&self) -> (r: &V)
        requires
            self@.entry == Entry::Normal,
        ensures
            self@.value == Some(*r),
    {
        proof {
            use_type_invariant(self);
        }
        match &self.value {
            Some(v) => v,
            None => vstd::pervasive::unreached(),
        }
    }
}

/// Every caller that stores a value is one that evaluated the body: the
/// values stored, plus the evaluations still under way, are the evaluations
/// made (and those under way at the start).
pub proof fn law_only_evaluators_store<V>(s: SpecThunk<V>, ops: Seq<Operation<V>>)
    ensures
        stores(s, ops) + run_all(s, ops).evaluators == evaluations(s, ops) + s.evaluators,
        run_all(s, ops).synchronized == s.synchronized,
    decreases ops.len(),
{
    if ops.len() > 0 {
        law_only_evaluators_store(s, ops.drop_last());
    }
}

/// A caller of a synchronized thunk that loses the swap goes on to the entry
/// that the closure holds at that moment, which is never the initial one.
pub proof fn law_losers_forward_to_the_current_entry<V>(s: SpecThunk<V>)
    requires
        s.synchronized,
        run_initial(s).1 != InitialStep::Evaluate,
    ensures
        run_initial(s).1 == InitialStep::Forward(s.entry),
        s.entry != Entry::Initial,
        run_initial(s).0 == s,
{
}

/// The states that a fresh synchronized thunk goes through: untouched, being
/// evaluated by exactly one caller, or evaluated and stored exactly once.
pub open spec fn synchronized_history<V>(s: SpecThunk<V>, ops: Seq<Operation<V>>) -> bool {
    let t = run_all(s, ops);
    &&& t.synchronized
    &&& stored_before_published(t)
    &&& (t.entry == Entry::Initial && evaluations(s, ops) == 0 && stores(s, ops) == 0 && t.evaluators == 0)
        || (t.entry == Entry::Locked && evaluations(s, ops) == 1 && stores(s, ops) == 0 && t.evaluators
        == 1) || (t.entry == Entry::Normal && evaluations(s, ops) == 1 && stores(s, ops) == 1
        && t.evaluators == 0)
}

proof fn lemma_synchronized_history<V>(ops: Seq<Operation<V>>)
    ensures
        synchronized_history(fresh::<V>(true), ops),
    decreases ops.len(),
{
    if ops.len() > 0 {
        lemma_synchronized_history::<V>(ops.drop_last());
    }
}

/// A fresh synchronized thunk evaluates its body at most once and stores a
/// value at most once, whatever the callers do and in whatever order their
/// steps interleave; it holds the normal entry exactly when the value is
/// stored, and then it holds that value.
pub proof fn law_synchronized_thunk_evaluates_at_most_once<V>(ops: Seq<Operation<V>>)
    ensures
        evaluations(fresh::<V>(true), ops) <= 1,
        stores(fresh::<V>(true), ops) <= evaluations(fresh::<V>(true), ops),
        (run_all(fresh::<V>(true), ops).entry == Entry::Normal) == (stores(fresh::<V>(true), ops) == 1),
        run_all(fresh::<V>(true), ops).entry == Entry::Normal ==> run_all(fresh::<V>(true), ops).value is Some,
{
    lemma_synchronized_history::<V>(ops);
}

/// No operation takes a thunk back to its initial entry, and a synchronized
/// thunk that has left its initial entry lets nobody evaluate.
pub proof fn law_entries_only_advance<V>(s: SpecThunk<V>, ops: Seq<Operation<V>>)
    requires
        s.entry != Entry::Initial,
    ensures
        run_all(s, ops).entry != Entry::Initial,
        s.synchronized ==> evaluations(s, ops) == 0,
    decreases ops.len(),
{
    if ops.len() > 0 {
        law_entries_only_advance(s, ops.drop_last());
        law_only_evaluators_store(s, ops.drop_last());
    }
}

/// A synchronized thunk that holds its normal entry, with nobody evaluating,
/// keeps its value: every later caller of the normal entry reads it.
pub proof fn law_published_value_is_stable<V>(s: SpecThunk<V>, ops: Seq<Operation<V>>)
    requires
        s.synchronized,
        s.entry == Entry::Normal,
        s.evaluators == 0,
    ensures
        run_all(s, ops) == s,
    decreases ops.len(),
{
    if ops.len() > 0 {
        law_published_value_is_stable(s, ops.drop_last());
    }
}

/// Over the life of a synchronized thunk that ends when its last reference
/// goes away, with nobody evaluating, its free variables are released exactly
/// once (by the caller that stored the value, or else by the closure's drop
/// function) and its value is released exactly when it was stored, once.
pub proof fn law_thunk_releases_each_reference_once<V>(ops: Seq<Operation<V>>)
    requires
        forall|i: int| 0 <= i < ops.len() ==> !(#[trigger] ops[i] is DropClosure),
        run_all(fresh::<V>(true), ops).evaluators == 0,
    ensures
        environment_releases(fresh::<V>(true), ops.push(Operation::DropClosure)) == 1,
        value_releases(fresh::<V>(true), ops.push(Operation::DropClosure)) == stores(fresh::<V>(true), ops),
{
    lemma_synchronized_history::<V>(ops);
    lemma_releases_before_drop(fresh::<V>(true), ops);
    assert(ops.push(Operation::DropClosure).drop_last() == ops);
}

proof fn lemma_releases_before_drop<V>(s: SpecThunk<V>, ops: Seq<Operation<V>>)
    requires
        forall|i: int| 0 <= i < ops.len() ==> !(#[trigger] ops[i] is DropClosure),
    ensures
        environment_releases(s, ops) == stores(s, ops),
        value_releases(s, ops) == 0,
    decreases ops.len(),
{
    if ops.len() > 0 {
        let before = ops.drop_last();
        assert forall|i: int| 0 <= i < before.len() implies !(#[trigger] before[i] is DropClosure) by {
            assert(before[i] == ops[i]);
        }
        assert(!(ops[ops.len() - 1] is DropClosure));
        lemma_releases_before_drop(s, before);
    }
}

/// Whether the callers of a thunk take turns: the initial entry runs only
/// while the closure holds it and nobody is evaluating.  This is how the
/// callers of a thunk that is not synchronized (owned by one thread) run,
/// since a call that re-enters the thunk while evaluating it never ends.
pub open spec fn one_caller_at_a_time<V>(s: SpecThunk<V>, ops: Seq<Operation<V>>) -> bool
    decreases ops.len(),
{
    if ops.len() == 0 {
        true
    } else {
        let before = run_all(s, ops.drop_last());
        &&& one_caller_at_a_time(s, ops.drop_last())
        &&& ops.last() is RunInitial ==> before.entry == Entry::Initial && before.evaluators == 0
    }
}

/// The states that a fresh thunk goes through when its callers take turns.
pub open spec fn turn_taking_history<V>(synchronized: bool, ops: Seq<Operation<V>>) -> bool {
    let s = fresh::<V>(synchronized);
    let t = run_all(s, ops);
    &&& t.synchronized == synchronized
    &&& stored_before_published(t)
    &&& (t.entry != Entry::Normal && evaluations(s, ops) == 0 && stores(s, ops) == 0 && t.evaluators == 0)
        || (t.entry != Entry::Normal && evaluations(s, ops) == 1 && stores(s, ops) == 0 && t.evaluators == 1)
        || (t.entry == Entry::Normal && evaluations(s, ops) == 1 && stores(s, ops) == 1 && t.evaluators == 0)
    &&& t.entry == Entry::Normal || t.entry == Entry::Initial || (synchronized && t.entry == Entry::Locked)
    &&& evaluations(s, ops) == 0 ==> t.entry == Entry::Initial
}

proof fn lemma_turn_taking_history<V>(synchronized: bool, ops: Seq<Operation<V>>)
    requires
        one_caller_at_a_time(fresh::<V>(synchronized), ops),
    ensures
        turn_taking_history(synchronized, ops),
    decreases ops.len(),
{
    if ops.len() > 0 {
        lemma_turn_taking_history::<V>(synchronized, ops.drop_last());
    }
}

/// A fresh thunk whose callers take turns, synchronized or not, evaluates its
/// body at most once and stores a value at most once; and over its life, if it
/// ends with nobody evaluating when its last reference goes away, its free
/// variables are released exactly once and its value exactly when it was
/// stored, once.
pub proof fn law_turn_taking_thunk_releases_each_reference_once<V>(synchronized: bool, ops: Seq<Operation<V>>)
    requires
        one_caller_at_a_time(fresh::<V>(synchronized), ops),
        forall|i: int| 0 <= i < ops.len() ==> !(#[trigger] ops[i] is DropClosure),
        run_all(fresh::<V>(synchronized), ops).evaluators == 0,
    ensures
        evaluations(fresh::<V>(synchronized), ops) <= 1,
        stores(fresh::<V>(synchronized), ops) <= 1,
        environment_releases(fresh::<V>(synchronized), ops.push(Operation::DropClosure)) == 1,
        value_releases(fresh::<V>(synchronized), ops.push(Operation::DropClosure)) == stores(
            fresh::<V>(synchronized),
            ops,
        ),
{
    lemma_turn_taking_history::<V>(synchronized, ops);
    lemma_releases_before_drop(fresh::<V>(synchronized), ops);
    assert(ops.push(Operation::DropClosure).drop_last() == ops);
}

} // verus!
