use pen::mir_fmm::thunk::{Entry, InitialStep, Thunk};

#[test]
fn synchronized_thunk_lets_one_caller_evaluate() {
    let mut thunk: Thunk<u64> = Thunk::new(true);
    assert_eq!(thunk.entry(), Entry::Initial);
    assert_eq!(thunk.run_initial(), InitialStep::Evaluate);
    assert_eq!(thunk.entry(), Entry::Locked);
    // A second caller that loaded the initial entry before the swap goes on
    // to the locked entry, which sends it on to the entry held after yielding.
    assert_eq!(thunk.run_initial(), InitialStep::Forward(Entry::Locked));
    assert_eq!(thunk.run_locked(), Entry::Locked);
    thunk.finish(42);
    assert_eq!(thunk.entry(), Entry::Normal);
    assert_eq!(thunk.run_locked(), Entry::Normal);
    assert_eq!(thunk.run_initial(), InitialStep::Forward(Entry::Normal));
    assert_eq!(*thunk.run_normal(), 42);
    assert_eq!(*thunk.run_normal(), 42);
}

#[test]
fn unsynchronized_thunk_evaluates_without_locking() {
    let mut thunk: Thunk<&str> = Thunk::new(false);
    assert!(!thunk.is_synchronized());
    assert_eq!(thunk.run_initial(), InitialStep::Evaluate);
    assert_eq!(thunk.entry(), Entry::Initial);
    thunk.finish("value");
    assert_eq!(thunk.entry(), Entry::Normal);
    assert_eq!(*thunk.run_normal(), "value");
}
