use bountyhub_runner::recoil::{Attempts, Error, Next, State};
use std::cell::RefCell;

/// Drives an operation as a retrying client does, without waiting.
fn run<T, E>(max_retries: Option<usize>, mut f: impl FnMut() -> State<T, (), E>) -> Result<T, Error<E>> {
    let mut attempts = Attempts::new(max_retries);
    loop {
        if let Some(e) = attempts.before_attempt() {
            return Err(e);
        }
        match attempts.after_attempt(f()) {
            Next::Finish(r) => return r,
            Next::Wait(()) => {}
        }
    }
}

#[test]
fn test_backoff() {
    let runs = RefCell::new(0);
    let fail = RefCell::new(false);
    let func = || {
        *runs.borrow_mut() += 1;
        if *runs.borrow() == 3 {
            if *fail.borrow() {
                State::Fail("fail".to_string())
            } else {
                State::Done(())
            }
        } else {
            State::Retry(())
        }
    };

    assert_eq!(run(Some(2), func), Ok(()));

    *fail.borrow_mut() = true;
    *runs.borrow_mut() = 0;

    assert_eq!(run(Some(2), func), Err(Error::Custom("fail".to_string())));
}

#[test]
fn test_max_retries() {
    let runs = RefCell::new(0);
    let res: Result<(), Error<String>> = run(Some(2), || {
        *runs.borrow_mut() += 1;
        if *runs.borrow() == 4 {
            State::Done(())
        } else if *runs.borrow() == 5 {
            State::Fail("fail".to_string())
        } else {
            State::Retry(())
        }
    });

    assert_eq!(res, Err(Error::MaxRetriesReached));
    assert_eq!(*runs.borrow(), 3);
}

#[test]
fn unlimited_retries_keep_going() {
    let runs = RefCell::new(0);
    let res: Result<u32, Error<()>> = run(None, || {
        *runs.borrow_mut() += 1;
        if *runs.borrow() == 50 { State::Done(7) } else { State::Retry(()) }
    });
    assert_eq!(res, Ok(7));
}

#[test]
fn budget_counts_retries_only() {
    let mut a = Attempts::new(Some(0));
    assert!(a.before_attempt::<()>().is_none());
    assert!(matches!(a.after_attempt::<(), (), ()>(State::Retry(())), Next::Wait(())));
    assert_eq!(a.retries, 1);
    assert!(matches!(a.before_attempt::<()>(), Some(Error::MaxRetriesReached)));
}
