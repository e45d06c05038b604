use vga_console::harness::{test_runner, step, trivial_assertion, Action, HarnessState, Outcome, QemuExitCode};

#[test]
fn exit_codes_are_distinct_and_nonzero() {
    assert_eq!(QemuExitCode::Success.code(), 0x10);
    assert_eq!(QemuExitCode::Failed.code(), 0x11);
}

#[test]
fn empty_run_succeeds_at_once() {
    let (state, action) = test_runner(0);
    assert_eq!(state, HarnessState::Terminated { code: QemuExitCode::Success });
    assert_eq!(action, Action::Exit { code: QemuExitCode::Success });
}

#[test]
fn panic_in_first_of_two_stops_the_run() {
    let (state, action) = test_runner(2);
    assert_eq!(action, Action::Run { index: 0 });
    let (state, action) = step(state, Outcome::Panicked);
    assert_eq!(state, HarnessState::Terminated { code: QemuExitCode::Failed });
    assert_eq!(action, Action::Exit { code: QemuExitCode::Failed });
}

#[test]
fn all_returning_runs_each_in_order_then_succeeds() {
    let (mut state, mut action) = test_runner(3);
    let mut ran = Vec::new();
    while let Action::Run { index } = action {
        ran.push(index);
        let next = step(state, Outcome::Returned);
        state = next.0;
        action = next.1;
    }
    assert_eq!(ran, vec![0, 1, 2]);
    assert_eq!(state, HarnessState::Terminated { code: QemuExitCode::Success });
    assert_eq!(action, Action::Exit { code: QemuExitCode::Success });
}

#[test]
fn trivial_assertion_returns() {
    trivial_assertion();
}
