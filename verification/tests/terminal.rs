use zkvm_trace::terminal::{FmtDuration, Guard, Mode, Signal, TerminalHandle, Unset};

#[test]
fn disabled_terminal_sends_nothing() {
    let mut term = TerminalHandle::new(Mode::Disabled);
    assert!(!term.is_enabled());
    let mut ctx = term.context("Proving").num_steps(2);
    assert!(!ctx.is_pending());
    let mut guard = ctx.display_step();
    assert!(matches!(guard.take_opening(), Signal::Idle));
    assert!(!guard.release());
    // nothing is counted on a disabled terminal
    let guard = ctx.display_step();
    assert!(!guard.release());
    let guard = ctx.display_step();
    assert!(!guard.release());
    assert_eq!(ctx.remaining_steps(), 2);
}

#[test]
fn console_decides_in_enabled_mode() {
    assert!(TerminalHandle::with_console(Mode::Enabled, true).is_enabled());
    assert!(!TerminalHandle::with_console(Mode::Enabled, false).is_enabled());
    assert!(!TerminalHandle::with_console(Mode::Disabled, true).is_enabled());
    assert!(!TerminalHandle::with_console(Mode::Disabled, false).is_enabled());
}

#[test]
fn first_step_begins_and_later_steps_advance() {
    let mut term = TerminalHandle::with_console(Mode::Enabled, true);
    let mut ctx = term
        .context("Step")
        .with_loading_bar("Loading")
        .num_steps(3)
        .on_step(|step| format!("{step} of 3"))
        .completion_header("Done")
        .completion_stats(|elapsed: FmtDuration| format!("in {} ms", elapsed.millis));
    assert!(ctx.is_pending());
    assert_eq!(ctx.remaining_steps(), 3);

    let mut guard = ctx.display_step();
    match guard.take_opening() {
        Signal::Begin(action) => {
            assert_eq!(action.step_header, "Step");
            assert_eq!(action.iter_num, 3);
            assert_eq!(action.loading_bar_header, Some("Loading"));
            assert_eq!(action.completion_header, "Done");
            assert_eq!((action.step_trailing)(2), "2 of 3");
            assert_eq!(
                (action.completion_trailing)(FmtDuration { millis: 15 }),
                "in 15 ms"
            );
        }
        _ => panic!("the first step must describe the sequence"),
    }
    // the opening is handed out once
    assert!(matches!(guard.take_opening(), Signal::Idle));
    assert!(guard.release());
    assert!(!ctx.is_pending());
    assert_eq!(ctx.remaining_steps(), 2);

    let mut guard = ctx.display_step();
    assert!(matches!(guard.take_opening(), Signal::Advance));
    assert!(guard.release());

    let mut guard = ctx.display_step();
    assert!(matches!(guard.take_opening(), Signal::Advance));
    let guard = guard.abort();
    assert!(!guard.release());
    assert_eq!(ctx.remaining_steps(), 0);
}

#[test]
fn context_defaults() {
    let mut term = TerminalHandle::with_console(Mode::Enabled, true);
    let mut ctx = term.context("Only");
    assert_eq!(ctx.remaining_steps(), 1);
    let mut guard = ctx.display_step();
    match guard.take_opening() {
        Signal::Begin(action) => {
            assert_eq!(action.step_header, "Only");
            assert_eq!(action.iter_num, 1);
            assert_eq!(action.loading_bar_header, None);
            assert_eq!(action.completion_header, "");
        }
        _ => panic!("the first step must describe the sequence"),
    }
    assert!(guard.release());
    // a new context on the same terminal starts over
    let mut ctx = term.context("Next");
    assert!(ctx.is_pending());
    let mut guard = ctx.display_step();
    assert!(matches!(guard.take_opening(), Signal::Begin(_)));
}

#[test]
fn default_guard_owes_nothing() {
    let mut guard: Guard<'static, Unset, Unset> = Guard::default();
    assert!(matches!(guard.take_opening(), Signal::Idle));
    assert!(!guard.release());
}

#[test]
fn new_in_disabled_mode_ignores_the_console() {
    let term = TerminalHandle::new(Mode::Disabled);
    assert!(!term.is_enabled());
    // whatever the console of the test process is, both calls return
    let _ = TerminalHandle::new(Mode::Enabled);
    let _ = TerminalHandle::new_enabled();
}
