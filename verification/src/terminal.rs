//! Progress reporting for long-running proving jobs.
//!
//! The types here decide *what* the renderer is told and *when*; they hold no
//! channel, thread or console.  A driver owns those resources and performs the
//! [`Signal`]s that the guards hand out.

use vstd::prelude::*;

verus! {

/// Terminal output mode.
#[derive(Debug, Copy, Clone)]
pub enum Mode {
    /// Default mode with enabled terminal rendering.
    Enabled,
    /// No output mode.
    Disabled,
}

/// Stands in a formatter slot of an [`Action`] for which no formatter was installed.
#[derive(Debug, Copy, Clone)]
pub struct Unset;

/// Elapsed wall-clock time handed to a completion formatter.
#[derive(Debug, Copy, Clone)]
pub struct FmtDuration {
    pub millis: u64,
}

/// Everything the renderer needs to draw one sequence of steps.
pub struct Action<S, C> {
    /// Text printed in front of every step.
    pub step_header: &'static str,
    /// Number of steps in the sequence.
    pub iter_num: usize,
    /// Produces the text printed after the header of the step with the given number.
    pub step_trailing: S,
    /// When present, a loading bar with this header is drawn for the sequence.
    pub loading_bar_header: Option<&'static str>,
    /// Text printed once the sequence is complete.
    pub completion_header: &'static str,
    /// Produces the text printed after the completion header.
    pub completion_trailing: C,
}

/// A message owed to the renderer.
pub enum Signal<S, C> {
    /// Nothing is to be sent.
    Idle,
    /// A new sequence starts: the renderer receives its description.
    Begin(Action<S, C>),
    /// The running sequence moves on by one tick.
    Advance,
}

/// State kept by an enabled terminal.
pub struct TerminalHandleInner {}

impl TerminalHandleInner {
    pub fn new() -> (inner: Self)
        ensures
            inner == (TerminalHandleInner {  }),
    {
        TerminalHandleInner {  }
    }
}

impl Default for TerminalHandleInner {
    fn default() -> (inner: Self)
        ensures
            inner == (TerminalHandleInner {  }),
    {
        Self::new()
    }
}

/// SuperConsole::compatible of the superconsole crate: whether the process's
/// standard error stream is a terminal that can be redrawn.  The answer depends
/// on the environment of the process, so nothing is claimed about it.
#[verifier::external_body]
fn console_compatible() -> (compatible: bool) {
    superconsole::SuperConsole::compatible()
}

/// Entry point of progress reporting; at most one [`TerminalContext`] borrows it at a time.
pub struct TerminalHandle(Option<TerminalHandleInner>);

impl TerminalHandle {
    /// Whether anything is rendered at all.
    pub closed spec fn enabled(&self) -> bool {
        self.0 is Some
    }

    /// A handle for `mode`, given whether the console can be redrawn.
    pub fn with_console(mode: Mode, compatible: bool) -> (term: Self)
        ensures
            term.enabled() == (mode is Enabled && compatible),
    {
        match mode {
            Mode::Enabled => {
                if compatible {
                    TerminalHandle(Some(TerminalHandleInner::new()))
                } else {
                    TerminalHandle(None)
                }
            },
            Mode::Disabled => TerminalHandle(None),
        }
    }

    /// A handle for `mode`. In [`Mode::Enabled`] rendering still stays off
    /// when the console of this process cannot be redrawn.
    pub fn new(mode: Mode) -> (term: Self)
        ensures
            mode is Disabled ==> !term.enabled(),
    {
        match mode {
            Mode::Enabled => Self::new_enabled(),
            Mode::Disabled => TerminalHandle(None),
        }
    }

    /// A handle that renders if the console of this process can be redrawn.
    pub fn new_enabled() -> (term: Self) {
        let compatible = console_compatible();
        Self::with_console(Mode::Enabled, compatible)
    }

    pub fn is_enabled(&self) -> (enabled: bool)
        ensures
            enabled == self.enabled(),
    {
        self.0.is_some()
    }

    /// Opens a sequence of steps, each printed behind `step_header`. The
    /// sequence has one step until [`TerminalContext::num_steps`] says otherwise.
    pub fn context(&mut self, step_header: &'static str) -> (ctx: TerminalContext<'_, Unset, Unset>)
        ensures
            *final(self) == *old(self),
            ctx.terminal() == *old(self),
            ctx.steps_left() == 1,
            ctx.action() == if old(self).enabled() {
                Some(
                    Action {
                        step_header,
                        iter_num: 1,
                        step_trailing: Unset,
                        loading_bar_header: None,
                        completion_header: "",
                        completion_trailing: Unset,
                    },
                )
            } else {
                None
            },
            ctx.wf(),
    {
        let action = if self.0.is_some() {
            Some(
                Action {
                    step_header,
                    iter_num: 1,
                    step_trailing: Unset,
                    loading_bar_header: None,
                    completion_header: "",
                    completion_trailing: Unset,
                },
            )
        } else {
            None
        };
        TerminalContext { term: &*self, action, steps_left: 1 }
    }
}

/// One sequence of steps under construction or in progress.
pub struct TerminalContext<'a, S, C> {
    term: &'a TerminalHandle,
    action: Option<Action<S, C>>,
    steps_left: usize,
}

impl<'a, S, C> TerminalContext<'a, S, C> {
    /// The terminal this sequence is shown on.
    pub closed spec fn terminal(&self) -> TerminalHandle {
        *self.term
    }

    /// The description that the renderer has not received yet, if any.
    pub closed spec fn action(&self) -> Option<Action<S, C>> {
        self.action
    }

    /// How many more steps may be displayed.
    pub closed spec fn steps_left(&self) -> usize {
        self.steps_left
    }

    /// A disabled terminal never holds a description.
    pub closed spec fn wf(&self) -> bool {
        !self.term.enabled() ==> self.action is None
    }

    /// Whether the terminal of this sequence renders anything.
    pub fn is_enabled(&self) -> (enabled: bool)
        ensures
            enabled == self.terminal().enabled(),
    {
        self.term.is_enabled()
    }

    pub fn remaining_steps(&self) -> (n: usize)
        ensures
            n == self.steps_left(),
    {
        self.steps_left
    }

    /// Whether the renderer has yet to be told about this sequence.
    pub fn is_pending(&self) -> (pending: bool)
        ensures
            pending == (self.action() is Some),
    {
        self.action.is_some()
    }

    /// Draws a loading bar with the given header for this sequence.
    pub fn with_loading_bar(self, loading_header: &'static str) -> (ctx: Self)
        requires
            self.wf(),
        ensures
            ctx.wf(),
            ctx.terminal() == self.terminal(),
            ctx.steps_left() == self.steps_left(),
            ctx.action() == match self.action() {
                Some(action) => Some(
                    Action { loading_bar_header: Some(loading_header), ..action },
                ),
                None => None,
            },
    {
        let TerminalContext { term, action, steps_left } = self;
        let action = match action {
            Some(action) => Some(Action { loading_bar_header: Some(loading_header), ..action }),
            None => None,
        };
        TerminalContext { term, action, steps_left }
    }

    /// Sets the number of steps of this sequence.
    pub fn num_steps(self, num_steps: usize) -> (ctx: Self)
        requires
            self.wf(),
            num_steps > 0,
        ensures
            ctx.wf(),
            ctx.terminal() == self.terminal(),
            ctx.steps_left() == num_steps,
            ctx.action() == match self.action() {
                Some(action) => Some(Action { iter_num: num_steps, ..action }),
                None => None,
            },
    {
        let TerminalContext { term, action, steps_left: _ } = self;
        let action = match action {
            Some(action) => Some(Action { iter_num: num_steps, ..action }),
            None => None,
        };
        TerminalContext { term, action, steps_left: num_steps }
    }

    /// Installs the formatter of the text that follows each step's header.
    pub fn on_step<F>(self, on_step: F) -> (ctx: TerminalContext<'a, F, C>) where
        F: Fn(usize) -> String + Send + 'static,

        requires
            self.wf(),
        ensures
            ctx.wf(),
            ctx.terminal() == self.terminal(),
            ctx.steps_left() == self.steps_left(),
            ctx.action() == match self.action() {
                Some(action) => Some(
                    Action {
                        step_header: action.step_header,
                        iter_num: action.iter_num,
                        step_trailing: on_step,
                        loading_bar_header: action.loading_bar_header,
                        completion_header: action.completion_header,
                        completion_trailing: action.completion_trailing,
                    },
                ),
                None => None,
            },
    {
        let TerminalContext { term, action, steps_left } = self;
        let action = match action {
            Some(action) => Some(
                Action {
                    step_header: action.step_header,
                    iter_num: action.iter_num,
                    step_trailing: on_step,
                    loading_bar_header: action.loading_bar_header,
                    completion_header: action.completion_header,
                    completion_trailing: action.completion_trailing,
                },
            ),
            None => None,
        };
        TerminalContext { term, action, steps_left }
    }

    /// Sets the text printed once the sequence is complete.
    pub fn completion_header(self, completion_header: &'static str) -> (ctx: Self)
        requires
            self.wf(),
        ensures
            ctx.wf(),
            ctx.terminal() == self.terminal(),
            ctx.steps_left() == self.steps_left(),
            ctx.action() == match self.action() {
                Some(action) => Some(Action { completion_header, ..action }),
                None => None,
            },
    {
        let TerminalContext { term, action, steps_left } = self;
        let action = match action {
            Some(action) => Some(Action { completion_header, ..action }),
            None => None,
        };
        TerminalContext { term, action, steps_left }
    }

    /// Installs the formatter of the text that follows the completion header.
    pub fn completion_stats<F>(self, on_completion: F) -> (ctx: TerminalContext<'a, S, F>) where
        F: Fn(FmtDuration) -> String + Send + 'static,

        requires
            self.wf(),
        ensures
            ctx.wf(),
            ctx.terminal() == self.terminal(),
            ctx.steps_left() == self.steps_left(),
            ctx.action() == match self.action() {
                Some(action) => Some(
                    Action {
                        step_header: action.step_header,
                        iter_num: action.iter_num,
                        step_trailing: action.step_trailing,
                        loading_bar_header: action.loading_bar_header,
                        completion_header: action.completion_header,
                        completion_trailing: on_completion,
                    },
                ),
                None => None,
            },
    {
        let TerminalContext { term, action, steps_left } = self;
        let action = match action {
            Some(action) => Some(
                Action {
                    step_header: action.step_header,
                    iter_num: action.iter_num,
                    step_trailing: action.step_trailing,
                    loading_bar_header: action.loading_bar_header,
                    completion_header: action.completion_header,
                    completion_trailing: on_completion,
                },
            ),
            None => None,
        };
        TerminalContext { term, action, steps_left }
    }

    /// Shows the next step. The first step of a sequence sends the renderer
    /// the sequence's description, every later one a tick; the guard that
    /// comes back owes the renderer the tick that ends the step. On a disabled
    /// terminal nothing is counted and nothing is owed.
    pub fn display_step(&mut self) -> (guard: Guard<'_, S, C>)
        requires
            old(self).wf(),
            old(self).terminal().enabled() ==> old(self).steps_left() > 0,
        ensures
            final(self).wf(),
            final(self).terminal() == old(self).terminal(),
            final(self).action() is None,
            final(self).steps_left() == if old(self).terminal().enabled() {
                (old(self).steps_left() - 1) as usize
            } else {
                old(self).steps_left()
            },
            guard.owes_tick() == old(self).terminal().enabled(),
            guard.opening() == if !old(self).terminal().enabled() {
                Signal::Idle
            } else {
                match old(self).action() {
                    Some(action) => Signal::Begin(action),
                    None => Signal::Advance,
                }
            },
    {
        if !self.term.is_enabled() {
            return Guard { opening: Signal::Idle, term: None };
        }
        self.steps_left = self.steps_left - 1;
        let opening = match self.action.take() {
            Some(action) => Signal::Begin(action),
            None => Signal::Advance,
        };
        Guard { opening, term: Some(self.term) }
    }
}

/// Stands for a step that is on display.
pub struct Guard<'a, S, C> {
    opening: Signal<S, C>,
    term: Option<&'a TerminalHandle>,
}

impl<'a, S, C> Guard<'a, S, C> {
    /// The signal that puts the step on display.
    pub closed spec fn opening(&self) -> Signal<S, C> {
        self.opening
    }

    /// Whether the renderer is owed a tick when the step ends.
    pub closed spec fn owes_tick(&self) -> bool {
        self.term is Some
    }

    /// Hands out the signal that puts the step on display, once.
    pub fn take_opening(&mut self) -> (signal: Signal<S, C>)
        ensures
            signal == old(self).opening(),
            final(self).opening() == Signal::<S, C>::Idle,
            final(self).owes_tick() == old(self).owes_tick(),
    {
        let mut signal = Signal::Idle;
        std::mem::swap(&mut self.opening, &mut signal);
        signal
    }

    /// Gives the step up: the guard that comes back owes the renderer nothing.
    pub fn abort(self) -> (guard: Self)
        ensures
            !guard.owes_tick(),
            guard.opening() == self.opening(),
    {
        let Guard { opening, term: _ } = self;
        Guard { opening, term: None }
    }

    /// Ends the step and says whether the renderer is to receive a tick.
    pub fn release(self) -> (tick: bool)
        ensures
            tick == self.owes_tick(),
    {
        self.term.is_some()
    }
}

impl<'a, S, C> Default for Guard<'a, S, C> {
    fn default() -> (guard: Self)
        ensures
            guard.opening() == Signal::<S, C>::Idle,
            !guard.owes_tick(),
    {
        Guard { opening: Signal::Idle, term: None }
    }
}

} // verus!
