//! Bringing the terminal of a process to the front.
//!
//! The library runs no command. It decides: it says which command to run
//! next, is told how that command ended, and says what follows. A focus
//! request is a chain of attempts (the multiplexer's pane, each terminal
//! emulator, a match by name), tried in order until one reports that it
//! found its target.

use vstd::prelude::*;
use crate::text::{
    append, chars_eq, contains, from_chars, occurs_in, slice, split, split_on, to_chars, trim,
    trim_leading, trim_start, trimmed, views, whitespace_char,
};

verus! {

/// Start of the script that looks for a session of the first emulator by
/// its terminal device.
pub const ITERM_TTY_HEAD: &'static str =
    "\n        tell application \"System Events\"\n            if not (exists process \"iTerm2\") then\n                error \"iTerm2 not running\"\n            end if\n        end tell\n\n        tell application \"iTerm2\"\n            activate\n            repeat with w in windows\n                repeat with t in tabs of w\n                    repeat with s in sessions of t\n                        if tty of s contains \"";

/// End of that script.
pub const ITERM_TTY_TAIL: &'static str =
    "\" then\n                            select s\n                            select t\n                            set index of w to 1\n                            return \"found\"\n                        end if\n                    end repeat\n                end repeat\n            end repeat\n        end tell\n        return \"not found\"\n    ";

/// Start of the script that looks for a session of the first emulator by
/// its name.
pub const ITERM_NAME_HEAD: &'static str =
    "\n        tell application \"System Events\"\n            if exists process \"iTerm2\" then\n                tell application \"iTerm2\"\n                    activate\n                    repeat with w in windows\n                        repeat with t in tabs of w\n                            repeat with s in sessions of t\n                                if name of s contains \"";

/// End of that script.
pub const ITERM_NAME_TAIL: &'static str =
    "\" then\n                                    select s\n                                    select t\n                                    set index of w to 1\n                                    return \"found\"\n                                end if\n                            end repeat\n                        end repeat\n                    end repeat\n                end tell\n            end if\n        end tell\n        return \"not found\"\n    ";

/// The script that asks whether the second emulator runs.
pub const TERMINAL_CHECK: &'static str =
    "\n        tell application \"System Events\"\n            return exists process \"Terminal\"\n        end tell\n    ";

/// Start of the script that looks for a tab of the second emulator by its
/// terminal device.
pub const TERMINAL_TTY_HEAD: &'static str =
    "\n        tell application \"Terminal\"\n            activate\n            repeat with w in windows\n                repeat with t in tabs of w\n                    try\n                        if tty of t contains \"";

/// End of that script.
pub const TERMINAL_TTY_TAIL: &'static str =
    "\" then\n                            set selected of t to true\n                            set index of w to 1\n                            return \"found\"\n                        end if\n                    end try\n                end repeat\n            end repeat\n        end tell\n        return \"not found\"\n    ";

/// The script that brings forward whichever emulator runs.
pub const ANY_TERMINAL: &'static str =
    "\n        tell application \"System Events\"\n            if exists process \"iTerm2\" then\n                tell application \"iTerm2\" to activate\n                return \"found\"\n            else if exists process \"Terminal\" then\n                tell application \"Terminal\" to activate\n                return \"found\"\n            end if\n        end tell\n        return \"not found\"\n    ";

/// Why an attempt, or a whole request, did not bring a terminal forward.
#[derive(Debug, Clone, Copy, PartialEq, Eq, Structural)]
pub enum FocusError {
    /// Nothing was tried.
    NothingTried,
    /// A command could not be started, or did not end in time.
    CommandNotRun,
    /// The query for the terminal device of the process failed.
    TtyQueryFailed,
    /// The process has no terminal device.
    NoTty,
    /// The multiplexer does not run or has no sessions.
    MultiplexerNotRunning,
    /// No pane of the multiplexer has the terminal device.
    PaneNotFound,
    /// The second emulator does not run.
    TerminalNotRunning,
    /// A script ran and did not answer that it found its window, tab or
    /// session.
    TabNotFound,
    /// A script ended with an error.
    ScriptFailed,
    /// A text that would go into a script holds a quote, a backslash or a
    /// control character.
    UnsafeArgument,
}

/// How a command ended.
#[derive(Debug, Clone)]
pub struct CommandOutcome {
    /// Whether the command was started and ended within its time limit.
    pub ran: bool,
    /// Whether it ended with the exit code of success.
    pub success: bool,
    /// What it printed.
    pub stdout: String,
}

/// Model of [`CommandOutcome`].
pub struct OutcomeModel {
    pub ran: bool,
    pub success: bool,
    pub stdout: Seq<char>,
}

impl DeepView for CommandOutcome {
    type V = OutcomeModel;

    open spec fn deep_view(&self) -> OutcomeModel {
        OutcomeModel { ran: self.ran, success: self.success, stdout: self.stdout@ }
    }
}

/// One way to bring a terminal forward.
#[derive(Debug, Clone)]
pub enum Attempt {
    /// Select the pane of the multiplexer with the terminal device, then
    /// bring forward the emulator that shows the multiplexer.
    Pane { tty: String },
    /// Select the session of the first emulator with the terminal device.
    Iterm { tty: String },
    /// Select the tab of the second emulator with the terminal device.
    TerminalApp { tty: String },
    /// Bring forward whichever emulator runs.
    AnyTerminal,
    /// Select the session of the first emulator with the name.
    PathHint { name: String },
}

/// Model of [`Attempt`].
pub enum AttemptModel {
    Pane { tty: Seq<char> },
    Iterm { tty: Seq<char> },
    TerminalApp { tty: Seq<char> },
    AnyTerminal,
    PathHint { name: Seq<char> },
}

impl DeepView for Attempt {
    type V = AttemptModel;

    open spec fn deep_view(&self) -> AttemptModel {
        match self {
            Attempt::Pane { tty } => AttemptModel::Pane { tty: tty@ },
            Attempt::Iterm { tty } => AttemptModel::Iterm { tty: tty@ },
            Attempt::TerminalApp { tty } => AttemptModel::TerminalApp { tty: tty@ },
            Attempt::AnyTerminal => AttemptModel::AnyTerminal,
            Attempt::PathHint { name } => AttemptModel::PathHint { name: name@ },
        }
    }
}

/// The command whose outcome is awaited.
#[derive(Debug, Clone)]
pub enum Pending {
    /// The query for the terminal device of the process.
    Tty,
    /// The list of the multiplexer's panes.
    PaneList { tty: String },
    /// The selection of the window of the pane found.
    WindowChoice { target: String },
    /// The selection of the pane found.
    PaneChoice,
    /// The query for the terminal device of the multiplexer's client.
    ClientTty,
    /// The question whether the second emulator runs.
    TerminalCheck { tty: String },
    /// A script that looks for a target and brings it forward.
    Script,
    /// Nothing: the request has ended.
    Nothing,
}

/// Model of [`Pending`].
pub enum PendingModel {
    Tty,
    PaneList { tty: Seq<char> },
    WindowChoice { target: Seq<char> },
    PaneChoice,
    ClientTty,
    TerminalCheck { tty: Seq<char> },
    Script,
    Nothing,
}

impl DeepView for Pending {
    type V = PendingModel;

    open spec fn deep_view(&self) -> PendingModel {
        match self {
            Pending::Tty => PendingModel::Tty,
            Pending::PaneList { tty } => PendingModel::PaneList { tty: tty@ },
            Pending::WindowChoice { target } => PendingModel::WindowChoice { target: target@ },
            Pending::PaneChoice => PendingModel::PaneChoice,
            Pending::ClientTty => PendingModel::ClientTty,
            Pending::TerminalCheck { tty } => PendingModel::TerminalCheck { tty: tty@ },
            Pending::Script => PendingModel::Script,
            Pending::Nothing => PendingModel::Nothing,
        }
    }
}

/// Where a focus request stands.
#[derive(Debug, Clone)]
pub struct FocusState {
    /// The command whose outcome is awaited.
    pub pending: Pending,
    /// The attempts still to make should the current one fail, in order.
    pub remaining: Vec<Attempt>,
    /// Why the latest attempt that ended failed.
    pub failure: FocusError,
}

/// Model of [`FocusState`].
pub struct StateModel {
    pub pending: PendingModel,
    pub remaining: Seq<AttemptModel>,
    pub failure: FocusError,
}

impl DeepView for FocusState {
    type V = StateModel;

    open spec fn deep_view(&self) -> StateModel {
        StateModel {
            pending: self.pending.deep_view(),
            remaining: self.remaining.deep_view(),
            failure: self.failure,
        }
    }
}

/// What the caller is to do next.
#[derive(Debug)]
pub enum FocusAction {
    /// Ask the process status tool for the terminal device of the process.
    QueryTty { pid: u32 },
    /// Ask the multiplexer for its panes: per line a terminal device, a
    /// space and a target.
    ListPanes,
    /// Tell the multiplexer to select the window of the target.
    SelectWindow { target: String },
    /// Tell the multiplexer to select the pane of the target.
    SelectPane { target: String },
    /// Ask the multiplexer for the terminal device of its client.
    QueryClientTty,
    /// Run the script with the automation tool.
    RunScript { script: String },
    /// Nothing more: the request has ended.
    Done { result: Result<(), FocusError> },
}

/// Model of [`FocusAction`].
pub enum ActionModel {
    QueryTty { pid: u32 },
    ListPanes,
    SelectWindow { target: Seq<char> },
    SelectPane { target: Seq<char> },
    QueryClientTty,
    RunScript { script: Seq<char> },
    Done { result: Result<(), FocusError> },
}

impl DeepView for FocusAction {
    type V = ActionModel;

    open spec fn deep_view(&self) -> ActionModel {
        match self {
            FocusAction::QueryTty { pid } => ActionModel::QueryTty { pid: *pid },
            FocusAction::ListPanes => ActionModel::ListPanes,
            FocusAction::SelectWindow { target } => ActionModel::SelectWindow { target: target@ },
            FocusAction::SelectPane { target } => ActionModel::SelectPane { target: target@ },
            FocusAction::QueryClientTty => ActionModel::QueryClientTty,
            FocusAction::RunScript { script } => ActionModel::RunScript { script: script@ },
            FocusAction::Done { result } => ActionModel::Done { result: *result },
        }
    }
}

/// A state together with what to do in it.
#[derive(Debug)]
pub struct FocusStep {
    pub state: FocusState,
    pub action: FocusAction,
}

/// Model of [`FocusStep`].
pub struct StepModel {
    pub state: StateModel,
    pub action: ActionModel,
}

impl DeepView for FocusStep {
    type V = StepModel;

    open spec fn deep_view(&self) -> StepModel {
        StepModel { state: self.state.deep_view(), action: self.action.deep_view() }
    }
}

/// The character is a control character: U+0000 to U+001F, or U+007F to
/// U+009F.
pub open spec fn is_control_char(c: char) -> bool {
    c < ' ' || '\u{7f}' <= c <= '\u{9f}'
}

/// The character may stand in a text that goes into a script: it is no
/// quote, no backslash and no control character.
pub open spec fn is_safe_char(c: char) -> bool {
    c != '"' && c != '\\' && !is_control_char(c)
}

/// The text may go into a script.
pub open spec fn is_safe_argument(s: Seq<char>) -> bool {
    forall|i: int| 0 <= i < s.len() ==> is_safe_char(#[trigger] s[i])
}

/// Number of characters before the first whitespace.
pub open spec fn word_len(s: Seq<char>) -> nat
    decreases s.len(),
{
    if s.len() == 0 || whitespace_char(s[0]) {
        0
    } else {
        1 + word_len(s.drop_first())
    }
}

/// The first word of a text that begins with none or one: the characters
/// before the first whitespace.
pub open spec fn first_word(s: Seq<char>) -> Seq<char> {
    s.take(word_len(s) as int)
}

/// The first word of a line.
pub open spec fn word_one(line: Seq<char>) -> Seq<char> {
    first_word(trim_start(line))
}

/// The second word of a line; empty where it has none.
pub open spec fn word_two(line: Seq<char>) -> Seq<char> {
    first_word(trim_start(trim_start(line).skip(word_len(trim_start(line)) as int)))
}

/// The target that a line of the pane list gives for the terminal
/// device: its second word, where its first holds the device's name.
pub open spec fn line_target(line: Seq<char>, tty: Seq<char>) -> Option<Seq<char>> {
    if word_one(line).len() > 0 && word_two(line).len() > 0 && occurs_in(word_one(line), tty) {
        Some(word_two(line))
    } else {
        None
    }
}

/// The target of the first of the lines that gives one.
pub open spec fn first_target(lines: Seq<Seq<char>>, tty: Seq<char>) -> Option<Seq<char>>
    decreases lines.len(),
{
    if lines.len() == 0 {
        None
    } else if line_target(lines[0], tty) is Some {
        line_target(lines[0], tty)
    } else {
        first_target(lines.drop_first(), tty)
    }
}

/// The target of the pane with the terminal device, from the list of
/// panes.
pub open spec fn pane_target(listing: Seq<char>, tty: Seq<char>) -> Option<Seq<char>> {
    first_target(split_on(listing, '\n'), tty)
}

/// What follows a path's last separator; the path where it has none.
pub open spec fn last_segment(path: Seq<char>) -> Seq<char> {
    split_on(path, '/').last()
}

/// The terminal device that the process status tool reported.
pub open spec fn tty_of(outcome: OutcomeModel) -> Result<Seq<char>, FocusError> {
    if !outcome.ran {
        Err(FocusError::CommandNotRun)
    } else if !outcome.success {
        Err(FocusError::TtyQueryFailed)
    } else if trimmed(outcome.stdout).len() == 0 || trimmed(outcome.stdout) == "??"@ {
        Err(FocusError::NoTty)
    } else {
        Ok(trimmed(outcome.stdout))
    }
}

/// Whether a script brought its target forward. That it ran and ended
/// well is not enough: it must have answered `found`.
pub open spec fn script_verdict(outcome: OutcomeModel) -> Result<(), FocusError> {
    if !outcome.ran {
        Err(FocusError::CommandNotRun)
    } else if !outcome.success {
        Err(FocusError::ScriptFailed)
    } else if trimmed(outcome.stdout) == "found"@ {
        Ok(())
    } else {
        Err(FocusError::TabNotFound)
    }
}

/// The ended state.
pub open spec fn ended(failure: FocusError) -> StateModel {
    StateModel {
        pending: PendingModel::Nothing,
        remaining: Seq::<AttemptModel>::empty(),
        failure: failure,
    }
}

/// The step that starts the first of the attempts that can be started;
/// where none can, the request ends in failure.
///
/// An attempt whose text may not go into a script is passed over.
pub open spec fn begin_of(remaining: Seq<AttemptModel>, failure: FocusError) -> StepModel
    decreases remaining.len(),
{
    if remaining.len() == 0 {
        StepModel { state: ended(failure), action: ActionModel::Done { result: Err(failure) } }
    } else {
        let rest = remaining.drop_first();
        match remaining[0] {
            AttemptModel::Pane { tty } => StepModel {
                state: StateModel {
                    pending: PendingModel::PaneList { tty: tty },
                    remaining: rest,
                    failure: failure,
                },
                action: ActionModel::ListPanes,
            },
            AttemptModel::Iterm { tty } => if is_safe_argument(tty) {
                StepModel {
                    state: StateModel {
                        pending: PendingModel::Script,
                        remaining: rest,
                        failure: failure,
                    },
                    action: ActionModel::RunScript {
                        script: ITERM_TTY_HEAD@ + tty + ITERM_TTY_TAIL@,
                    },
                }
            } else {
                begin_of(rest, FocusError::UnsafeArgument)
            },
            AttemptModel::TerminalApp { tty } => if is_safe_argument(tty) {
                StepModel {
                    state: StateModel {
                        pending: PendingModel::TerminalCheck { tty: tty },
                        remaining: rest,
                        failure: failure,
                    },
                    action: ActionModel::RunScript { script: TERMINAL_CHECK@ },
                }
            } else {
                begin_of(rest, FocusError::UnsafeArgument)
            },
            AttemptModel::AnyTerminal => StepModel {
                state: StateModel {
                    pending: PendingModel::Script,
                    remaining: rest,
                    failure: failure,
                },
                action: ActionModel::RunScript { script: ANY_TERMINAL@ },
            },
            AttemptModel::PathHint { name } => if is_safe_argument(name) {
                StepModel {
                    state: StateModel {
                        pending: PendingModel::Script,
                        remaining: rest,
                        failure: failure,
                    },
                    action: ActionModel::RunScript {
                        script: ITERM_NAME_HEAD@ + name + ITERM_NAME_TAIL@,
                    },
                }
            } else {
                begin_of(rest, FocusError::UnsafeArgument)
            },
        }
    }
}

/// The attempts made for a terminal device, in order.
pub open spec fn attempts_for(tty: Seq<char>) -> Seq<AttemptModel> {
    seq![
        AttemptModel::Pane { tty: tty },
        AttemptModel::Iterm { tty: tty },
        AttemptModel::TerminalApp { tty: tty },
    ]
}

/// The attempts made to bring forward the emulator that shows the
/// multiplexer, once its client's terminal device is known.
pub open spec fn attempts_for_client(tty: Seq<char>) -> Seq<AttemptModel> {
    seq![
        AttemptModel::Iterm { tty: tty },
        AttemptModel::TerminalApp { tty: tty },
        AttemptModel::AnyTerminal,
    ]
}

/// The step that follows when the awaited command has ended.
pub open spec fn step_of(state: StateModel, outcome: OutcomeModel) -> StepModel {
    match state.pending {
        PendingModel::Tty => match tty_of(outcome) {
            Ok(tty) => begin_of(attempts_for(tty) + state.remaining, state.failure),
            Err(e) => begin_of(state.remaining, e),
        },
        PendingModel::PaneList { tty } => if !outcome.ran {
            begin_of(state.remaining, FocusError::CommandNotRun)
        } else if !outcome.success {
            begin_of(state.remaining, FocusError::MultiplexerNotRunning)
        } else {
            match pane_target(outcome.stdout, tty) {
                Some(target) => StepModel {
                    state: StateModel {
                        pending: PendingModel::WindowChoice { target: target },
                        remaining: state.remaining,
                        failure: state.failure,
                    },
                    action: ActionModel::SelectWindow { target: target },
                },
                None => begin_of(state.remaining, FocusError::PaneNotFound),
            }
        },
        PendingModel::WindowChoice { target } => StepModel {
            state: StateModel {
                pending: PendingModel::PaneChoice,
                remaining: state.remaining,
                failure: state.failure,
            },
            action: ActionModel::SelectPane { target: target },
        },
        PendingModel::PaneChoice => StepModel {
            state: StateModel {
                pending: PendingModel::ClientTty,
                remaining: state.remaining,
                failure: state.failure,
            },
            action: ActionModel::QueryClientTty,
        },
        PendingModel::ClientTty => if !outcome.ran {
            begin_of(state.remaining, FocusError::CommandNotRun)
        } else if !outcome.success || trimmed(outcome.stdout).len() == 0 {
            begin_of(seq![AttemptModel::AnyTerminal] + state.remaining, state.failure)
        } else {
            begin_of(
                attempts_for_client(last_segment(trimmed(outcome.stdout))) + state.remaining,
                state.failure,
            )
        },
        PendingModel::TerminalCheck { tty } => if !outcome.ran {
            begin_of(state.remaining, FocusError::CommandNotRun)
        } else if trimmed(outcome.stdout) == "true"@ {
            StepModel {
                state: StateModel {
                    pending: PendingModel::Script,
                    remaining: state.remaining,
                    failure: state.failure,
                },
                action: ActionModel::RunScript {
                    script: TERMINAL_TTY_HEAD@ + tty + TERMINAL_TTY_TAIL@,
                },
            }
        } else {
            begin_of(state.remaining, FocusError::TerminalNotRunning)
        },
        PendingModel::Script => match script_verdict(outcome) {
            Ok(()) => StepModel {
                state: ended(state.failure),
                action: ActionModel::Done { result: Ok(()) },
            },
            Err(e) => begin_of(state.remaining, e),
        },
        PendingModel::Nothing => StepModel {
            state: ended(state.failure),
            action: ActionModel::Done { result: Err(state.failure) },
        },
    }
}

/// The step that starts a request by pid: the query for the terminal
/// device, with `fallback` to try should the device's attempts fail.
pub open spec fn start_of(pid: u32, fallback: Seq<AttemptModel>) -> StepModel {
    StepModel {
        state: StateModel {
            pending: PendingModel::Tty,
            remaining: fallback,
            failure: FocusError::NothingTried,
        },
        action: ActionModel::QueryTty { pid: pid },
    }
}

/// Number of commands that an attempt may ask for.
pub open spec fn attempt_cost(attempt: AttemptModel) -> nat {
    match attempt {
        AttemptModel::Pane { .. } => 8,
        AttemptModel::Iterm { .. } => 1,
        AttemptModel::TerminalApp { .. } => 2,
        AttemptModel::AnyTerminal => 1,
        AttemptModel::PathHint { .. } => 1,
    }
}

/// Number of commands that the attempts may ask for, all together.
pub open spec fn chain_cost(attempts: Seq<AttemptModel>) -> nat
    decreases attempts.len(),
{
    if attempts.len() == 0 {
        0
    } else {
        attempt_cost(attempts[0]) + chain_cost(attempts.drop_first())
    }
}

/// Number of commands that may still be asked for on account of the
/// command that is awaited, that command counted.
pub open spec fn pending_cost(pending: PendingModel) -> nat {
    match pending {
        PendingModel::Tty => 12,
        PendingModel::PaneList { .. } => 8,
        PendingModel::WindowChoice { .. } => 7,
        PendingModel::PaneChoice => 6,
        PendingModel::ClientTty => 5,
        PendingModel::TerminalCheck { .. } => 2,
        PendingModel::Script => 1,
        PendingModel::Nothing => 0,
    }
}

/// A bound on the number of commands whose outcome the request still
/// waits for, from this state to its end.
pub open spec fn commands_left(state: StateModel) -> nat {
    pending_cost(state.pending) + chain_cost(state.remaining)
}

/// The state after the outcomes of the commands asked for, one after the
/// other.
pub open spec fn state_after(state: StateModel, outcomes: Seq<OutcomeModel>) -> StateModel
    decreases outcomes.len(),
{
    if outcomes.len() == 0 {
        state
    } else {
        step_of(state_after(state, outcomes.drop_last()), outcomes.last()).state
    }
}

/// The cost of two chains, one behind the other, is the sum of theirs.
pub proof fn lemma_chain_cost_of_concat(a: Seq<AttemptModel>, b: Seq<AttemptModel>)
    ensures
        chain_cost(a + b) == chain_cost(a) + chain_cost(b),
    decreases a.len(),
{
    if a.len() == 0 {
        assert(a + b =~= b);
    } else {
        lemma_chain_cost_of_concat(a.drop_first(), b);
        assert((a + b).drop_first() =~= a.drop_first() + b);
    }
}

/// Starting a chain leaves no more commands to wait for than the chain
/// costs, and says that the request has ended exactly where it has.
pub proof fn lemma_begin_is_bounded(remaining: Seq<AttemptModel>, failure: FocusError)
    ensures
        commands_left(begin_of(remaining, failure).state) <= chain_cost(remaining),
        begin_of(remaining, failure).action is Done <==> begin_of(
            remaining,
            failure,
        ).state.pending is Nothing,
        !(begin_of(remaining, failure).action matches ActionModel::Done { result: Ok(_) }),
    decreases remaining.len(),
{
    if remaining.len() > 0 {
        lemma_begin_is_bounded(remaining.drop_first(), FocusError::UnsafeArgument);
    }
}

/// A step that starts a chain leaves at most `cost` commands to wait
/// for, says that the request has ended exactly where it has, and does
/// not report success.
spec fn starts_within(step: StepModel, cost: nat) -> bool {
    &&& commands_left(step.state) <= cost
    &&& step.action is Done <==> step.state.pending is Nothing
    &&& !(step.action matches ActionModel::Done { result: Ok(_) })
}

/// Whatever chain a step puts in front of the attempts that remain, and
/// whatever failure it starts with, the start costs no more than both
/// chains together; the chains that a step puts in front cost eleven,
/// four and one.
proof fn lemma_chains_of_step(remaining: Seq<AttemptModel>)
    ensures
        forall|failure: FocusError|
            starts_within(#[trigger] begin_of(remaining, failure), chain_cost(remaining)),
        forall|chain: Seq<AttemptModel>, failure: FocusError|
            starts_within(
                #[trigger] begin_of(chain + remaining, failure),
                chain_cost(chain) + chain_cost(remaining),
            ),
        forall|tty: Seq<char>| chain_cost(#[trigger] attempts_for(tty)) == 11,
        forall|tty: Seq<char>| chain_cost(#[trigger] attempts_for_client(tty)) == 4,
        chain_cost(seq![AttemptModel::AnyTerminal]) == 1,
        chain_cost(Seq::<AttemptModel>::empty()) == 0,
{
    assert forall|failure: FocusError|
        starts_within(#[trigger] begin_of(remaining, failure), chain_cost(remaining)) by {
        lemma_begin_is_bounded(remaining, failure);
    }
    assert forall|chain: Seq<AttemptModel>, failure: FocusError|
        starts_within(
            #[trigger] begin_of(chain + remaining, failure),
            chain_cost(chain) + chain_cost(remaining),
        ) by {
        lemma_chain_cost_of_concat(chain, remaining);
        lemma_begin_is_bounded(chain + remaining, failure);
    }
    assert forall|tty: Seq<char>| chain_cost(#[trigger] attempts_for(tty)) == 11 by {
        lemma_cost_of_three(attempts_for(tty));
    }
    assert forall|tty: Seq<char>| chain_cost(#[trigger] attempts_for_client(tty)) == 4 by {
        lemma_cost_of_three(attempts_for_client(tty));
    }
    let any = seq![AttemptModel::AnyTerminal];
    assert(any.drop_first() =~= Seq::<AttemptModel>::empty());
    assert(chain_cost(any.drop_first()) == 0);
}

/// Every outcome brings the request nearer to its end: unless it has
/// ended, a step leaves fewer commands to wait for. A step says that the
/// request has ended exactly where it has.
pub proof fn lemma_step_makes_progress(state: StateModel, outcome: OutcomeModel)
    ensures
        !(state.pending is Nothing) ==> commands_left(step_of(state, outcome).state)
            < commands_left(state),
        state.pending is Nothing ==> step_of(state, outcome).state.pending is Nothing
            && commands_left(step_of(state, outcome).state) == 0,
        step_of(state, outcome).action is Done <==> step_of(state, outcome).state.pending
            is Nothing,
{
    lemma_chains_of_step(state.remaining);
}

/// The cost of a chain of three attempts.
proof fn lemma_cost_of_three(attempts: Seq<AttemptModel>)
    requires
        attempts.len() == 3,
    ensures
        chain_cost(attempts) == attempt_cost(attempts[0]) + attempt_cost(attempts[1])
            + attempt_cost(attempts[2]),
{
    let b = attempts.drop_first();
    let c = b.drop_first();
    let d = c.drop_first();
    assert(b[0] == attempts[1] && c[0] == attempts[2]);
    assert(d.len() == 0);
    assert(chain_cost(d) == 0);
    assert(chain_cost(c) == attempt_cost(c[0]) + chain_cost(d));
    assert(chain_cost(b) == attempt_cost(b[0]) + chain_cost(c));
}

/// A request ends: once the outcomes of as many commands as the state
/// leaves to wait for have been given, whatever they are, nothing is
/// awaited any more.
pub proof fn lemma_request_ends(state: StateModel, outcomes: Seq<OutcomeModel>)
    ensures
        commands_left(state_after(state, outcomes)) + outcomes.len() <= commands_left(state)
            || state_after(state, outcomes).pending is Nothing,
        outcomes.len() >= commands_left(state) ==> state_after(state, outcomes).pending
            is Nothing,
    decreases outcomes.len(),
{
    if outcomes.len() > 0 {
        lemma_request_ends(state, outcomes.drop_last());
        lemma_step_makes_progress(state_after(state, outcomes.drop_last()), outcomes.last());
    }
    if commands_left(state_after(state, outcomes)) == 0 {
        let end = state_after(state, outcomes);
        assert(pending_cost(end.pending) == 0);
    }
}

/// A request reports success only for a script that ran, ended well and
/// answered `found`.
pub proof fn lemma_success_needs_found(state: StateModel, outcome: OutcomeModel)
    requires
        step_of(state, outcome).action matches ActionModel::Done { result: Ok(_) },
    ensures
        state.pending is Script,
        outcome.ran && outcome.success && trimmed(outcome.stdout) == "found"@,
{
    lemma_chains_of_step(state.remaining);
}

/// A request that starts with the query for a terminal device and has a
/// match by name to fall back on asks for at most thirteen commands.
pub proof fn lemma_session_request_cost(pid: u32, name: Seq<char>)
    ensures
        commands_left(start_of(pid, seq![AttemptModel::PathHint { name: name }]).state) == 13,
{
    let fallback = seq![AttemptModel::PathHint { name: name }];
    assert(fallback.drop_first() =~= Seq::<AttemptModel>::empty());
    assert(chain_cost(fallback.drop_first()) == 0);
}

/// Whether a text may go into a script.
pub fn is_safe(s: &Vec<char>) -> (r: bool)
    ensures
        r == is_safe_argument(s@),
{
    let mut i: usize = 0;
    while i < s.len()
        invariant
            i <= s.len(),
            forall|j: int| 0 <= j < i ==> is_safe_char(#[trigger] s@[j]),
        decreases s.len() - i,
    {
        let c = s[i];
        if c == '"' || c == '\\' || c < ' ' || ('\u{7f}' <= c && c <= '\u{9f}') {
            return false;
        }
        i += 1;
    }
    true
}

/// The script made of a start, a text and an end.
fn script_with(head: &str, arg: &str, tail: &str) -> (r: String)
    ensures
        r@ == head@ + arg@ + tail@,
{
    let mut script = to_chars(head);
    let middle = to_chars(arg);
    let end = to_chars(tail);
    append(&mut script, &middle);
    append(&mut script, &end);
    from_chars(&script)
}

/// Number of characters before the first whitespace.
fn word_end(s: &Vec<char>) -> (n: usize)
    ensures
        n == word_len(s@),
        n <= s.len(),
{
    let mut i: usize = 0;
    assert(s@.skip(0) == s@);
    while i < s.len() && !s[i].is_whitespace()
        invariant
            i <= s.len(),
            word_len(s@) == i + word_len(s@.skip(i as int)),
        decreases s.len() - i,
    {
        assert(s@.skip(i as int)[0] == s@[i as int]);
        assert(s@.skip(i as int).drop_first() == s@.skip(i + 1));
        i += 1;
    }
    proof {
        if i < s.len() {
            assert(s@.skip(i as int)[0] == s@[i as int]);
        }
    }
    i
}

/// The target that a line of the pane list gives for the terminal device.
fn target_of_line(line: &Vec<char>, tty: &Vec<char>) -> (r: Option<Vec<char>>)
    ensures
        match r {
            Some(t) => line_target(line@, tty@) == Some(t@),
            None => line_target(line@, tty@) is None,
        },
{
    let start = trim_leading(line);
    let n = word_end(&start);
    let one = slice(&start, 0, n);
    let behind = slice(&start, n, start.len());
    let rest = trim_leading(&behind);
    let m = word_end(&rest);
    let two = slice(&rest, 0, m);
    assert(one@ == word_one(line@));
    assert(two@ == word_two(line@));
    if n > 0 && m > 0 && contains(&one, tty) {
        Some(two)
    } else {
        None
    }
}

/// The target of the pane with the terminal device, from the list of
/// panes: per line a terminal device, whitespace and a target. The first
/// line counts whose device holds `tty`.
pub fn find_pane_target(listing: &str, tty: &str) -> (r: Option<String>)
    ensures
        r.deep_view() == pane_target(listing@, tty@),
{
    let chars = to_chars(listing);
    let device = to_chars(tty);
    let lines = split(&chars, '\n');
    let ghost all = views(lines@);
    let mut i: usize = 0;
    assert(all.skip(0) == all);
    while i < lines.len()
        invariant
            i <= lines.len(),
            all == views(lines@),
            all == split_on(listing@, '\n'),
            device@ == tty@,
            first_target(all, tty@) == first_target(all.skip(i as int), tty@),
        decreases lines.len() - i,
    {
        assert(all.skip(i as int)[0] == lines@[i as int]@);
        assert(all.skip(i as int).drop_first() == all.skip(i + 1));
        match target_of_line(&lines[i], &device) {
            Some(target) => {
                return Some(from_chars(&target));
            },
            None => {},
        }
        i += 1;
    }
    None
}

/// What follows a path's last separator.
pub fn last_path_segment(path: &Vec<char>) -> (r: Vec<char>)
    ensures
        r@ == last_segment(path@),
{
    let mut parts = split(path, '/');
    proof {
        crate::text::lemma_split_on_nonempty(path@, '/');
    }
    let ghost all = views(parts@);
    let last = parts.pop();
    match last {
        Some(segment) => {
            assert(segment@ == all.last());
            segment
        },
        None => Vec::new(),
    }
}

/// The terminal device of a process, from how the query for it ended.
pub fn get_tty_for_pid(outcome: &CommandOutcome) -> (r: Result<String, FocusError>)
    ensures
        match r {
            Ok(tty) => tty_of(outcome.deep_view()) == Ok::<Seq<char>, FocusError>(tty@),
            Err(e) => tty_of(outcome.deep_view()) == Err::<Seq<char>, FocusError>(e),
        },
{
    if !outcome.ran {
        return Err(FocusError::CommandNotRun);
    }
    if !outcome.success {
        return Err(FocusError::TtyQueryFailed);
    }
    let printed = to_chars(outcome.stdout.as_str());
    let tty = trim(&printed);
    let unknown = to_chars("??");
    if tty.len() == 0 || chars_eq(&tty, &unknown) {
        Err(FocusError::NoTty)
    } else {
        Ok(from_chars(&tty))
    }
}

/// Whether a script brought its target forward, from how its run ended.
pub fn execute_applescript(outcome: &CommandOutcome) -> (r: Result<(), FocusError>)
    ensures
        r == script_verdict(outcome.deep_view()),
{
    if !outcome.ran {
        return Err(FocusError::CommandNotRun);
    }
    if !outcome.success {
        return Err(FocusError::ScriptFailed);
    }
    let printed = to_chars(outcome.stdout.as_str());
    let answer = trim(&printed);
    let found = to_chars("found");
    if chars_eq(&answer, &found) {
        Ok(())
    } else {
        Err(FocusError::TabNotFound)
    }
}

/// The ended state with the step that says so.
fn finish(result: Result<(), FocusError>, failure: FocusError) -> (r: FocusStep)
    ensures
        r.deep_view() == (StepModel {
            state: ended(failure),
            action: ActionModel::Done { result: result },
        }),
{
    let state = FocusState { pending: Pending::Nothing, remaining: Vec::new(), failure };
    assert(state.remaining.deep_view() =~= Seq::<AttemptModel>::empty());
    FocusStep { state, action: FocusAction::Done { result } }
}

/// The step that starts the first of the attempts that can be started.
pub fn begin_next(remaining: Vec<Attempt>, failure: FocusError) -> (r: FocusStep)
    ensures
        r.deep_view() == begin_of(remaining.deep_view(), failure),
{
    let ghost goal = begin_of(remaining.deep_view(), failure);
    let mut rest = remaining;
    let mut reason = failure;
    while rest.len() > 0
        invariant
            goal == begin_of(remaining.deep_view(), failure),
            goal == begin_of(rest.deep_view(), reason),
        decreases rest.len(),
    {
        let ghost before = rest.deep_view();
        let attempt = rest.remove(0);
        assert(attempt.deep_view() == before[0]);
        assert(rest.deep_view() =~= before.drop_first());
        match attempt {
            Attempt::Pane { tty } => {
                return FocusStep {
                    state: FocusState {
                        pending: Pending::PaneList { tty },
                        remaining: rest,
                        failure: reason,
                    },
                    action: FocusAction::ListPanes,
                };
            },
            Attempt::Iterm { tty } => {
                let chars = to_chars(tty.as_str());
                if is_safe(&chars) {
                    let script = script_with(ITERM_TTY_HEAD, tty.as_str(), ITERM_TTY_TAIL);
                    return FocusStep {
                        state: FocusState {
                            pending: Pending::Script,
                            remaining: rest,
                            failure: reason,
                        },
                        action: FocusAction::RunScript { script },
                    };
                }
                reason = FocusError::UnsafeArgument;
            },
            Attempt::TerminalApp { tty } => {
                let chars = to_chars(tty.as_str());
                if is_safe(&chars) {
                    return FocusStep {
                        state: FocusState {
                            pending: Pending::TerminalCheck { tty },
                            remaining: rest,
                            failure: reason,
                        },
                        action: FocusAction::RunScript { script: TERMINAL_CHECK.to_owned() },
                    };
                }
                reason = FocusError::UnsafeArgument;
            },
            Attempt::AnyTerminal => {
                return FocusStep {
                    state: FocusState {
                        pending: Pending::Script,
                        remaining: rest,
                        failure: reason,
                    },
                    action: FocusAction::RunScript { script: ANY_TERMINAL.to_owned() },
                };
            },
            Attempt::PathHint { name } => {
                let chars = to_chars(name.as_str());
                if is_safe(&chars) {
                    let script = script_with(ITERM_NAME_HEAD, name.as_str(), ITERM_NAME_TAIL);
                    return FocusStep {
                        state: FocusState {
                            pending: Pending::Script,
                            remaining: rest,
                            failure: reason,
                        },
                        action: FocusAction::RunScript { script },
                    };
                }
                reason = FocusError::UnsafeArgument;
            },
        }
    }
    assert(rest.deep_view() =~= Seq::<AttemptModel>::empty());
    finish(Err(reason), reason)
}

/// The attempts in `first`, then those in `then`.
fn chain(first: Vec<Attempt>, then: Vec<Attempt>) -> (r: Vec<Attempt>)
    ensures
        r.deep_view() == first.deep_view() + then.deep_view(),
{
    let ghost a = first.deep_view();
    let ghost b = then.deep_view();
    let mut all = first;
    let mut rest = then;
    all.append(&mut rest);
    assert(all.deep_view() =~= a + b);
    all
}

/// The attempts made for a terminal device, in order.
fn attempts_for_tty(tty: &String) -> (r: Vec<Attempt>)
    ensures
        r.deep_view() == attempts_for(tty@),
{
    let mut attempts: Vec<Attempt> = Vec::new();
    attempts.push(Attempt::Pane { tty: tty.clone() });
    attempts.push(Attempt::Iterm { tty: tty.clone() });
    attempts.push(Attempt::TerminalApp { tty: tty.clone() });
    assert(attempts.deep_view() =~= attempts_for(tty@));
    attempts
}

/// The attempts made for the terminal device of the multiplexer's client.
fn attempts_for_client_tty(tty: &String) -> (r: Vec<Attempt>)
    ensures
        r.deep_view() == attempts_for_client(tty@),
{
    let mut attempts: Vec<Attempt> = Vec::new();
    attempts.push(Attempt::Iterm { tty: tty.clone() });
    attempts.push(Attempt::TerminalApp { tty: tty.clone() });
    attempts.push(Attempt::AnyTerminal);
    assert(attempts.deep_view() =~= attempts_for_client(tty@));
    attempts
}

/// One attempt as a list.
fn only(attempt: Attempt) -> (r: Vec<Attempt>)
    ensures
        r.deep_view() == seq![attempt.deep_view()],
{
    let mut attempts: Vec<Attempt> = Vec::new();
    attempts.push(attempt);
    assert(attempts.deep_view() =~= seq![attempt.deep_view()]);
    attempts
}

/// The step that follows when the awaited command has ended as
/// `outcome` says.
pub fn focus_step(state: FocusState, outcome: &CommandOutcome) -> (r: FocusStep)
    ensures
        r.deep_view() == step_of(state.deep_view(), outcome.deep_view()),
{
    let FocusState { pending, remaining, failure } = state;
    match pending {
        Pending::Tty => match get_tty_for_pid(outcome) {
            Ok(tty) => begin_next(chain(attempts_for_tty(&tty), remaining), failure),
            Err(e) => begin_next(remaining, e),
        },
        Pending::PaneList { tty } => {
            if !outcome.ran {
                begin_next(remaining, FocusError::CommandNotRun)
            } else if !outcome.success {
                begin_next(remaining, FocusError::MultiplexerNotRunning)
            } else {
                match find_pane_target(outcome.stdout.as_str(), tty.as_str()) {
                    Some(target) => FocusStep {
                        state: FocusState {
                            pending: Pending::WindowChoice { target: target.clone() },
                            remaining,
                            failure,
                        },
                        action: FocusAction::SelectWindow { target },
                    },
                    None => begin_next(remaining, FocusError::PaneNotFound),
                }
            }
        },
        Pending::WindowChoice { target } => FocusStep {
            state: FocusState { pending: Pending::PaneChoice, remaining, failure },
            action: FocusAction::SelectPane { target },
        },
        Pending::PaneChoice => FocusStep {
            state: FocusState { pending: Pending::ClientTty, remaining, failure },
            action: FocusAction::QueryClientTty,
        },
        Pending::ClientTty => {
            if !outcome.ran {
                begin_next(remaining, FocusError::CommandNotRun)
            } else {
                let printed = to_chars(outcome.stdout.as_str());
                let client = trim(&printed);
                if !outcome.success || client.len() == 0 {
                    begin_next(chain(only(Attempt::AnyTerminal), remaining), failure)
                } else {
                    let name = from_chars(&last_path_segment(&client));
                    begin_next(chain(attempts_for_client_tty(&name), remaining), failure)
                }
            }
        },
        Pending::TerminalCheck { tty } => {
            if !outcome.ran {
                begin_next(remaining, FocusError::CommandNotRun)
            } else {
                let printed = to_chars(outcome.stdout.as_str());
                let answer = trim(&printed);
                let yes = to_chars("true");
                if chars_eq(&answer, &yes) {
                    let script = script_with(TERMINAL_TTY_HEAD, tty.as_str(), TERMINAL_TTY_TAIL);
                    FocusStep {
                        state: FocusState { pending: Pending::Script, remaining, failure },
                        action: FocusAction::RunScript { script },
                    }
                } else {
                    begin_next(remaining, FocusError::TerminalNotRunning)
                }
            }
        },
        Pending::Script => match execute_applescript(outcome) {
            Ok(()) => finish(Ok(()), failure),
            Err(e) => begin_next(remaining, e),
        },
        Pending::Nothing => finish(Err(failure), failure),
    }
}

/// The step that starts a request by pid.
fn start(pid: u32, fallback: Vec<Attempt>) -> (r: FocusStep)
    ensures
        r.deep_view() == start_of(pid, fallback.deep_view()),
{
    FocusStep {
        state: FocusState {
            pending: Pending::Tty,
            remaining: fallback,
            failure: FocusError::NothingTried,
        },
        action: FocusAction::QueryTty { pid },
    }
}

/// The attempt that looks for a session named like the last segment of
/// the path.
fn path_hint(path: &str) -> (r: Attempt)
    ensures
        r.deep_view() == (AttemptModel::PathHint { name: last_segment(path@) }),
{
    let chars = to_chars(path);
    Attempt::PathHint { name: from_chars(&last_path_segment(&chars)) }
}

/// Starts the request to bring forward the terminal of a session: by the
/// terminal device of its process, and should that fail by the name of
/// its project.
pub fn focus_session(pid: u32, project_path: &str) -> (r: FocusStep)
    ensures
        r.deep_view() == start_of(
            pid,
            seq![AttemptModel::PathHint { name: last_segment(project_path@) }],
        ),
{
    start(pid, only(path_hint(project_path)))
}

/// Starts the request to bring forward the terminal of a process: its
/// terminal device is asked for, then looked for in the multiplexer and
/// in each emulator.
pub fn focus_terminal_for_pid(pid: u32) -> (r: FocusStep)
    ensures
        r.deep_view() == start_of(pid, Seq::<AttemptModel>::empty()),
{
    let none: Vec<Attempt> = Vec::new();
    assert(none.deep_view() =~= Seq::<AttemptModel>::empty());
    start(pid, none)
}

/// Starts the request to bring forward the session of the first emulator
/// that is named like the last segment of the path.
pub fn focus_terminal_by_path(path: &str) -> (r: FocusStep)
    ensures
        r.deep_view() == begin_of(
            seq![AttemptModel::PathHint { name: last_segment(path@) }],
            FocusError::NothingTried,
        ),
{
    begin_next(only(path_hint(path)), FocusError::NothingTried)
}

/// Starts the request to select the multiplexer's pane with the terminal
/// device and to bring forward the emulator that shows it.
pub fn focus_tmux_pane_by_tty(tty: &str) -> (r: FocusStep)
    ensures
        r.deep_view() == begin_of(
            seq![AttemptModel::Pane { tty: tty@ }],
            FocusError::NothingTried,
        ),
{
    begin_next(only(Attempt::Pane { tty: tty.to_owned() }), FocusError::NothingTried)
}

/// Starts the request to bring forward the session of the first emulator
/// with the terminal device.
pub fn focus_iterm_by_tty(tty: &str) -> (r: FocusStep)
    ensures
        r.deep_view() == begin_of(
            seq![AttemptModel::Iterm { tty: tty@ }],
            FocusError::NothingTried,
        ),
{
    begin_next(only(Attempt::Iterm { tty: tty.to_owned() }), FocusError::NothingTried)
}

/// Starts the request to bring forward the tab of the second emulator
/// with the terminal device.
pub fn focus_terminal_app_by_tty(tty: &str) -> (r: FocusStep)
    ensures
        r.deep_view() == begin_of(
            seq![AttemptModel::TerminalApp { tty: tty@ }],
            FocusError::NothingTried,
        ),
{
    begin_next(only(Attempt::TerminalApp { tty: tty.to_owned() }), FocusError::NothingTried)
}

/// Starts the request to bring forward whichever emulator runs.
pub fn focus_any_terminal_with_tmux() -> (r: FocusStep)
    ensures
        r.deep_view() == begin_of(seq![AttemptModel::AnyTerminal], FocusError::NothingTried),
{
    begin_next(only(Attempt::AnyTerminal), FocusError::NothingTried)
}

} // verus!
