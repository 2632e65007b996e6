use vstd::prelude::*;

verus! {

/// The prompt shown while waiting for a question.
pub const PROMPT: &'static str = "Ask> ";

/// Where the question loop stands.
#[derive(Clone, Copy, Debug, PartialEq, Eq, Structural)]
pub enum QueryState {
    /// The prompt is shown and a line is awaited.
    AwaitingInput,
    /// A question went to the chain and its answer is awaited.
    Processing,
    /// The input ended; the loop is over.
    Finished,
}

/// What happened since the last step.
#[derive(Clone, Debug, PartialEq, Eq)]
pub enum QueryEvent {
    /// The operator entered a line.
    LineRead(String),
    /// The input stream ended.
    EndOfInput,
    /// The chain answered.
    Answered(String),
    /// The chain failed, with its message.
    Failed(String),
}

/// What the caller does next.
#[derive(Clone, Debug, PartialEq, Eq)]
pub enum QueryAction {
    /// Send this question to the chain.
    Invoke(String),
    /// Show this answer, then prompt again.
    Show(String),
    /// Report this failure, then prompt again.
    ShowError(String),
    /// Shut down cleanly.
    Stop,
    /// Nothing to do for this event in this state.
    Wait,
}

/// The next state and action of the question loop.
pub open spec fn transition(state: QueryState, event: QueryEvent) -> (QueryState, QueryAction) {
    match (state, event) {
        (QueryState::AwaitingInput, QueryEvent::LineRead(q)) => (
            QueryState::Processing,
            QueryAction::Invoke(q),
        ),
        (QueryState::AwaitingInput, QueryEvent::EndOfInput) => (
            QueryState::Finished,
            QueryAction::Stop,
        ),
        (QueryState::Processing, QueryEvent::Answered(a)) => (
            QueryState::AwaitingInput,
            QueryAction::Show(a),
        ),
        (QueryState::Processing, QueryEvent::Failed(e)) => (
            QueryState::AwaitingInput,
            QueryAction::ShowError(e),
        ),
        (s, _) => (s, QueryAction::Wait),
    }
}

/// One step of the question loop: a line starts a question, the end of the
/// input stops the loop, and an answer or a failure of the chain is shown
/// before the next prompt. Any other event leaves the state as it is.
pub fn step(state: QueryState, event: QueryEvent) -> (r: (QueryState, QueryAction))
    ensures
        r == transition(state, event),
{
    match state {
        QueryState::AwaitingInput => match event {
            QueryEvent::LineRead(q) => (QueryState::Processing, QueryAction::Invoke(q)),
            QueryEvent::EndOfInput => (QueryState::Finished, QueryAction::Stop),
            _ => (state, QueryAction::Wait),
        },
        QueryState::Processing => match event {
            QueryEvent::Answered(a) => (QueryState::AwaitingInput, QueryAction::Show(a)),
            QueryEvent::Failed(e) => (QueryState::AwaitingInput, QueryAction::ShowError(e)),
            _ => (state, QueryAction::Wait),
        },
        QueryState::Finished => (state, QueryAction::Wait),
    }
}

} // verus!
