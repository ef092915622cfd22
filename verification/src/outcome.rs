//! Calls, what a dispatcher makes of them, and what the runtime hands back.

use vstd::prelude::*;
use vstd::string::*;

verus! {

/// One tool invocation that the model asked for.
#[derive(Clone, Debug, PartialEq, Eq)]
pub struct ToolCall {
    pub tool_name: String,
    pub call_id: String,
    /// The arguments, which the runtime passes on unread.
    pub payload: String,
}

/// What a `ToolCall` holds.
pub ghost struct ToolCallView {
    pub tool_name: Seq<char>,
    pub call_id: Seq<char>,
    pub payload: Seq<char>,
}

impl View for ToolCall {
    type V = ToolCallView;

    open spec fn view(&self) -> ToolCallView {
        ToolCallView { tool_name: self.tool_name@, call_id: self.call_id@, payload: self.payload@ }
    }
}

impl ToolCallView {
    /// A call names its tool and carries an identifier.
    pub open spec fn well_formed(self) -> bool {
        self.tool_name.len() > 0 && self.call_id.len() > 0
    }
}

/// A failure that the dispatcher reports.
#[derive(Clone, Debug, PartialEq, Eq)]
pub enum DispatchError {
    /// The tool failed in a way that the model is told of.
    NonFatal(String),
    /// The turn cannot go on.
    Fatal(String),
}

/// What a `DispatchError` holds.
pub ghost enum DispatchErrorView {
    NonFatal(Seq<char>),
    Fatal(Seq<char>),
}

impl View for DispatchError {
    type V = DispatchErrorView;

    open spec fn view(&self) -> DispatchErrorView {
        match self {
            DispatchError::NonFatal(message) => DispatchErrorView::NonFatal(message@),
            DispatchError::Fatal(message) => DispatchErrorView::Fatal(message@),
        }
    }
}

/// What a call came to, as the agent loop relays it to the model.
#[derive(Clone, Debug, PartialEq, Eq)]
pub enum CallOutcome {
    /// What the tool produced.
    Output { call_id: String, content: String },
    /// A failure that the tool reported.
    Failure { call_id: String, message: String },
}

/// What a `CallOutcome` holds.
pub ghost enum CallOutcomeView {
    Output { call_id: Seq<char>, content: Seq<char> },
    Failure { call_id: Seq<char>, message: Seq<char> },
}

impl View for CallOutcome {
    type V = CallOutcomeView;

    open spec fn view(&self) -> CallOutcomeView {
        match self {
            CallOutcome::Output { call_id, content } => CallOutcomeView::Output {
                call_id: call_id@,
                content: content@,
            },
            CallOutcome::Failure { call_id, message } => CallOutcomeView::Failure {
                call_id: call_id@,
                message: message@,
            },
        }
    }
}

/// A failure that ends the turn.
#[derive(Clone, Debug, PartialEq, Eq)]
pub enum RuntimeError {
    /// The dispatcher reported a fatal failure.
    Fatal { call_id: String, tool_name: String, message: String },
    /// The unit of work ended without posting a result.
    LostResult { call_id: String, tool_name: String },
}

/// What a `RuntimeError` holds.
pub ghost enum RuntimeErrorView {
    Fatal { call_id: Seq<char>, tool_name: Seq<char>, message: Seq<char> },
    LostResult { call_id: Seq<char>, tool_name: Seq<char> },
}

impl View for RuntimeError {
    type V = RuntimeErrorView;

    open spec fn view(&self) -> RuntimeErrorView {
        match self {
            RuntimeError::Fatal { call_id, tool_name, message } => RuntimeErrorView::Fatal {
                call_id: call_id@,
                tool_name: tool_name@,
                message: message@,
            },
            RuntimeError::LostResult { call_id, tool_name } => RuntimeErrorView::LostResult {
                call_id: call_id@,
                tool_name: tool_name@,
            },
        }
    }
}

impl RuntimeErrorView {
    /// The identifier of the call that failed.
    pub open spec fn call_id(self) -> Seq<char> {
        match self {
            RuntimeErrorView::Fatal { call_id, .. } => call_id,
            RuntimeErrorView::LostResult { call_id, .. } => call_id,
        }
    }

    /// The reason, in words.
    pub open spec fn message(self) -> Seq<char> {
        match self {
            RuntimeErrorView::Fatal { message, .. } => message,
            RuntimeErrorView::LostResult { .. } => "tool task failed to receive"@,
        }
    }
}

/// What a dispatcher returns, by its view.
pub open spec fn dispatch_view(result: Result<CallOutcome, DispatchError>) -> Result<
    CallOutcomeView,
    DispatchErrorView,
> {
    match result {
        Ok(outcome) => Ok(outcome@),
        Err(error) => Err(error@),
    }
}

/// What the caller of a submission receives, by its view.
pub open spec fn reply_view(reply: Result<CallOutcome, RuntimeError>) -> Result<
    CallOutcomeView,
    RuntimeErrorView,
> {
    match reply {
        Ok(outcome) => Ok(outcome@),
        Err(error) => Err(error@),
    }
}

/// What the caller of a submission receives for what the dispatcher returned.
/// A success is handed on as it is. A fatal failure ends the turn, under the
/// name of the call. Any other failure becomes an outcome of the call.
pub open spec fn resolved(
    call_id: Seq<char>,
    tool_name: Seq<char>,
    result: Result<CallOutcomeView, DispatchErrorView>,
) -> Result<CallOutcomeView, RuntimeErrorView> {
    match result {
        Ok(outcome) => Ok(outcome),
        Err(DispatchErrorView::Fatal(message)) => Err(
            RuntimeErrorView::Fatal { call_id, tool_name, message },
        ),
        Err(DispatchErrorView::NonFatal(message)) => Ok(
            CallOutcomeView::Failure { call_id, message },
        ),
    }
}

impl ToolCall {
    /// Whether the call names its tool and carries an identifier.
    pub fn is_well_formed(&self) -> (r: bool)
        ensures
            r == self@.well_formed(),
    {
        !self.tool_name.as_str().is_empty() && !self.call_id.as_str().is_empty()
    }
}

impl RuntimeError {
    /// The identifier of the call that failed.
    pub fn call_id(&self) -> (r: &str)
        ensures
            r@ == self@.call_id(),
    {
        match self {
            RuntimeError::Fatal { call_id, .. } => call_id.as_str(),
            RuntimeError::LostResult { call_id, .. } => call_id.as_str(),
        }
    }

    /// The reason, in words.
    pub fn message(&self) -> (r: String)
        ensures
            r@ == self@.message(),
    {
        match self {
            RuntimeError::Fatal { message, .. } => message.clone(),
            RuntimeError::LostResult { .. } => String::from_str("tool task failed to receive"),
        }
    }
}

/// Maps what the dispatcher returned for a call to what its caller receives.
pub fn resolve(call_id: String, tool_name: String, result: Result<CallOutcome, DispatchError>) -> (r:
    Result<CallOutcome, RuntimeError>)
    ensures
        reply_view(r) == resolved(call_id@, tool_name@, dispatch_view(result)),
{
    match result {
        Ok(outcome) => Ok(outcome),
        Err(DispatchError::Fatal(message)) => Err(
            RuntimeError::Fatal { call_id, tool_name, message },
        ),
        Err(DispatchError::NonFatal(message)) => Ok(CallOutcome::Failure { call_id, message }),
    }
}

/// The failure that the caller receives where the unit of work ended without
/// posting a result.
pub fn lost_result(call_id: String, tool_name: String) -> (r: RuntimeError)
    ensures
        r@ == (RuntimeErrorView::LostResult { call_id: call_id@, tool_name: tool_name@ }),
{
    RuntimeError::LostResult { call_id, tool_name }
}

} // verus!
