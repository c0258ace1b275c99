//! The agentic loop.
//!
//! One turn: send history + tool specs to the active provider; if it requests
//! tools, gate each through [`crate::permission`], execute it, feed results back,
//! and repeat until the model returns plain text. Every action is surfaced through
//! a [`Reporter`] so nothing is hidden.
//!
//! A [`Turn`] decides what is to be done next and takes in what came of it; whoever
//! drives it talks to the provider and carries out the tools' actions.
use vstd::prelude::*;

use crate::error::{outcome, Error, ErrorModel};
use crate::json::{Json, JsonModel};
use crate::permission::{
    covers, ApprovalRequest, ApprovalRequestModel, Approver, Decision, PermissionGate,
};
use crate::provider::types::{
    ChatRequest, ChatRequestModel, ChatResponse, ChatResponseModel, Message, MessageModel, Role,
    ToolCall, ToolCallModel,
};
use crate::session::Session;
use crate::text::{cat2, cat3, decimal, decimal_of, opt_view, views};
use crate::tools::builtin::{law_changes_are_gated, planned, ToolAction, ToolActionModel};
use crate::tools::{
    specs_of, tool_named, ContextModel, Tool, ToolContext, ToolModel, ToolRegistry,
};

verus! {

/// Observes agent activity for display. The CLI implements this to print
/// assistant text, tool calls, diffs, and denials.
pub trait Reporter: Send + Sync {
    /// A chunk of assistant text as it streams in.
    fn on_assistant_delta(&self, _text: &str) {
    }

    /// The assistant's text for this step has finished streaming.
    fn on_assistant_end(&self) {
    }

    fn on_tool_call(&self, _name: &str, _summary: &str) {
    }

    fn on_tool_result(&self, _name: &str, _result: &str, _ok: bool) {
    }

    fn on_denied(&self, _name: &str, _summary: &str) {
    }
}

/// A [`Reporter`] that prints nothing.
#[derive(Debug)]
pub struct SilentReporter;

impl Reporter for SilentReporter {

}

/// Per-turn execution config and dependencies.
pub struct Agent<'a, A: Approver> {
    pub registry: &'a ToolRegistry,
    pub gate: &'a PermissionGate<A>,
    pub ctx: &'a ToolContext,
    pub system: Option<String>,
    pub max_iters: usize,
}

/// What became of a tool call when permission was asked for it.
#[derive(Debug)]
pub enum Dispatch {
    /// The user said no.
    Denied,
    /// The arguments will not do.
    Failed(Error),
    /// This is to be done.
    Run(ToolAction),
}

/// The model of a [`Dispatch`].
#[verifier::ext_equal]
pub enum DispatchModel {
    Denied,
    Failed(ErrorModel),
    Run(ToolActionModel),
}

impl View for Dispatch {
    type V = DispatchModel;

    open spec fn view(&self) -> DispatchModel {
        match *self {
            Dispatch::Denied => DispatchModel::Denied,
            Dispatch::Failed(e) => DispatchModel::Failed(e@),
            Dispatch::Run(action) => DispatchModel::Run(action@),
        }
    }
}

/// The permission that a call needs.
pub open spec fn approval_for(tool: ToolModel, name: Seq<char>, args: JsonModel) -> ApprovalRequestModel {
    ApprovalRequestModel { tool: name, mutating: tool.mutating(), summary: tool.summary(args) }
}

/// The permission that a call by name needs.
pub open spec fn announced(tools: Seq<ToolModel>, name: Seq<char>, args: JsonModel) -> Result<
    ApprovalRequestModel,
    ErrorModel,
> {
    match tool_named(tools, name) {
        Some(tool) => Ok(approval_for(tool, name, args)),
        None => Err(ErrorModel::Tool("unknown tool '"@ + name + "'"@)),
    }
}

/// What becomes of a call on a decision.
pub open spec fn dispatched(
    tool: ToolModel,
    args: JsonModel,
    ctx: ContextModel,
    d: Decision,
) -> DispatchModel {
    match d {
        Decision::Deny => DispatchModel::Denied,
        Decision::Allow => match planned(tool, args, ctx) {
            Ok(action) => DispatchModel::Run(action),
            Err(e) => DispatchModel::Failed(e),
        },
    }
}

/// What becomes of a call on a decision.
pub fn dispatch(tool: &Tool, args: &Json, ctx: &ToolContext, d: Decision) -> (r: Dispatch)
    ensures
        r@ == dispatched(tool@, args@, ctx@, d),
{
    match d {
        Decision::Deny => Dispatch::Denied,
        Decision::Allow => match tool.plan(args, ctx) {
            Ok(action) => Dispatch::Run(action),
            Err(e) => Dispatch::Failed(e),
        },
    }
}

/// The result that a denied call has.
pub fn denied_result() -> (r: String)
    ensures
        r@ == "denied by user"@,
{
    "denied by user".to_owned()
}

/// The request for a conversation. The adapter puts in its own model.
pub open spec fn turn_request(
    system: Option<Seq<char>>,
    history: Seq<MessageModel>,
    tools: Seq<ToolModel>,
) -> ChatRequestModel {
    ChatRequestModel {
        model: ""@,
        system,
        messages: history,
        tools: specs_of(tools),
        max_tokens: 4096,
        temperature: None,
    }
}

impl<'a, A: Approver> Agent<'a, A> {
    /// The request to send for the conversation so far.
    pub fn request(&self, session: &Session) -> (r: ChatRequest)
        ensures
            r@ == turn_request(opt_view(self.system), session@, self.registry@),
    {
        let mut req = ChatRequest::new("");
        req.system = self.system.clone();
        req.messages = session.messages.clone();
        req.tools = self.registry.specs();
        assert(views(req.messages@) =~= session@);
        req
    }

    /// Look up the tool of a call, and say what permission it needs.
    pub fn announce(&self, name: &str, args: &Json) -> (r: Result<ApprovalRequest, Error>)
        ensures
            outcome(r) == announced(self.registry@, name@, args@),
    {
        match self.registry.get(name) {
            Some(tool) => Ok(
                ApprovalRequest {
                    tool: name.to_owned(),
                    mutating: tool.mutating(),
                    summary: tool.summarize(args),
                },
            ),
            None => Err(Error::Tool(cat3("unknown tool '", name, "'"))),
        }
    }

    /// Permission-check a call, and say what is to be done for it. A call of a tool
    /// that does not exist fails as it does in [`Agent::announce`].
    pub fn dispatch_tool(&self, name: &str, args: &Json) -> (r: Dispatch)
        ensures
            match tool_named(self.registry@, name@) {
                Some(tool) => {
                    let req = approval_for(tool, name@, args@);
                    ||| self.gate.may(req, Decision::Allow) && r@ == dispatched(
                        tool,
                        args@,
                        self.ctx@,
                        Decision::Allow,
                    )
                    ||| self.gate.may(req, Decision::Deny) && r@ == DispatchModel::Denied
                },
                None => r@ == DispatchModel::Failed(
                    ErrorModel::Tool("unknown tool '"@ + name@ + "'"@),
                ),
            },
    {
        let tool = match self.registry.get(name) {
            Some(t) => t,
            None => return Dispatch::Failed(Error::Tool(cat3("unknown tool '", name, "'"))),
        };
        let approval = ApprovalRequest {
            tool: name.to_owned(),
            mutating: tool.mutating(),
            summary: tool.summarize(args),
        };
        let d = self.gate.check(&approval);
        dispatch(tool, args, self.ctx, d)
    }
}

/// What goes back to the model for a tool's result.
pub open spec fn payload_of(result: Result<Seq<char>, ErrorModel>) -> Seq<char> {
    match result {
        Ok(text) => text,
        Err(e) => "ERROR: "@ + e.message(),
    }
}

pub fn payload(result: &Result<String, Error>) -> (r: String)
    ensures
        r@ == payload_of(outcome(*result)),
{
    match result {
        Ok(text) => text.clone(),
        Err(e) => cat2("ERROR: ", e.message()),
    }
}

/// What a turn says when the model has asked for tools too often.
pub open spec fn stopped_text(max: nat) -> Seq<char> {
    "(stopped after "@ + decimal_of(max) + " tool iterations)"@
}

/// What is to be done next in a turn.
#[derive(Debug)]
pub enum Todo {
    /// Ask the model.
    Ask,
    /// Run this call.
    Run(ToolCall),
    /// Nothing: this is the final text.
    Finish(String),
}

/// Where a turn stands.
#[verifier::ext_equal]
pub enum TodoModel {
    Ask,
    Run { calls: Seq<ToolCallModel>, at: nat },
    Finish(Seq<char>),
}

/// The model of a [`Turn`].
#[verifier::ext_equal]
pub struct TurnModel {
    pub max: nat,
    /// How many replies the model may still give.
    pub left: nat,
    pub todo: TodoModel,
}

/// A turn and the conversation it is part of.
#[verifier::ext_equal]
pub struct Talk {
    pub turn: TurnModel,
    pub history: Seq<MessageModel>,
}

impl TurnModel {
    pub open spec fn started(max: nat) -> TurnModel {
        TurnModel {
            max,
            left: max,
            todo: if max == 0 {
                TodoModel::Finish(stopped_text(max))
            } else {
                TodoModel::Ask
            },
        }
    }

    /// The turn once all calls of a reply are answered.
    pub open spec fn round_done(self) -> TurnModel {
        if self.left <= 1 {
            TurnModel { left: 0, todo: TodoModel::Finish(stopped_text(self.max)), ..self }
        } else {
            TurnModel { left: (self.left - 1) as nat, todo: TodoModel::Ask, ..self }
        }
    }
}

impl Talk {
    /// A turn begins with what the user says.
    pub open spec fn started(history: Seq<MessageModel>, input: Seq<char>, max: nat) -> Talk {
        Talk {
            turn: TurnModel::started(max),
            history: history.push(MessageModel::plain(Role::User, input)),
        }
    }

    /// The model has replied. A reply without calls ends the turn.
    pub open spec fn replied(self, reply: ChatResponseModel) -> Talk {
        if self.turn.todo is Ask {
            Talk {
                turn: TurnModel {
                    todo: if reply.tool_calls.len() == 0 {
                        TodoModel::Finish(reply.content)
                    } else {
                        TodoModel::Run { calls: reply.tool_calls, at: 0 }
                    },
                    ..self.turn
                },
                history: self.history.push(reply.message()),
            }
        } else {
            self
        }
    }

    /// The current call has a result.
    pub open spec fn answered(self, result: Result<Seq<char>, ErrorModel>) -> Talk {
        match self.turn.todo {
            TodoModel::Run { calls, at } => Talk {
                turn: if at + 1 >= calls.len() {
                    self.turn.round_done()
                } else {
                    TurnModel { todo: TodoModel::Run { calls, at: at + 1 }, ..self.turn }
                },
                history: self.history.push(
                    MessageModel::result(calls[at as int].id, payload_of(result)),
                ),
            },
            _ => self,
        }
    }

    /// The calls have results, one after the other.
    pub open spec fn answered_all(self, results: Seq<Result<Seq<char>, ErrorModel>>) -> Talk
        decreases results.len(),
    {
        if results.len() == 0 {
            self
        } else {
            self.answered_all(results.drop_last()).answered(results.last())
        }
    }
}

/// What is to be shown of a tool's result.
#[derive(Debug)]
pub struct ToolReport {
    pub name: String,
    pub payload: String,
    pub ok: bool,
}

/// The model of a [`ToolReport`].
#[verifier::ext_equal]
pub struct ToolReportModel {
    pub name: Seq<char>,
    pub payload: Seq<char>,
    pub ok: bool,
}

impl View for ToolReport {
    type V = ToolReportModel;

    open spec fn view(&self) -> ToolReportModel {
        ToolReportModel { name: self.name@, payload: self.payload@, ok: self.ok }
    }
}

impl TurnModel {
    /// The reply holds text whose end is to be reported.
    pub open spec fn hears(self, reply: ChatResponseModel) -> bool {
        self.todo is Ask && reply.content.len() > 0
    }

    /// What is to be shown of the result of the current call, where there is one.
    pub open spec fn report(self, result: Result<Seq<char>, ErrorModel>) -> Option<
        ToolReportModel,
    > {
        match self.todo {
            TodoModel::Run { calls, at } => Some(
                ToolReportModel {
                    name: calls[at as int].name,
                    payload: payload_of(result),
                    ok: result is Ok,
                },
            ),
            _ => None,
        }
    }
}

/// One user turn, from its input to the final text.
#[derive(Debug)]
pub struct Turn {
    max: usize,
    left: usize,
    /// The calls of the last reply, and how many of them have results.
    calls: Vec<ToolCall>,
    at: usize,
    text: Option<String>,
}

impl View for Turn {
    type V = TurnModel;

    closed spec fn view(&self) -> TurnModel {
        TurnModel {
            max: self.max as nat,
            left: self.left as nat,
            todo: match self.text {
                Some(text) => TodoModel::Finish(text@),
                None => if self.at < self.calls@.len() {
                    TodoModel::Run { calls: views(self.calls@), at: self.at as nat }
                } else {
                    TodoModel::Ask
                },
            },
        }
    }
}

fn stopped(max: usize) -> (r: String)
    ensures
        r@ == stopped_text(max as nat),
{
    cat3("(stopped after ", decimal(max as u128).as_str(), " tool iterations)")
}

impl Turn {
    /// Begin a turn: the user's input joins the conversation. The model may reply
    /// `max_iters` times.
    pub fn start(session: &mut Session, user_input: &str, max_iters: usize) -> (r: Turn)
        ensures
            (Talk { turn: r@, history: final(session)@ }) == Talk::started(
                old(session)@,
                user_input@,
                max_iters as nat,
            ),
    {
        session.push(Message::user(user_input));
        Turn {
            max: max_iters,
            left: max_iters,
            calls: Vec::new(),
            at: 0,
            text: if max_iters == 0 {
                Some(stopped(max_iters))
            } else {
                None
            },
        }
    }

    /// What is to be done next.
    pub fn todo(&self) -> (r: Todo)
        ensures
            match self@.todo {
                TodoModel::Ask => r is Ask,
                TodoModel::Run { calls, at } => r is Run && r->Run_0@ == calls[at as int],
                TodoModel::Finish(text) => r is Finish && r->Finish_0@ == text,
            },
    {
        match &self.text {
            Some(text) => Todo::Finish(text.clone()),
            None => {
                if self.at < self.calls.len() {
                    Todo::Run(self.calls[self.at].clone())
                } else {
                    Todo::Ask
                }
            },
        }
    }

    /// Take in the model's reply, where it was asked for one. Returns whether it
    /// held text, whose end is to be reported.
    pub fn on_reply(&mut self, session: &mut Session, reply: &ChatResponse) -> (r: bool)
        ensures
            (Talk { turn: final(self)@, history: final(session)@ }) == (Talk {
                turn: old(self)@,
                history: old(session)@,
            }).replied(reply@),
            r == old(self)@.hears(reply@),
    {
        if self.text.is_some() || self.at < self.calls.len() {
            return false;
        }
        session.push(reply.to_message());
        if reply.tool_calls.len() == 0 {
            self.text = Some(reply.content.clone());
        } else {
            self.calls = reply.tool_calls.clone();
            self.at = 0;
            assert(views(self.calls@) =~= reply@.tool_calls);
        }
        !reply.content.as_str().is_empty()
    }

    /// Take in the result of the current call, where there is one. Returns what is
    /// to be shown of it.
    pub fn on_result(&mut self, session: &mut Session, result: Result<String, Error>) -> (r: Option<
        ToolReport,
    >)
        ensures
            (Talk { turn: final(self)@, history: final(session)@ }) == (Talk {
                turn: old(self)@,
                history: old(session)@,
            }).answered(outcome(result)),
            opt_view(r) == old(self)@.report(outcome(result)),
    {
        if self.text.is_some() || self.at >= self.calls.len() {
            return None;
        }
        let text = payload(&result);
        let call = &self.calls[self.at];
        let report = ToolReport {
            name: call.name.clone(),
            payload: text.clone(),
            ok: result.is_ok(),
        };
        session.push(Message::tool_result(call.id.as_str(), text.as_str()));
        self.at = self.at + 1;
        if self.at >= self.calls.len() {
            if self.left <= 1 {
                self.left = 0;
                self.text = Some(stopped(self.max));
            } else {
                self.left = self.left - 1;
            }
        }
        Some(report)
    }
}

/// The messages that answer the calls of a reply.
pub open spec fn answers(
    calls: Seq<ToolCallModel>,
    results: Seq<Result<Seq<char>, ErrorModel>>,
) -> Seq<MessageModel> {
    Seq::new(results.len(), |i: int| MessageModel::result(calls[i].id, payload_of(results[i])))
}

proof fn lemma_answered_some(
    t: Talk,
    calls: Seq<ToolCallModel>,
    results: Seq<Result<Seq<char>, ErrorModel>>,
)
    requires
        t.turn.todo == (TodoModel::Run { calls, at: 0 }),
        results.len() <= calls.len(),
        calls.len() > 0,
    ensures
        t.answered_all(results) == (Talk {
            turn: if results.len() == calls.len() {
                t.turn.round_done()
            } else {
                TurnModel { todo: TodoModel::Run { calls, at: results.len() }, ..t.turn }
            },
            history: t.history + answers(calls, results),
        }),
    decreases results.len(),
{
    if results.len() == 0 {
        assert(t.history + answers(calls, results) =~= t.history);
        assert(t.turn =~= (TurnModel { todo: TodoModel::Run { calls, at: 0 }, ..t.turn }));
    } else {
        lemma_answered_some(t, calls, results.drop_last());
        assert(t.answered_all(results).history =~= t.history + answers(calls, results));
    }
}

/// Each call of a reply is answered once, in order, under its own id: behind the
/// reply stand exactly the results of its calls, and then the model is asked again,
/// unless that was the last time.
pub proof fn law_calls_are_answered(
    t: Talk,
    reply: ChatResponseModel,
    results: Seq<Result<Seq<char>, ErrorModel>>,
)
    requires
        t.turn.todo is Ask,
        reply.tool_calls.len() > 0,
        results.len() == reply.tool_calls.len(),
    ensures
        t.replied(reply).answered_all(results) == (Talk {
            turn: t.turn.round_done(),
            history: t.history.push(reply.message()) + answers(reply.tool_calls, results),
        }),
{
    lemma_answered_some(t.replied(reply), reply.tool_calls, results);
    assert(t.replied(reply).turn.round_done() =~= t.turn.round_done());
}

/// A reply with calls, and what came of them.
pub struct Round {
    pub reply: ChatResponseModel,
    pub results: Seq<Result<Seq<char>, ErrorModel>>,
}

/// A round that is complete: there are calls, and each has a result.
pub open spec fn is_round(r: Round) -> bool {
    r.reply.tool_calls.len() > 0 && r.results.len() == r.reply.tool_calls.len()
}

/// The conversation after rounds.
pub open spec fn played(t: Talk, rounds: Seq<Round>) -> Talk
    decreases rounds.len(),
{
    if rounds.len() == 0 {
        t
    } else {
        played(t, rounds.drop_last()).replied(rounds.last().reply).answered_all(
            rounds.last().results,
        )
    }
}

/// The messages of rounds.
pub open spec fn round_messages(rounds: Seq<Round>) -> Seq<MessageModel>
    decreases rounds.len(),
{
    if rounds.len() == 0 {
        Seq::empty()
    } else {
        round_messages(rounds.drop_last()).push(rounds.last().reply.message()) + answers(
            rounds.last().reply.tool_calls,
            rounds.last().results,
        )
    }
}

/// A turn ends: the model is asked `max` times at most. After fewer rounds it is
/// asked again, and after `max` of them the turn says that it was stopped. The
/// history holds the input and all of the rounds, in order.
pub proof fn law_turn_is_bounded(
    history: Seq<MessageModel>,
    input: Seq<char>,
    max: nat,
    rounds: Seq<Round>,
)
    requires
        rounds.len() <= max,
        forall|i: int| 0 <= i < rounds.len() ==> is_round(#[trigger] rounds[i]),
    ensures
        ({
            let end = played(Talk::started(history, input, max), rounds);
            &&& end.turn == (TurnModel {
                max,
                left: (max - rounds.len()) as nat,
                todo: if rounds.len() == max {
                    TodoModel::Finish(stopped_text(max))
                } else {
                    TodoModel::Ask
                },
            })
            &&& end.history == history.push(MessageModel::plain(Role::User, input))
                + round_messages(rounds)
        }),
    decreases rounds.len(),
{
    let start = Talk::started(history, input, max);
    if rounds.len() == 0 {
        assert(start.history + round_messages(rounds) =~= start.history);
    } else {
        let before = rounds.drop_last();
        assert forall|i: int| 0 <= i < before.len() implies is_round(#[trigger] before[i]) by {
            assert(before[i] == rounds[i]);
        }
        law_turn_is_bounded(history, input, max, before);
        assert(is_round(rounds[rounds.len() - 1]));
        law_calls_are_answered(played(start, before), rounds.last().reply, rounds.last().results);
        assert(played(start, rounds).history =~= start.history + round_messages(rounds));
    }
}

/// A reply without calls ends the turn with its text.
pub proof fn law_plain_reply_ends(t: Talk, reply: ChatResponseModel)
    requires
        t.turn.todo is Ask,
        reply.tool_calls.len() == 0,
    ensures
        t.replied(reply).turn.todo == TodoModel::Finish(reply.content),
        t.replied(reply).history == t.history.push(reply.message()),
{
}

/// Once a turn has ended nothing more joins the conversation.
pub proof fn law_finished_turn_rests(
    t: Talk,
    reply: ChatResponseModel,
    result: Result<Seq<char>, ErrorModel>,
)
    requires
        t.turn.todo is Finish,
    ensures
        t.replied(reply) == t,
        t.answered(result) == t,
{
}

/// A turn only adds to the conversation: what was said stays, in order.
pub proof fn law_history_grows(
    t: Talk,
    reply: ChatResponseModel,
    result: Result<Seq<char>, ErrorModel>,
)
    ensures
        t.history.is_prefix_of(t.replied(reply).history),
        t.history.is_prefix_of(t.answered(result).history),
{
    assert(t.replied(reply).history.take(t.history.len() as int) =~= t.history);
    assert(t.answered(result).history.take(t.history.len() as int) =~= t.history);
}

/// Nothing changes the workspace without a yes: where a call leads to an action that
/// can change it, the call was a mutating one, and either an entry of the allowlist
/// covers it or the approver allowed it.
pub proof fn law_no_change_without_yes<A: Approver>(
    gate: PermissionGate<A>,
    tool: ToolModel,
    name: Seq<char>,
    args: JsonModel,
    ctx: ContextModel,
    d: Decision,
)
    requires
        gate.may(approval_for(tool, name, args), d),
        dispatched(tool, args, ctx, d) is Run,
        dispatched(tool, args, ctx, d)->Run_0.changes(),
    ensures
        d == Decision::Allow,
        approval_for(tool, name, args).mutating,
        gate.asked().may(approval_for(tool, name, args), Decision::Allow) || exists|i: int|
            0 <= i < gate.allowed().len() && covers(
                #[trigger] gate.allowed()[i],
                approval_for(tool, name, args),
            ),
{
    law_changes_are_gated(tool, args, ctx);
}

} // verus!
