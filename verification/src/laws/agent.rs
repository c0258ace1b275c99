//! What a turn sends, and what it leaves in the conversation.
use vstd::prelude::*;

use crate::agent::{
    announced, dispatched, payload_of, turn_request, DispatchModel, Talk, TodoModel, TurnModel,
};
use crate::error::ErrorModel;
use crate::json::JsonModel;
use crate::permission::Decision;
use crate::provider::types::{ChatResponseModel, MessageModel, Role};
use crate::text::decimal_of;
use crate::tools::builtin::planned;
use crate::tools::{tool_named, ContextModel, ToolModel};

verus! {

/// The model is asked with the whole history and with every tool, in order.
pub proof fn law_model_is_asked(
    system: Option<Seq<char>>,
    history: Seq<MessageModel>,
    tools: Seq<ToolModel>,
    i: int,
)
    ensures
        ({
            let r = turn_request(system, history, tools);
            &&& r.system == system
            &&& r.messages == history
            &&& r.tools.len() == tools.len()
            &&& 0 <= i < tools.len() ==> r.tools[i] == tools[i].spec()
            &&& r.model.len() == 0
            &&& r.max_tokens == 4096
            &&& r.temperature is None
        }),
{
    reveal_strlit("");
}

/// What the user says ends up behind the history, as it is, and then the model is asked.
pub proof fn law_input_is_heard(history: Seq<MessageModel>, input: Seq<char>, max: nat)
    ensures
        ({
            let t = Talk::started(history, input, max);
            &&& t.history.len() == history.len() + 1
            &&& t.history.take(history.len() as int) == history
            &&& t.history.last().role == Role::User
            &&& t.history.last().content == input
            &&& t.history.last().tool_calls.len() == 0
            &&& max > 0 ==> t.turn.todo is Ask
            &&& t.turn.left == max
            &&& t.turn.max == max
        }),
{
    let t = Talk::started(history, input, max);
    assert(t.history.take(history.len() as int) =~= history);
}

/// A reply ends up behind the history. Its text ends the turn where it calls no tool; else
/// its calls are run from the first on.
pub proof fn law_reply_is_heard(t: Talk, reply: ChatResponseModel)
    requires
        t.turn.todo is Ask,
    ensures
        ({
            let u = t.replied(reply);
            &&& u.history.len() == t.history.len() + 1
            &&& u.history.take(t.history.len() as int) == t.history
            &&& u.history.last().role == Role::Assistant
            &&& u.history.last().content == reply.content
            &&& u.history.last().tool_calls == reply.tool_calls
            &&& reply.tool_calls.len() == 0 ==> u.turn.todo == TodoModel::Finish(reply.content)
            &&& reply.tool_calls.len() > 0 ==> u.turn.todo == (TodoModel::Run {
                calls: reply.tool_calls,
                at: 0,
            })
            &&& u.turn.left == t.turn.left
        }),
{
    let u = t.replied(reply);
    assert(u.history.take(t.history.len() as int) =~= t.history);
}

/// The result of a call ends up behind the history under the id of the call: the text where
/// it succeeded, else the error, marked as one. Then the next call is due, or the model is
/// asked again while it may still reply.
pub proof fn law_result_is_heard(t: Talk, result: Result<Seq<char>, ErrorModel>)
    requires
        t.turn.todo is Run,
    ensures
        ({
            let u = t.answered(result);
            let calls = t.turn.todo->calls;
            let at = t.turn.todo->at;
            let m = u.history.last();
            &&& u.history.len() == t.history.len() + 1
            &&& u.history.take(t.history.len() as int) == t.history
            &&& m.role == Role::Tool
            &&& m.tool_call_id == Some(calls[at as int].id)
            &&& result matches Ok(text) ==> m.content == text
            &&& result matches Err(e) ==> m.content == "ERROR: "@ + e.message()
            &&& at + 1 < calls.len() ==> u.turn.todo == (TodoModel::Run { calls, at: at + 1 })
                && u.turn.left == t.turn.left
            &&& at + 1 >= calls.len() && t.turn.left > 1 ==> u.turn.todo is Ask && u.turn.left
                == t.turn.left - 1
            &&& at + 1 >= calls.len() && t.turn.left <= 1 ==> u.turn.todo == TodoModel::Finish(
                "(stopped after "@ + decimal_of(t.turn.max) + " tool iterations)"@,
            )
        }),
{
    let u = t.answered(result);
    assert(u.history.take(t.history.len() as int) =~= t.history);
}

/// A call is announced with its name, with what it is about to do and with whether it can
/// change anything; a tool that nobody has is an error.
pub proof fn law_call_is_announced(tools: Seq<ToolModel>, name: Seq<char>, args: JsonModel)
    ensures
        tool_named(tools, name) matches Some(tool) ==> (announced(tools, name, args) matches Ok(req)
            && req.tool == name && req.mutating == tool.mutating() && req.summary == tool.summary(
            args,
        )),
        tool_named(tools, name) is None ==> announced(tools, name, args)->Err_0 == ErrorModel::Tool(
            "unknown tool '"@ + name + "'"@,
        ) && announced(tools, name, args) is Err,
{
}

/// A call that is denied does nothing; one that is allowed does what its tool plans, or
/// fails as that does.
pub proof fn law_decision_decides(tool: ToolModel, args: JsonModel, ctx: ContextModel)
    ensures
        dispatched(tool, args, ctx, Decision::Deny) is Denied,
        planned(tool, args, ctx) matches Ok(action) ==> dispatched(
            tool,
            args,
            ctx,
            Decision::Allow,
        ) == DispatchModel::Run(action),
        planned(tool, args, ctx) matches Err(e) ==> dispatched(tool, args, ctx, Decision::Allow)
            == DispatchModel::Failed(e),
{
}

/// A result is reported under the name of its call, with what goes back to the model, as
/// good exactly if it is; without a call there is nothing to report.
pub proof fn law_result_is_reported(turn: TurnModel, result: Result<Seq<char>, ErrorModel>)
    ensures
        turn.report(result) is Some <==> turn.todo is Run,
        turn.report(result) matches Some(report) ==> report.name
            == turn.todo->calls[turn.todo->at as int].name && report.payload == payload_of(result)
            && (report.ok <==> result is Ok),
        result matches Ok(text) ==> payload_of(result) == text,
        result matches Err(e) ==> payload_of(result) == "ERROR: "@ + e.message(),
{
}

/// The end of a text is reported exactly if the model was asked and said something.
pub proof fn law_text_is_reported(turn: TurnModel, reply: ChatResponseModel)
    ensures
        turn.hears(reply) <==> turn.todo is Ask && reply.content.len() > 0,
{
}

} // verus!
