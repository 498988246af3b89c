//! What becomes of the work that runs beside the interface: answers, logins and sharing.
use vstd::prelude::*;
use crate::live::ActiveToolExecution;
use crate::startup;
use crate::startup::oauth_provider_label;
use crate::text;
use crate::text::{cat3, cat4, copy_text, same};
use crate::tools::JsonDoc;
use crate::transcript::Message;

verus! {

/// The next count of the sign that turns.
pub fn next_spinner_frame(count: usize) -> (r: usize)
    ensures
        r == (if count < usize::MAX {
            count + 1
        } else {
            0
        }),
{
    if count < usize::MAX {
        count + 1
    } else {
        0
    }
}

/// How far an answer is.
#[derive(Clone, Copy, Debug, PartialEq, Eq, Structural)]
pub enum AnswerStage {
    /// It is being written.
    Running,
    /// It is complete and is shown once more.
    Lingering,
    /// It is complete and has been shown.
    Complete,
}

/// What came from the one who writes the answer.
#[derive(Clone, Copy, Debug, PartialEq, Eq, Structural)]
pub enum Arrival {
    /// The result.
    Result,
    /// Nothing yet.
    Nothing,
    /// Nothing, and nothing will come.
    Lost,
}

/// What is to be done with an answer.
#[derive(Clone, Copy, Debug, PartialEq, Eq, Structural)]
pub enum AnswerAction {
    /// Go on waiting; the sign turns.
    Wait,
    /// Keep the result, and show the answer once more; the sign turns.
    Keep,
    /// Put the result into the session.
    Finish,
    /// Give the answer up.
    GiveUp,
}

/// How far an answer is then, and what is to be done with it. What came counts only while the answer
/// is being written.
pub open spec fn answer_step(stage: AnswerStage, arrival: Arrival) -> (AnswerStage, AnswerAction) {
    match stage {
        AnswerStage::Lingering => (AnswerStage::Complete, AnswerAction::Wait),
        AnswerStage::Complete => (AnswerStage::Complete, AnswerAction::Finish),
        AnswerStage::Running => match arrival {
            Arrival::Result => (AnswerStage::Lingering, AnswerAction::Keep),
            Arrival::Nothing => (AnswerStage::Running, AnswerAction::Wait),
            Arrival::Lost => (AnswerStage::Running, AnswerAction::GiveUp),
        },
    }
}

/// How far an answer is then, and what is to be done with it.
pub fn poll_answer(stage: AnswerStage, arrival: Arrival) -> (r: (AnswerStage, AnswerAction))
    ensures
        r == answer_step(stage, arrival),
{
    match stage {
        AnswerStage::Lingering => (AnswerStage::Complete, AnswerAction::Wait),
        AnswerStage::Complete => (AnswerStage::Complete, AnswerAction::Finish),
        AnswerStage::Running => match arrival {
            Arrival::Result => (AnswerStage::Lingering, AnswerAction::Keep),
            Arrival::Nothing => (AnswerStage::Running, AnswerAction::Wait),
            Arrival::Lost => (AnswerStage::Running, AnswerAction::GiveUp),
        },
    }
}

/// An answer that has come is shown once more and then finished, whatever comes meanwhile.
pub proof fn answers_finish_in_two_steps(second: Arrival, third: Arrival)
    ensures
        ({
            let (a, first_action) = answer_step(AnswerStage::Running, Arrival::Result);
            let (b, second_action) = answer_step(a, second);
            let (c, third_action) = answer_step(b, third);
            &&& first_action == AnswerAction::Keep
            &&& second_action == AnswerAction::Wait
            &&& third_action == AnswerAction::Finish
        }),
{
}

/// What is said when an answer is given up.
pub fn answer_lost_status() -> (r: &'static str)
    ensures
        r@ == "Prompt worker disconnected unexpectedly."@,
{
    "Prompt worker disconnected unexpectedly."
}

/// What came of sharing a session.
#[derive(Clone, Debug, PartialEq, Eq)]
pub enum ShareOutcome {
    Shared { viewer_url: String, gist_url: String },
    Cancelled,
    Lost,
}

/// What is said of a session that was shared.
pub open spec fn share_message(outcome: ShareOutcome) -> Seq<char> {
    match outcome {
        ShareOutcome::Shared { viewer_url, gist_url } => "Share URL: "@ + viewer_url@ + "\nGist: "@
            + gist_url@,
        ShareOutcome::Cancelled => "Share cancelled"@,
        ShareOutcome::Lost => "Share worker disconnected unexpectedly."@,
    }
}

/// What is said of a session that was shared.
pub fn share_status(outcome: &ShareOutcome) -> (r: String)
    ensures
        r@ == share_message(*outcome),
{
    match outcome {
        ShareOutcome::Shared { viewer_url, gist_url } => cat4(
            "Share URL: ",
            viewer_url.as_str(),
            "\nGist: ",
            gist_url.as_str(),
        ),
        ShareOutcome::Cancelled => copy_text("Share cancelled"),
        ShareOutcome::Lost => copy_text("Share worker disconnected unexpectedly."),
    }
}

/// What came of a login.
#[derive(Clone, Debug, PartialEq, Eq)]
pub enum LoginOutcome {
    Success,
    Failure(String),
    Lost,
}

/// What is said of a login.
pub open spec fn login_message(provider: Seq<char>, outcome: LoginOutcome) -> Seq<char> {
    match outcome {
        LoginOutcome::Success => "Logged in to "@ + startup::provider_label(provider)
            + ". Credentials saved to auth.json."@,
        LoginOutcome::Failure(error) => error@,
        LoginOutcome::Lost => "Login worker disconnected unexpectedly."@,
    }
}

/// What is said of a login.
pub fn login_status(provider: &str, outcome: LoginOutcome) -> (r: String)
    ensures
        r@ == login_message(provider@, outcome),
{
    match outcome {
        LoginOutcome::Success => cat3(
            "Logged in to ",
            oauth_provider_label(provider),
            ". Credentials saved to auth.json.",
        ),
        LoginOutcome::Failure(error) => error,
        LoginOutcome::Lost => copy_text("Login worker disconnected unexpectedly."),
    }
}

/// What is said when a login begins, or why it cannot.
pub fn begin_login(already_running: bool, provider: &str) -> (r: Result<String, String>)
    ensures
        match r {
            Ok(message) => !already_running && message@ == "Login dialog open for "@
                + startup::provider_label(provider@) + "."@,
            Err(error) => already_running && error@ == "A login flow is already running."@,
        },
{
    if already_running {
        return Err(copy_text("A login flow is already running."));
    }
    Ok(cat3("Login dialog open for ", oauth_provider_label(provider), "."))
}

/// The place of the first tool that runs for a call.
pub open spec fn tool_index(tools: Seq<ActiveToolExecution>, id: Seq<char>) -> Option<int>
    decreases tools.len(),
{
    if tools.len() == 0 {
        None
    } else {
        match tool_index(tools.drop_last(), id) {
            Some(i) => Some(i),
            None => if tools.last().tool_call_id@ == id {
                Some(tools.len() - 1)
            } else {
                None
            },
        }
    }
}

/// The tools that run once a call has begun: a call that runs already does not begin again.
pub open spec fn tool_started(tools: Seq<ActiveToolExecution>, tool: ActiveToolExecution) -> Seq<
    ActiveToolExecution,
> {
    if tool_index(tools, tool.tool_call_id@) is Some {
        tools
    } else {
        tools.push(tool)
    }
}

/// The tools that run once a part of a result has come.
pub open spec fn tool_updated(tools: Seq<ActiveToolExecution>, id: Seq<char>, result: JsonDoc) -> Seq<
    ActiveToolExecution,
> {
    match tool_index(tools, id) {
        Some(i) => tools.update(
            i,
            ActiveToolExecution { partial_result: Some(result), ..tools[i] },
        ),
        None => tools,
    }
}

/// The tools that run once a call has ended.
pub open spec fn tool_ended(tools: Seq<ActiveToolExecution>, id: Seq<char>) -> Seq<ActiveToolExecution>
    decreases tools.len(),
{
    if tools.len() == 0 {
        Seq::empty()
    } else if tools.last().tool_call_id@ == id {
        tool_ended(tools.drop_last(), id)
    } else {
        tool_ended(tools.drop_last(), id).push(tools.last())
    }
}

fn find_tool(tools: &Vec<ActiveToolExecution>, id: &str) -> (r: Option<usize>)
    ensures
        (match r {
            Some(i) => Some(i as int),
            None => None,
        }) == tool_index(tools@, id@),
        r is Some ==> r->0 < tools@.len(),
{
    let mut found: Option<usize> = None;
    let mut i: usize = 0;
    assert(tools@.take(0) =~= Seq::<ActiveToolExecution>::empty());
    while i < tools.len()
        invariant
            0 <= i <= tools.len(),
            (match found {
                Some(k) => Some(k as int),
                None => None,
            }) == tool_index(tools@.take(i as int), id@),
            found is Some ==> found->0 < i,
        decreases tools.len() - i,
    {
        assert(tools@.take(i + 1).drop_last() =~= tools@.take(i as int));
        if found.is_none() && same(tools[i].tool_call_id.as_str(), id) {
            found = Some(i);
        }
        i += 1;
    }
    assert(tools@.take(i as int) =~= tools@);
    found
}

/// A call begins.
pub fn start_tool(tools: &mut Vec<ActiveToolExecution>, tool: ActiveToolExecution)
    ensures
        final(tools)@ == tool_started(old(tools)@, tool),
{
    let found = find_tool(tools, tool.tool_call_id.as_str());
    if found.is_none() {
        tools.push(tool);
    }
}

/// A part of a result comes.
pub fn update_tool(tools: &mut Vec<ActiveToolExecution>, id: &str, partial_result: JsonDoc)
    ensures
        final(tools)@ == tool_updated(old(tools)@, id@, partial_result),
{
    let ghost before = tools@;
    match find_tool(tools, id) {
        Some(i) => {
            let tool = tools.remove(i);
            tools.insert(
                i,
                ActiveToolExecution {
                    tool_call_id: tool.tool_call_id,
                    tool_name: tool.tool_name,
                    args: tool.args,
                    partial_result: Some(partial_result),
                },
            );
            assert(tools@ =~= tool_updated(before, id@, partial_result));
        },
        None => {},
    }
}

/// A call ends.
pub fn end_tool(tools: Vec<ActiveToolExecution>, id: &str) -> (r: Vec<ActiveToolExecution>)
    ensures
        r@ == tool_ended(tools@, id@),
{
    let ghost all = tools@;
    let mut rest = tools;
    let mut out: Vec<ActiveToolExecution> = Vec::new();
    let ghost mut done: int = 0;
    assert(all.take(0) =~= Seq::<ActiveToolExecution>::empty());
    assert(all.skip(0) =~= all);
    while rest.len() > 0
        invariant
            0 <= done <= all.len(),
            rest@ == all.skip(done),
            out@ == tool_ended(all.take(done), id@),
        decreases rest.len(),
    {
        assert(all.take(done + 1).drop_last() =~= all.take(done));
        let tool = rest.remove(0);
        assert(tool == all[done]);
        assert(rest@ =~= all.skip(done + 1));
        if !same(tool.tool_call_id.as_str(), id) {
            out.push(tool);
        }
        proof {
            done = done + 1;
        }
    }
    assert(all.take(done) =~= all);
    out
}

/// Whether no call runs twice.
pub open spec fn calls_differ(tools: Seq<ActiveToolExecution>) -> bool {
    forall|i: int, j: int|
        0 <= i < j < tools.len() ==> (#[trigger] tools[i]).tool_call_id@ != (
        #[trigger] tools[j]).tool_call_id@
}

proof fn index_finds(tools: Seq<ActiveToolExecution>, id: Seq<char>)
    ensures
        match tool_index(tools, id) {
            Some(i) => 0 <= i < tools.len() && tools[i].tool_call_id@ == id,
            None => forall|i: int| 0 <= i < tools.len() ==> (#[trigger] tools[i]).tool_call_id@ != id,
        },
    decreases tools.len(),
{
    if tools.len() > 0 {
        let shorter = tools.drop_last();
        index_finds(shorter, id);
        if tool_index(shorter, id) is None {
            assert forall|i: int| 0 <= i < shorter.len() implies (
            #[trigger] tools[i]).tool_call_id@ != id by {
                assert(shorter[i] == tools[i]);
            }
        }
    }
}

proof fn ended_part(tools: Seq<ActiveToolExecution>, id: Seq<char>, i: int)
    requires
        0 <= i < tool_ended(tools, id).len(),
    ensures
        tool_ended(tools, id)[i].tool_call_id@ != id,
        exists|k: int| 0 <= k < tools.len() && tools[k] == tool_ended(tools, id)[i],
    decreases tools.len(),
{
    let shorter = tools.drop_last();
    let before = tool_ended(shorter, id);
    if i < before.len() {
        ended_part(shorter, id, i);
        let k = choose|k: int| 0 <= k < shorter.len() && shorter[k] == before[i];
        assert(tools[k] == before[i]);
    } else {
        assert(tools[tools.len() - 1] == tool_ended(tools, id)[i]);
    }
}

/// A call that begins keeps the running calls different, and the one that begins is among them.
pub proof fn starting_keeps_calls_different(tools: Seq<ActiveToolExecution>, tool: ActiveToolExecution)
    requires
        calls_differ(tools),
    ensures
        calls_differ(tool_started(tools, tool)),
        tool_index(tool_started(tools, tool), tool.tool_call_id@) is Some,
{
    index_finds(tools, tool.tool_call_id@);
    index_finds(tool_started(tools, tool), tool.tool_call_id@);
    if tool_index(tools, tool.tool_call_id@) is None {
        let after = tools.push(tool);
        assert(after[tools.len() as int] == tool);
    }
}

/// A call that has ended does not run any more.
pub proof fn ended_calls_are_gone(tools: Seq<ActiveToolExecution>, id: Seq<char>)
    ensures
        tool_index(tool_ended(tools, id), id) is None,
{
    let after = tool_ended(tools, id);
    index_finds(after, id);
    if tool_index(after, id) is Some {
        ended_part(tools, id, tool_index(after, id)->0);
    }
}

/// Messages with one that arrived: a message of the assistant takes the place of the one that is
/// being written, and a message that is there already is not put there again. `repeats_last` says
/// whether the last message is that same one.
pub open spec fn with_message(messages: Seq<Message>, message: Message, repeats_last: bool) -> Seq<Message> {
    if message is Assistant {
        if messages.len() > 0 && messages.last() is Assistant {
            messages.drop_last().push(message)
        } else {
            messages.push(message)
        }
    } else if repeats_last {
        messages
    } else {
        messages.push(message)
    }
}

/// Adds a message that arrived to others.
pub fn apply_live_message(messages: &mut Vec<Message>, message: Message, repeats_last: bool)
    ensures
        final(messages)@ == with_message(old(messages)@, message, repeats_last),
{
    match message {
        Message::Assistant(next) => {
            let replace = messages.len() > 0 && matches!(
                messages[messages.len() - 1],
                Message::Assistant(_)
            );
            if replace {
                let _ = messages.pop();
            }
            messages.push(Message::Assistant(next));
        },
        other => {
            if !repeats_last {
                messages.push(other);
            }
        },
    }
}

/// Whether the screen is drawn again and again: while an answer is written, a session is shared or a
/// login runs.
pub fn needs_periodic_redraw(prompt: bool, share: bool, auth: bool) -> (r: bool)
    ensures
        r == (prompt || share || auth),
{
    prompt || share || auth
}

/// What a running tool hands over reaches that tool, and no other tool changes.
pub proof fn results_reach_their_tool(
    tools: Seq<ActiveToolExecution>,
    i: int,
    result: JsonDoc,
    k: int,
)
    requires
        calls_differ(tools),
        0 <= i < tools.len(),
        0 <= k < tools.len(),
    ensures
        tool_updated(tools, tools[i].tool_call_id@, result).len() == tools.len(),
        tool_updated(tools, tools[i].tool_call_id@, result)[i] == (ActiveToolExecution {
            partial_result: Some(result),
            ..tools[i]
        }),
        k != i ==> tool_updated(tools, tools[i].tool_call_id@, result)[k] == tools[k],
{
    call_is_at(tools, i);
}

proof fn call_is_at(tools: Seq<ActiveToolExecution>, i: int)
    requires
        calls_differ(tools),
        0 <= i < tools.len(),
    ensures
        tool_index(tools, tools[i].tool_call_id@) == Some(i),
    decreases tools.len(),
{
    let rest = tools.drop_last();
    if i < rest.len() {
        assert(rest[i] == tools[i]);
        assert forall|a: int, b: int| 0 <= a < b < rest.len() implies (
        #[trigger] rest[a]).tool_call_id@ != (#[trigger] rest[b]).tool_call_id@ by {
            assert(tools[a].tool_call_id@ != tools[b].tool_call_id@);
        }
        call_is_at(rest, i);
    } else {
        assert forall|a: int| 0 <= a < rest.len() implies (#[trigger] rest[a]).tool_call_id@
            != tools[i].tool_call_id@ by {
            assert(tools[a].tool_call_id@ != tools[i].tool_call_id@);
        }
        call_is_nowhere(rest, tools[i].tool_call_id@);
    }
}

proof fn call_is_nowhere(tools: Seq<ActiveToolExecution>, id: Seq<char>)
    requires
        forall|a: int| 0 <= a < tools.len() ==> (#[trigger] tools[a]).tool_call_id@ != id,
    ensures
        tool_index(tools, id) is None,
    decreases tools.len(),
{
    if tools.len() > 0 {
        assert(tools[tools.len() - 1].tool_call_id@ != id);
        assert forall|a: int| 0 <= a < tools.drop_last().len() implies (
        #[trigger] tools.drop_last()[a]).tool_call_id@ != id by {
            assert(tools[a].tool_call_id@ != id);
        }
        call_is_nowhere(tools.drop_last(), id);
    }
}

/// A tool that starts under a new identifier is the last of those that run.
pub proof fn started_tools_are_added(tools: Seq<ActiveToolExecution>, tool: ActiveToolExecution)
    requires
        forall|a: int|
            0 <= a < tools.len() ==> (#[trigger] tools[a]).tool_call_id@ != tool.tool_call_id@,
    ensures
        tool_started(tools, tool) == tools.push(tool),
        tool_ended(tool_started(tools, tool), tool.tool_call_id@) == tools,
{
    call_is_nowhere(tools, tool.tool_call_id@);
    let all = tools.push(tool);
    assert(all.drop_last() =~= tools);
    nothing_ends(tools, tool.tool_call_id@);
}

proof fn nothing_ends(tools: Seq<ActiveToolExecution>, id: Seq<char>)
    requires
        forall|a: int| 0 <= a < tools.len() ==> (#[trigger] tools[a]).tool_call_id@ != id,
    ensures
        tool_ended(tools, id) == tools,
    decreases tools.len(),
{
    if tools.len() > 0 {
        assert(tools[tools.len() - 1].tool_call_id@ != id);
        assert forall|a: int| 0 <= a < tools.drop_last().len() implies (
        #[trigger] tools.drop_last()[a]).tool_call_id@ != id by {
            assert(tools[a].tool_call_id@ != id);
        }
        nothing_ends(tools.drop_last(), id);
    }
}

/// A message that comes in is the last afterwards, and only an answer that it continues makes way
/// for it.
pub proof fn messages_come_last(messages: Seq<Message>, message: Message, i: int)
    ensures
        with_message(messages, message, false).last() == message,
        !(message is Assistant && messages.len() > 0 && messages.last() is Assistant)
            ==> with_message(messages, message, false) == messages.push(message),
        0 <= i < messages.len() - 1 ==> with_message(messages, message, false)[i] == messages[i],
        message is Assistant && messages.len() > 0 && messages.last() is Assistant ==> with_message(
            messages,
            message,
            false,
        ).len() == messages.len(),
        !(message is Assistant) ==> with_message(messages, message, true) == messages,
{
}

/// What came of sharing and of logging in is told with what belongs to it.
pub proof fn outcomes_are_told(viewer_url: String, gist_url: String, provider: Seq<char>, error: String)
    ensures
        text::has_suffix(
            share_message(ShareOutcome::Shared { viewer_url, gist_url }),
            gist_url@,
        ),
        text::has_prefix(
            share_message(ShareOutcome::Shared { viewer_url, gist_url }),
            "Share URL: "@ + viewer_url@,
        ),
        login_message(provider, LoginOutcome::Failure(error)) == error@,
        text::has_prefix(
            login_message(provider, LoginOutcome::Success),
            "Logged in to "@ + startup::provider_label(provider),
        ),
{
    let told = share_message(ShareOutcome::Shared { viewer_url, gist_url });
    assert(told.skip(told.len() - gist_url@.len()) =~= gist_url@);
    let start = "Share URL: "@ + viewer_url@;
    assert(told.take(start.len() as int) =~= start);
    let done = login_message(provider, LoginOutcome::Success);
    let head = "Logged in to "@ + startup::provider_label(provider);
    assert(done.take(head.len() as int) =~= head);
}

} // verus!
