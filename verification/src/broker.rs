//! The decisions of a conversation turn with tools: which requested call
//! runs with which tool, how the conversation grows with tool results, and
//! how a streamed response is gathered. The caller talks to the model and
//! runs the tools.
use vstd::prelude::*;
use crate::models::{LlmMessage, LlmToolCall, MessageRole};
use crate::error::MojenticError;

verus! {

/// A piece of a streamed response.
#[derive(Debug, Clone)]
pub enum StreamChunk {
    /// Text, in the order it arrived.
    Content(String),
    /// The complete tool calls of the response.
    ToolCalls(Vec<LlmToolCall>),
}

/// Among tools, in order, whether each answers a call: the first that
/// answers is at `t`.
pub open spec fn first_answering(row: Seq<bool>, t: int) -> bool {
    &&& 0 <= t < row.len()
    &&& row[t]
    &&& forall|j: int| 0 <= j < t ==> !row[j]
}

/// Some tool answers the call.
pub open spec fn any_answers(row: Seq<bool>) -> bool {
    exists|t: int| 0 <= t < row.len() && row[t]
}

/// A response's text, or nothing.
pub open spec fn text_or_empty(content: Option<String>) -> Seq<char> {
    match content {
        Some(c) => c@,
        None => Seq::empty(),
    }
}

/// What to do after a model response without streaming.
pub enum GenerateStep {
    /// The response's text is the answer.
    Answer(String),
    /// Run the call at `call` with the tool at `tool`, then ask again.
    RunTool { call: usize, tool: usize },
    /// A tool would run, but the turn has used up its tool rounds.
    RoundLimitReached,
}

/// The position of the first tool that answers, if any.
pub fn first_answering_tool(row: &Vec<bool>) -> (r: Option<usize>)
    ensures
        match r {
            Some(t) => first_answering(row@, t as int),
            None => !any_answers(row@),
        },
{
    let mut t: usize = 0;
    while t < row.len()
        invariant
            t <= row@.len(),
            forall|j: int| 0 <= j < t ==> !row@[j],
        decreases row@.len() - t,
    {
        if row[t] {
            return Some(t);
        }
        t = t + 1;
    }
    None
}

/// After a response, with `rounds_done` tool rounds run in this turn and at
/// most `max_rounds` allowed. `answers`, when tools are offered, holds one
/// row per requested call, in order, telling for each tool, in order,
/// whether it answers the call (its own `matches`). The first call that some
/// tool answers runs with the first such tool, unless the rounds are used up;
/// when no tool answers any call, or none is offered, the response's text
/// (empty when it has none) is the answer.
pub fn next_generate_step(
    content: Option<String>,
    answers: Option<&Vec<Vec<bool>>>,
    rounds_done: usize,
    max_rounds: usize,
) -> (s: GenerateStep)
    ensures
        match s {
            GenerateStep::Answer(a) => {
                &&& a@ == text_or_empty(content)
                &&& answers matches Some(rows) ==> forall|k: int|
                    0 <= k < rows@.len() ==> !any_answers((#[trigger] rows@[k])@)
            },
            GenerateStep::RunTool { call, tool } => {
                &&& rounds_done < max_rounds
                &&& answers is Some
                &&& call < answers->0@.len()
                &&& first_answering(answers->0@[call as int]@, tool as int)
                &&& forall|k: int| 0 <= k < call ==> !any_answers((#[trigger] answers->0@[k])@)
            },
            GenerateStep::RoundLimitReached => {
                &&& rounds_done >= max_rounds
                &&& answers is Some
                &&& exists|k: int| 0 <= k < answers->0@.len() && any_answers((#[trigger] answers->0@[k])@)
            },
        },
{
    let answer = match content {
        Some(c) => c,
        None => String::new(),
    };
    match answers {
        None => GenerateStep::Answer(answer),
        Some(rows) => {
            let mut k: usize = 0;
            while k < rows.len()
                invariant
                    answers == Some(rows),
                    k <= rows@.len(),
                    forall|j: int| 0 <= j < k ==> !any_answers((#[trigger] rows@[j])@),
                decreases rows@.len() - k,
            {
                match first_answering_tool(&rows[k]) {
                    Some(t) => {
                        if rounds_done >= max_rounds {
                            assert(any_answers(rows@[k as int]@));
                            assert(answers->0@[k as int] == rows@[k as int]);
                            assert(exists|c: int| 0 <= c < answers->0@.len() && any_answers((#[trigger] answers->0@[c])@));
                            return GenerateStep::RoundLimitReached;
                        }
                        return GenerateStep::RunTool { call: k, tool: t };
                    },
                    None => {},
                }
                k = k + 1;
            }
            GenerateStep::Answer(answer)
        },
    }
}

/// A copy of a tool call.
pub fn copy_tool_call(c: &LlmToolCall) -> (r: LlmToolCall)
    ensures
        r == *c,
{
    LlmToolCall {
        id: match &c.id {
            Some(i) => Some(i.clone()),
            None => None,
        },
        name: c.name.clone(),
        arguments: c.arguments.clone(),
    }
}

/// The assistant message that carries a call.
pub open spec fn call_message(call: LlmToolCall, m: LlmMessage) -> bool {
    &&& m.role == MessageRole::Assistant
    &&& m.content is None
    &&& (m.tool_calls matches Some(v) && v@ == seq![call])
    &&& m.image_paths is None
}

/// The tool message that answers a call with `output`.
pub open spec fn result_message(call: LlmToolCall, output: String, m: LlmMessage) -> bool {
    &&& m.role == MessageRole::Tool
    &&& m.content == Some(output)
    &&& (m.tool_calls matches Some(v) && v@ == seq![call])
    &&& m.image_paths is None
}

/// The message that answers `call` with the JSON text of a tool's output.
pub fn tool_result_message(call: &LlmToolCall, output: String) -> (m: LlmMessage)
    ensures
        result_message(*call, output, m),
{
    let calls = vec![copy_tool_call(call)];
    assert(calls@ =~= seq![*call]);
    LlmMessage { role: MessageRole::Tool, content: Some(output), tool_calls: Some(calls), image_paths: None }
}

/// The conversation after a tool ran: the assistant message carrying the
/// call, then the tool's output, appended.
pub fn tool_turn_messages(messages: Vec<LlmMessage>, call: &LlmToolCall, output: String) -> (r: Vec<
    LlmMessage,
>)
    ensures
        r@.len() == messages@.len() + 2,
        r@.take(messages@.len() as int) == messages@,
        call_message(*call, r@[messages@.len() as int]),
        result_message(*call, output, r@[messages@.len() as int + 1]),
{
    let mut r = messages;
    let calls = vec![copy_tool_call(call)];
    assert(calls@ =~= seq![*call]);
    r.push(LlmMessage { role: MessageRole::Assistant, content: None, tool_calls: Some(calls), image_paths: None });
    r.push(tool_result_message(call, output));
    assert(r@.take(messages@.len() as int) =~= messages@);
    r
}

/// What a streamed response brought so far.
pub struct StreamAccumulator {
    pub content: String,
    pub tool_calls: Vec<LlmToolCall>,
}

/// The follow-up of a streamed response that asked for tools: the
/// conversation so far with the assistant's message, and each call that a
/// tool answers with that tool, in order.
pub struct StreamFollowUp {
    pub messages: Vec<LlmMessage>,
    pub runs: Vec<(usize, usize)>,
}

/// The calls that some tool answers (by the rows of `answers`, one per
/// call), each with the first such tool, in order.
pub open spec fn tool_runs(answers: Seq<Vec<bool>>, runs: Seq<(usize, usize)>) -> bool {
    &&& forall|j: int| 0 <= j < runs.len() ==> (#[trigger] runs[j]).0 < answers.len() && first_answering(
        answers[runs[j].0 as int]@,
        runs[j].1 as int,
    )
    &&& forall|j: int, l: int| 0 <= j < l < runs.len() ==> (#[trigger] runs[j]).0 < (#[trigger] runs[l]).0
    &&& forall|k: int|
        0 <= k < answers.len() && any_answers((#[trigger] answers[k])@) ==> exists|j: int|
            0 <= j < runs.len() && runs[j].0 == k
}

impl StreamAccumulator {
    /// Nothing yet.
    pub fn new() -> (a: Self)
        ensures
            a.content@.len() == 0,
            a.tool_calls@.len() == 0,
    {
        StreamAccumulator { content: String::new(), tool_calls: Vec::new() }
    }

    /// Takes a chunk: text is kept and handed back to pass on; tool calls
    /// replace the ones seen before.
    pub fn push_chunk(&mut self, chunk: StreamChunk) -> (r: Option<String>)
        ensures
            match chunk {
                StreamChunk::Content(c) => {
                    &&& r == Some(c)
                    &&& final(self).content@ == old(self).content@ + c@
                    &&& final(self).tool_calls == old(self).tool_calls
                },
                StreamChunk::ToolCalls(v) => {
                    &&& r is None
                    &&& final(self).content == old(self).content
                    &&& final(self).tool_calls == v
                },
            },
    {
        match chunk {
            StreamChunk::Content(c) => {
                self.content.append(c.as_str());
                Some(c)
            },
            StreamChunk::ToolCalls(v) => {
                self.tool_calls = v;
                None
            },
        }
    }

    /// After the stream ended, with `rounds_done` tool rounds run in this
    /// turn and at most `max_rounds` allowed, and `answers` (when tools are
    /// offered) telling, one row per requested call, whether each tool
    /// answers it: nothing more when no tool was asked for or none is
    /// offered; an error when the rounds are used up; otherwise the follow-up
    /// conversation, with the assistant's text and all its calls appended,
    /// and the calls to run, each with the first tool that answers it.
    pub fn follow_up(
        self,
        messages: Vec<LlmMessage>,
        answers: Option<&Vec<Vec<bool>>>,
        rounds_done: usize,
        max_rounds: usize,
    ) -> (r: Result<Option<StreamFollowUp>, MojenticError>)
        requires
            answers matches Some(rows) ==> rows@.len() == self.tool_calls@.len(),
        ensures
            (self.tool_calls@.len() == 0 || answers is None) ==> r matches Ok(None),
            self.tool_calls@.len() > 0 && answers is Some && rounds_done >= max_rounds ==> (r matches Err(
                MojenticError::MaxToolIterationsExceeded { limit },
            ) && limit == max_rounds),
            self.tool_calls@.len() > 0 && answers is Some && rounds_done < max_rounds ==> (r matches Ok(
                Some(f),
            ) && {
                &&& f.messages@.len() == messages@.len() + 1
                &&& f.messages@.take(messages@.len() as int) == messages@
                &&& f.messages@.last().role == MessageRole::Assistant
                &&& f.messages@.last().content == Some(self.content)
                &&& (f.messages@.last().tool_calls matches Some(v) && v@ == self.tool_calls@)
                &&& f.messages@.last().image_paths is None
                &&& tool_runs(answers->0@, f.runs@)
            }),
    {
        let rows = match answers {
            None => {
                return Ok(None);
            },
            Some(a) => a,
        };
        if self.tool_calls.len() == 0 {
            return Ok(None);
        }
        if rounds_done >= max_rounds {
            return Err(MojenticError::MaxToolIterationsExceeded { limit: max_rounds });
        }
        let StreamAccumulator { content, tool_calls } = self;
        let mut runs: Vec<(usize, usize)> = Vec::new();
        let mut k: usize = 0;
        while k < rows.len()
            invariant
                k <= rows@.len(),
                forall|j: int| 0 <= j < runs@.len() ==> (#[trigger] runs@[j]).0 < k && first_answering(
                    rows@[runs@[j].0 as int]@,
                    runs@[j].1 as int,
                ),
                forall|j: int, l: int|
                    0 <= j < l < runs@.len() ==> (#[trigger] runs@[j]).0 < (#[trigger] runs@[l]).0,
                forall|c: int|
                    0 <= c < k && any_answers((#[trigger] rows@[c])@) ==> exists|j: int|
                        0 <= j < runs@.len() && runs@[j].0 == c,
            decreases rows@.len() - k,
        {
            match first_answering_tool(&rows[k]) {
                Some(t) => {
                    let ghost before = runs@;
                    runs.push((k, t));
                    proof {
                        assert forall|c: int|
                            0 <= c < k + 1 && any_answers((#[trigger] rows@[c])@) implies exists|j: int|
                            0 <= j < runs@.len() && runs@[j].0 == c by {
                            if c == k {
                                assert(runs@[before.len() as int].0 == c);
                            } else {
                                let j = choose|j: int| 0 <= j < before.len() && before[j].0 == c;
                                assert(runs@[j] == before[j]);
                            }
                        }
                    }
                },
                None => {},
            }
            k = k + 1;
        }
        let mut msgs = messages;
        msgs.push(
            LlmMessage {
                role: MessageRole::Assistant,
                content: Some(content),
                tool_calls: Some(tool_calls),
                image_paths: None,
            },
        );
        assert(msgs@.take(messages@.len() as int) =~= messages@);
        Ok(Some(StreamFollowUp { messages: msgs, runs }))
    }
}


/// The conversation an agent used as a tool starts with: its behaviour as
/// the system message, then the input it was given.
pub fn delegation_messages(behaviour: String, input: String) -> (v: Vec<LlmMessage>)
    ensures
        v@.len() == 2,
        v@[0] == LlmMessage::system_spec(behaviour),
        v@[1].role == MessageRole::User,
        v@[1].content == Some(input),
        v@[1].tool_calls is None,
        v@[1].image_paths is None,
{
    vec![LlmMessage::system(behaviour), LlmMessage::user(input)]
}
} // verus!
