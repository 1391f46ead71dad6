use std::sync::{Arc, Mutex};

use grizzly_agent::completion::{Completion, StopReason, Usage};
use grizzly_agent::failure::{ProviderFailure, RunFailure, ToolFailure};
use grizzly_agent::message::{Content, Message, Role, ToolResult, ToolUse};
use grizzly_agent::request::{CompletionRequest, validate_messages};
use grizzly_agent::section::{DynamicSection, SystemSection};
use grizzly_agent::tools::{ToolContext, ToolSet, ToolSpec};
use grizzly_agent::trace::{RunEnding, RunRecord};
use grizzly_agent::turn::{Limits, Reply, RoundEnd, RoundStart, ToolStep, TurnLoop};
use grizzly_agent::Duration;
use tokio_util::sync::CancellationToken;

enum Scripted {
    Reply(Completion),
    Fail(ProviderFailure),
}

#[derive(Clone, Copy)]
enum Tool {
    Echo,
    Fail,
    Stop,
    Cancel,
    SetSection,
}

struct Harness {
    tools: ToolSet<Tool>,
    sections: Vec<SystemSection>,
    limits: Limits,
    shared: Arc<Mutex<String>>,
}

struct Outcome {
    result: Result<RunRecord, RunFailure>,
    requests: Vec<CompletionRequest>,
}

fn spec(name: &str) -> ToolSpec {
    ToolSpec {
        name: name.to_owned(),
        description: format!("the {name} tool"),
        parameters: "{\"type\":\"object\"}".to_owned(),
    }
}

fn harness(tools: Vec<(&str, Tool)>) -> Harness {
    let tools = ToolSet::new(
        tools
            .into_iter()
            .map(|(name, tool)| (name.to_owned(), tool))
            .collect(),
    )
    .expect("test tool sets never collide on names");
    Harness {
        tools,
        sections: Vec::new(),
        limits: Limits::default(),
        shared: Arc::new(Mutex::new("original".to_owned())),
    }
}

impl Harness {
    fn call(&self, tool_use: &ToolUse, context: &mut ToolContext) -> Result<String, ToolFailure> {
        match self.tools.find(&tool_use.name)? {
            Tool::Echo => Ok(tool_use.input.clone()),
            Tool::Fail => Err(ToolFailure::Execution {
                name: "fail".to_owned(),
                message: "boom".to_owned(),
            }),
            Tool::Stop => {
                assert!(context.request_stop("handing off", "needs a human"));
                Ok("stopping".to_owned())
            }
            Tool::Cancel => {
                context.cancellation_token().cancel();
                Ok("cancelling".to_owned())
            }
            Tool::SetSection => {
                *self.shared.lock().expect("lock") = "changed".to_owned();
                Ok("ok".to_owned())
            }
        }
    }

    fn run(&self, conversation: Vec<Message>, token: CancellationToken, script: Vec<Scripted>) -> Outcome {
        let specs: Vec<ToolSpec> = self.tools.names().iter().map(|name| spec(name)).collect();
        let mut requests = Vec::new();
        let mut context = ToolContext::new(token);
        let mut script = script.into_iter();
        let mut turn = match TurnLoop::start(conversation, self.limits) {
            Ok(turn) => turn,
            Err(failure) => return Outcome { result: Err(failure), requests },
        };
        loop {
            let (pending, request) =
                match turn.begin_round(context.is_cancelled(), &self.sections, specs.clone()) {
                    RoundStart::Finished(record) => return Outcome { result: Ok(record), requests },
                    RoundStart::Call(pending, request) => (pending, request),
                };
            requests.push(request);
            let completion = match script.next() {
                Some(Scripted::Reply(completion)) => completion,
                Some(Scripted::Fail(failure)) => {
                    return Outcome { result: Err(pending.fail(failure)), requests };
                }
                None => panic!("the script ran out"),
            };
            assert!(pending.usage_fits(&completion.usage));
            let mut round = match pending.complete(completion, Duration::from_millis(7)) {
                Reply::Finished(record) => return Outcome { result: Ok(record), requests },
                Reply::Tools(round) => round,
            };
            loop {
                match round.next_tool(context.is_cancelled()) {
                    ToolStep::Dispatch(call, tool_use) => {
                        let outcome = self.call(&tool_use, &mut context);
                        assert!(call.streak() < u32::MAX);
                        let (next, record) = call.finish(outcome, Duration::from_millis(3));
                        assert_eq!(record.name, tool_use.name);
                        assert_eq!(record.arguments, tool_use.input);
                        round = next;
                    }
                    ToolStep::Over(over) => match over.end(&mut context) {
                        RoundEnd::Continue(next) => {
                            turn = next;
                            break;
                        }
                        RoundEnd::Finished(record) => {
                            return Outcome { result: Ok(record), requests };
                        }
                    },
                }
            }
        }
    }
}

fn text_completion(text: &str) -> Completion {
    Completion {
        content: vec![Content::Text(text.to_owned())],
        usage: Usage {
            input_tokens: Some(5),
            output_tokens: Some(1),
        },
        stop_reason: StopReason::EndOfTurn,
        raw_stop_reason: "stop".to_owned(),
        model: "test-model".to_owned(),
    }
}

fn tool_use_completion(id: &str, name: &str, input: &str) -> Completion {
    Completion {
        content: vec![Content::ToolUse(ToolUse {
            id: id.to_owned(),
            name: name.to_owned(),
            input: input.to_owned(),
        })],
        usage: Usage {
            input_tokens: Some(10),
            output_tokens: Some(2),
        },
        stop_reason: StopReason::ToolUse,
        raw_stop_reason: "tool_use".to_owned(),
        model: "test-model".to_owned(),
    }
}

fn max_tokens_completion(text: &str) -> Completion {
    Completion {
        content: vec![
            Content::Text(text.to_owned()),
            Content::ToolUse(ToolUse {
                id: "cut-off".to_owned(),
                name: "echo".to_owned(),
                input: "{}".to_owned(),
            }),
        ],
        usage: Usage {
            input_tokens: Some(20),
            output_tokens: Some(3),
        },
        stop_reason: StopReason::MaxTokens,
        raw_stop_reason: "max_tokens".to_owned(),
        model: "test-model".to_owned(),
    }
}

fn record_of(outcome: Outcome) -> RunRecord {
    match outcome.result {
        Ok(record) => record,
        Err(failure) => panic!("expected a finished run, got {}", failure.describe()),
    }
}

#[test]
fn a_system_message_is_refused_before_any_round() {
    let h = harness(vec![]);
    let outcome = h.run(
        vec![Message::system("be nice"), Message::user("hi")],
        CancellationToken::new(),
        vec![Scripted::Reply(text_completion("unreachable"))],
    );
    match outcome.result {
        Err(RunFailure::InvalidConversation { reason }) => assert_eq!(
            reason,
            "the conversation must not contain system messages — an Agent's sections are the only system prompt"
        ),
        _ => panic!("a system message must be rejected before any work begins"),
    }
    assert!(outcome.requests.is_empty(), "the model must never be called");
}

#[test]
fn a_dangling_tool_result_is_refused_upfront() {
    let h = harness(vec![]);
    let dangling_result = Message::tool_results(vec![ToolResult {
        tool_use_id: "never-asked-for".to_owned(),
        content: "ok".to_owned(),
        is_error: false,
    }]);
    let outcome = h.run(vec![dangling_result], CancellationToken::new(), Vec::new());
    assert!(
        matches!(outcome.result, Err(RunFailure::InvalidConversation { reason }) if reason.contains("tool result")),
        "the reason must name the broken invariant"
    );
}

#[test]
fn a_plain_reply_completes_the_run() {
    let h = harness(vec![]);
    let record = record_of(h.run(
        vec![Message::user("hi")],
        CancellationToken::new(),
        vec![Scripted::Reply(text_completion("all done"))],
    ));

    assert_eq!(record.ending, RunEnding::Completed);
    assert_eq!(record.reply, Some("all done".to_owned()));
    assert_eq!(record.trace.rounds.len(), 1);
    assert_eq!(record.trace.messages, vec![Message::assistant("all done")]);
    assert_eq!(
        record.trace.total_usage,
        Usage {
            input_tokens: Some(5),
            output_tokens: Some(1),
        }
    );
    assert_eq!(record.trace.rounds[0].latency, Duration::from_millis(7));
}

#[test]
fn a_reply_with_no_text_completes_without_a_reply() {
    let h = harness(vec![]);
    let mut completion = text_completion("");
    completion.content = Vec::new();
    let record = record_of(h.run(
        vec![Message::user("hi")],
        CancellationToken::new(),
        vec![Scripted::Reply(completion)],
    ));
    assert_eq!(record.ending, RunEnding::Completed);
    assert_eq!(record.reply, None, "an empty reply text is no reply");
}

#[test]
fn a_truncated_reply_drops_its_tool_uses_and_the_conversation_resumes() {
    let h = harness(vec![("echo", Tool::Echo)]);
    let original = vec![Message::user("hi")];
    let first = record_of(h.run(
        original.clone(),
        CancellationToken::new(),
        vec![Scripted::Reply(max_tokens_completion("partial thought"))],
    ));

    assert_eq!(first.ending, RunEnding::Truncated);
    assert_eq!(first.reply, Some("partial thought".to_owned()));
    assert_eq!(
        first.trace.messages,
        vec![Message::assistant("partial thought")],
        "tool-use blocks must be stripped from the appended message"
    );

    let mut resumed = original;
    resumed.extend(first.trace.messages);
    assert!(validate_messages(&resumed).is_ok());
    let second = record_of(h.run(
        resumed,
        CancellationToken::new(),
        vec![Scripted::Reply(text_completion("finished"))],
    ));
    assert_eq!(second.ending, RunEnding::Completed);
}

#[test]
fn a_stop_request_ends_the_run_with_the_tool_s_reply() {
    let h = harness(vec![("stop", Tool::Stop)]);
    let record = record_of(h.run(
        vec![Message::user("please stop")],
        CancellationToken::new(),
        vec![Scripted::Reply(tool_use_completion("call-1", "stop", "{}"))],
    ));

    assert!(matches!(
        &record.ending,
        RunEnding::StopRequested(stop) if stop.reply == "handing off" && stop.reason == "needs a human"
    ));
    assert_eq!(record.reply, Some("handing off".to_owned()));
    assert_eq!(record.trace.messages.len(), 2, "the round's results are still appended");
}

#[test]
fn the_run_ends_once_its_round_limit_is_reached() {
    let mut h = harness(vec![("echo", Tool::Echo)]);
    h.limits = Limits {
        round_limit: 2,
        stall_threshold: 100,
    };
    let script = (0..3)
        .map(|i| Scripted::Reply(tool_use_completion(&format!("call-{i}"), "echo", &format!("{{\"i\":{i}}}"))))
        .collect();
    let outcome = h.run(vec![Message::user("keep going")], CancellationToken::new(), script);
    assert_eq!(outcome.requests.len(), 2, "the model must not be called a third time");
    let record = record_of(outcome);
    assert_eq!(record.ending, RunEnding::RoundsExhausted);
    assert_eq!(record.trace.rounds.len(), 2);
    assert_eq!(record.reply, None);
}

#[test]
fn repeating_the_same_call_stalls_the_run() {
    let mut h = harness(vec![("echo", Tool::Echo)]);
    h.limits = Limits {
        round_limit: 16,
        stall_threshold: 4,
    };
    let script = (0..5)
        .map(|i| Scripted::Reply(tool_use_completion(&format!("call-{i}"), "echo", "{\"target\":\"same\"}")))
        .collect();
    let record = record_of(h.run(vec![Message::user("loop please")], CancellationToken::new(), script));

    assert_eq!(
        record.ending,
        RunEnding::Stalled {
            tool: "echo".to_owned(),
            count: 4
        }
    );
    assert_eq!(
        record.trace.rounds.len(),
        4,
        "the loop must stop right after the fourth identical call"
    );
}

#[test]
fn a_run_cancelled_before_it_starts_does_no_work() {
    let h = harness(vec![]);
    let token = CancellationToken::new();
    token.cancel();
    let outcome = h.run(
        vec![Message::user("hi")],
        token,
        vec![Scripted::Reply(text_completion("unreachable"))],
    );
    assert!(outcome.requests.is_empty(), "a cancelled run must not start further work");
    let record = record_of(outcome);
    assert_eq!(record.ending, RunEnding::Cancelled);
    assert!(record.trace.rounds.is_empty());
}

#[test]
fn cancelling_mid_round_skips_the_remaining_calls() {
    let h = harness(vec![("cancel", Tool::Cancel), ("echo", Tool::Echo)]);
    let completion = Completion {
        content: vec![
            Content::ToolUse(ToolUse {
                id: "call-cancel".to_owned(),
                name: "cancel".to_owned(),
                input: "{}".to_owned(),
            }),
            Content::ToolUse(ToolUse {
                id: "call-echo".to_owned(),
                name: "echo".to_owned(),
                input: "{}".to_owned(),
            }),
        ],
        usage: Usage {
            input_tokens: Some(10),
            output_tokens: Some(2),
        },
        stop_reason: StopReason::ToolUse,
        raw_stop_reason: "tool_use".to_owned(),
        model: "test-model".to_owned(),
    };
    let record = record_of(h.run(
        vec![Message::user("cancel me")],
        CancellationToken::new(),
        vec![Scripted::Reply(completion)],
    ));

    assert_eq!(record.ending, RunEnding::Cancelled);
    assert_eq!(record.trace.rounds.len(), 1);
    assert_eq!(
        record.trace.rounds[0].tool_calls.len(),
        1,
        "cancellation must be checked before the second tool dispatch, so echo never runs"
    );
}

#[test]
fn a_failing_tool_is_a_result_and_the_run_goes_on() {
    let h = harness(vec![("fail", Tool::Fail)]);
    let record = record_of(h.run(
        vec![Message::user("try it")],
        CancellationToken::new(),
        vec![
            Scripted::Reply(tool_use_completion("call-1", "fail", "{}")),
            Scripted::Reply(text_completion("recovered")),
        ],
    ));

    assert_eq!(record.ending, RunEnding::Completed);
    assert_eq!(record.reply, Some("recovered".to_owned()));
    let call = &record.trace.rounds[0].tool_calls[0];
    assert!(call.failed);
    assert_eq!(call.latency, Duration::from_millis(3));
    assert_eq!(
        record.trace.messages[1],
        Message::tool_results(vec![ToolResult {
            tool_use_id: "call-1".to_owned(),
            content: "`fail` failed: boom".to_owned(),
            is_error: true,
        }])
    );
    assert_eq!(
        record.trace.total_usage,
        Usage {
            input_tokens: Some(15),
            output_tokens: Some(3),
        },
        "usage sums across every round"
    );
}

#[test]
fn an_unknown_tool_is_answered_with_the_registered_names() {
    let h = harness(vec![("echo", Tool::Echo)]);
    let record = record_of(h.run(
        vec![Message::user("go")],
        CancellationToken::new(),
        vec![
            Scripted::Reply(tool_use_completion("call-1", "nope", "{}")),
            Scripted::Reply(text_completion("ok")),
        ],
    ));
    match &record.trace.messages[1].content[0] {
        Content::ToolResult(result) => {
            assert!(result.is_error);
            assert_eq!(result.content, "no tool named `nope`");
        }
        _ => panic!("expected a tool result"),
    }
}

#[test]
fn a_provider_failure_keeps_the_rounds_before_it() {
    let h = harness(vec![("echo", Tool::Echo)]);
    let outcome = h.run(
        vec![Message::user("hi")],
        CancellationToken::new(),
        vec![
            Scripted::Reply(tool_use_completion("call-1", "echo", "{}")),
            Scripted::Fail(ProviderFailure::Status {
                provider: "test".to_owned(),
                status: 400,
                message: "boom".to_owned(),
                retry_after: None,
            }),
        ],
    );
    let Err(failure) = outcome.result else {
        panic!("a provider failure must surface as an error");
    };
    let RunFailure::Provider { source, trace } = &failure else {
        panic!("expected RunFailure::Provider");
    };
    assert!(matches!(source, ProviderFailure::Status { status: 400, .. }));
    assert_eq!(trace.rounds.len(), 1, "the earlier successful round must survive in the trace");
    assert_eq!(trace.messages.len(), 2);
    assert!(failure.source().expect("the source").describe().contains("boom"));
}

struct Toggle(Arc<Mutex<String>>);

impl DynamicSection for Toggle {
    fn render(&self) -> String {
        self.0.lock().expect("lock").clone()
    }
}

fn system_text(request: &CompletionRequest) -> &str {
    match request.messages.first() {
        Some(Message {
            role: Role::System,
            content,
        }) => match content.as_slice() {
            [Content::Text(text)] => text,
            _ => panic!("the system message must be a single text block"),
        },
        _ => panic!("the request must open with a system message"),
    }
}

#[test]
fn sections_are_rendered_fresh_for_every_round() {
    let mut h = harness(vec![("set_section", Tool::SetSection)]);
    h.sections = vec![
        SystemSection::from_text("fixed"),
        SystemSection::from_text(""),
        SystemSection::dynamic(Toggle(h.shared.clone())),
    ];
    let outcome = h.run(
        vec![Message::user("go")],
        CancellationToken::new(),
        vec![
            Scripted::Reply(tool_use_completion("call-1", "set_section", "{}")),
            Scripted::Reply(text_completion("done")),
        ],
    );
    assert_eq!(outcome.requests.len(), 2);
    assert_eq!(system_text(&outcome.requests[0]), "fixed\n\noriginal");
    assert_eq!(system_text(&outcome.requests[1]), "fixed\n\nchanged");
    assert_eq!(outcome.requests[1].messages.len(), 4, "system, user, assistant, results");
    assert_eq!(outcome.requests[0].tools, vec![spec("set_section")]);
    for request in &outcome.requests {
        assert!(request.validate().is_ok(), "every request keeps the request rules");
    }
}

#[test]
fn total_usage_is_unknown_when_any_round_s_is() {
    let h = harness(vec![("echo", Tool::Echo)]);
    let mut second = text_completion("done");
    second.usage = Usage {
        input_tokens: Some(7),
        output_tokens: None,
    };
    let record = record_of(h.run(
        vec![Message::user("hi")],
        CancellationToken::new(),
        vec![
            Scripted::Reply(tool_use_completion("call-1", "echo", "{}")),
            Scripted::Reply(second),
        ],
    ));
    assert_eq!(
        record.trace.total_usage,
        Usage {
            input_tokens: Some(17),
            output_tokens: None,
        }
    );
}

#[test]
fn default_limits_allow_sixteen_rounds_and_stall_at_four() {
    assert_eq!(
        Limits::default(),
        Limits {
            round_limit: 16,
            stall_threshold: 4,
        }
    );
}
