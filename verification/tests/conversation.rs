use grizzly_agent::completion::{StopReason, Usage};
use grizzly_agent::failure::{ProviderFailure, RunFailure, ToolFailure};
use grizzly_agent::message::{Content, Message, Role, ToolResult, ToolUse};
use grizzly_agent::tools::StopRequest;
use grizzly_agent::trace::{RoundRecord, RunEnding, RunRecord, RunTrace, ToolCallRecord};
use grizzly_agent::turn::{tool_outcome_to_result, total_usage};
use grizzly_agent::Duration;

fn tool_use(id: &str, name: &str) -> ToolUse {
    ToolUse {
        id: id.to_owned(),
        name: name.to_owned(),
        input: "{}".to_owned(),
    }
}

#[test]
fn text_content_joins_only_text_blocks() {
    let message = Message {
        role: Role::Assistant,
        content: vec![
            Content::Reasoning {
                text: "deliberating".to_owned(),
                signature: None,
            },
            Content::Text("first".to_owned()),
            Content::ToolUse(tool_use("t1", "read")),
            Content::Text("second".to_owned()),
        ],
    };

    assert_eq!(
        message.text_content(),
        "first\nsecond",
        "reasoning and tool use must not leak into rendered text"
    );
}

#[test]
fn reasoning_is_never_treated_as_text() {
    let message = Message {
        role: Role::Assistant,
        content: vec![Content::Reasoning {
            text: "thinking out loud".to_owned(),
            signature: Some("sig-1".to_owned()),
        }],
    };

    assert_eq!(
        message.text_content(),
        "",
        "a reply that is only reasoning has no text to render"
    );
}

#[test]
fn tool_only_message_has_empty_text_rather_than_none() {
    let message = Message {
        role: Role::Assistant,
        content: vec![Content::ToolUse(tool_use("t1", "read"))],
    };

    assert_eq!(
        message.text_content(),
        "",
        "a tool-only turn is ordinary, not a missing value"
    );
}

#[test]
fn requests_tools_drives_the_loop_stop_condition() {
    let asking = Message {
        role: Role::Assistant,
        content: vec![
            Content::Text("let me look".to_owned()),
            Content::ToolUse(tool_use("t1", "read")),
        ],
    };
    let done = Message::assistant("here is the answer");

    assert!(
        asking.requests_tools(),
        "text alongside a tool call is a preamble, not a final answer"
    );
    assert!(
        !done.requests_tools(),
        "a reply with no tool calls ends the turn"
    );
}

#[test]
fn tool_uses_preserves_order_across_a_batch() {
    let message = Message {
        role: Role::Assistant,
        content: vec![
            Content::ToolUse(tool_use("t1", "read")),
            Content::Text("and then".to_owned()),
            Content::ToolUse(tool_use("t2", "write")),
        ],
    };

    let names: Vec<&str> = message
        .tool_uses()
        .iter()
        .map(|use_| use_.name.as_str())
        .collect();

    assert_eq!(
        names,
        vec!["read", "write"],
        "batched tool calls must stay in the order the model issued them"
    );
}

#[test]
fn tool_results_builds_one_block_per_result() {
    let message = Message::tool_results(vec![
        ToolResult {
            tool_use_id: "t1".to_owned(),
            content: "ok".to_owned(),
            is_error: false,
        },
        ToolResult {
            tool_use_id: "t2".to_owned(),
            content: "no such file".to_owned(),
            is_error: true,
        },
    ]);

    assert_eq!(
        message.role,
        Role::User,
        "the model reads tool output as user-supplied input"
    );
    assert_eq!(message.content.len(), 2, "each result gets its own block");
}

#[test]
fn a_failed_tool_result_is_still_content() {
    let result = ToolResult {
        tool_use_id: "t1".to_owned(),
        content: "permission denied".to_owned(),
        is_error: true,
    };

    let message = Message::tool_results(vec![result]);

    assert_eq!(
        message.text_content(),
        "",
        "tool results are not the assistant's rendered text"
    );
    assert!(
        matches!(
            message.content.first(),
            Some(Content::ToolResult(inner)) if inner.is_error
        ),
        "a failure must survive as a flagged result the model can read, not an error"
    );
}

#[test]
fn tool_results_keep_their_order() {
    let message = Message::tool_results(vec![
        ToolResult {
            tool_use_id: "a".to_owned(),
            content: "1".to_owned(),
            is_error: false,
        },
        ToolResult {
            tool_use_id: "b".to_owned(),
            content: "2".to_owned(),
            is_error: false,
        },
        ToolResult {
            tool_use_id: "c".to_owned(),
            content: "3".to_owned(),
            is_error: true,
        },
    ]);
    let ids: Vec<&str> = message
        .content
        .iter()
        .map(|block| match block {
            Content::ToolResult(result) => result.tool_use_id.as_str(),
            _ => panic!("only result blocks expected"),
        })
        .collect();
    assert_eq!(ids, vec!["a", "b", "c"]);
}

#[test]
fn text_constructors_hold_one_text_block() {
    for (message, role) in [
        (Message::system("s"), Role::System),
        (Message::user("u"), Role::User),
        (Message::assistant("a"), Role::Assistant),
    ] {
        assert_eq!(message.role, role);
        assert_eq!(message.content.len(), 1);
    }
    assert_eq!(
        Message::user("hello").content,
        vec![Content::Text("hello".to_owned())]
    );
}

#[test]
fn merge_keeps_earlier_field_when_later_event_leaves_it_unset() {
    let first = Usage {
        input_tokens: Some(10),
        output_tokens: None,
    };
    let second = Usage {
        input_tokens: None,
        output_tokens: Some(20),
    };

    let merged = first.merge(second);

    assert_eq!(
        merged,
        Usage {
            input_tokens: Some(10),
            output_tokens: Some(20),
        },
        "a field the later event does not report must keep the earlier value"
    );
}

#[test]
fn merge_overwrites_field_when_later_event_reports_it() {
    let first = Usage {
        input_tokens: Some(10),
        output_tokens: Some(15),
    };
    let second = Usage {
        input_tokens: Some(12),
        output_tokens: None,
    };

    let merged = first.merge(second);

    assert_eq!(
        merged,
        Usage {
            input_tokens: Some(12),
            output_tokens: Some(15),
        },
        "a field the later event reports must replace the earlier value"
    );
}

#[test]
fn merging_unknown_usage_changes_nothing() {
    let usage = Usage {
        input_tokens: Some(3),
        output_tokens: None,
    };
    assert_eq!(usage.merge(Usage::default()), usage);
    assert_eq!(Usage::default().merge(usage), usage);
}

#[test]
fn merging_is_associative() {
    let a = Usage {
        input_tokens: Some(1),
        output_tokens: None,
    };
    let b = Usage {
        input_tokens: None,
        output_tokens: Some(2),
    };
    let c = Usage {
        input_tokens: Some(3),
        output_tokens: None,
    };
    assert_eq!(a.merge(b).merge(c), a.merge(b.merge(c)));
}

fn status(code: u16) -> ProviderFailure {
    ProviderFailure::Status {
        provider: "test".to_owned(),
        status: code,
        message: "boom".to_owned(),
        retry_after: None,
    }
}

fn transport() -> ProviderFailure {
    ProviderFailure::Transport {
        provider: "test".to_owned(),
        detail: "connection reset".to_owned(),
    }
}

#[test]
fn rate_limits_and_server_errors_are_retryable() {
    for code in [408, 429, 500, 502, 503, 504] {
        assert!(
            status(code).is_retryable(),
            "HTTP {code} should be retryable"
        );
    }
    assert!(
        transport().is_retryable(),
        "transport failures are transient"
    );
}

#[test]
fn client_errors_are_not_retryable() {
    for code in [400, 401, 403, 404, 422] {
        assert!(
            !status(code).is_retryable(),
            "HTTP {code} will fail identically on retry"
        );
    }
}

#[test]
fn a_decode_failure_is_never_retryable() {
    let detail = serde_json::from_str::<serde_json::Value>("{not json")
        .expect_err("this input is deliberately malformed")
        .to_string();
    let failure = ProviderFailure::Decode {
        provider: "test".to_owned(),
        detail,
    };

    assert!(
        !failure.is_retryable(),
        "an identical request produces the same unparseable response"
    );
}

#[test]
fn classification_ignores_message_wording() {
    let reworded = ProviderFailure::Status {
        provider: "test".to_owned(),
        status: 429,
        message: "slow down friend".to_owned(),
        retry_after: None,
    };

    assert!(
        reworded.is_retryable(),
        "retryability comes from the status code, never from the message text"
    );

    let misleading = ProviderFailure::Status {
        provider: "test".to_owned(),
        status: 400,
        message: "rate limit 429 service unavailable 503".to_owned(),
        retry_after: None,
    };

    assert!(
        !misleading.is_retryable(),
        "substring-matching the message would wrongly retry this permanent failure"
    );
}

#[test]
fn retry_after_is_surfaced_only_where_a_server_sent_one() {
    let with_hint = ProviderFailure::Status {
        provider: "test".to_owned(),
        status: 429,
        message: "slow down".to_owned(),
        retry_after: Some(Duration::from_secs(30)),
    };

    assert_eq!(
        with_hint.retry_after(),
        Some(Duration::from_secs(30)),
        "the server's own guidance must reach the retry policy"
    );
    assert_eq!(
        transport().retry_after(),
        None,
        "a request that never arrived carries no server guidance"
    );
}

#[test]
fn a_tool_failure_becomes_a_flagged_result_the_model_can_read() {
    let failure = ToolFailure::InvalidArguments {
        name: "read_file".to_owned(),
        reason: "`path` is required".to_owned(),
    };

    let result = failure.into_result("call-1");

    assert_eq!(
        result.tool_use_id, "call-1",
        "the result must address the call that asked for it"
    );
    assert!(result.is_error, "the model should know this was a failure");
    assert!(
        result.content.contains("`path` is required"),
        "the correction must survive into text the model reads, got: {}",
        result.content
    );
}

#[test]
fn unknown_tool_names_the_tool_that_was_asked_for() {
    let failure = ToolFailure::Unknown {
        name: "delete_everything".to_owned(),
        available: vec!["read_file".to_owned()],
    };

    let rendered = failure.describe();

    assert!(
        rendered.contains("delete_everything"),
        "the model needs to see which name it got wrong, got: {rendered}"
    );
}

#[test]
fn every_tool_failure_renders_its_own_message() {
    let unknown = ToolFailure::Unknown {
        name: "x".to_owned(),
        available: Vec::new(),
    };
    let invalid = ToolFailure::InvalidArguments {
        name: "read".to_owned(),
        reason: "bad".to_owned(),
    };
    let execution = ToolFailure::Execution {
        name: "read".to_owned(),
        message: "disk full".to_owned(),
    };
    assert_eq!(unknown.describe(), "no tool named `x`");
    assert_eq!(invalid.describe(), "invalid arguments for `read`: bad");
    assert_eq!(execution.describe(), "`read` failed: disk full");
    let result = execution.into_result("c9");
    assert_eq!(result.content, "`read` failed: disk full");
    assert_eq!(result.tool_use_id, "c9");
}

#[test]
fn an_invalid_request_is_never_retryable_and_carries_no_retry_after() {
    let failure = ProviderFailure::InvalidRequest("system message not at the head".to_owned());

    assert!(
        !failure.is_retryable(),
        "the same request breaks the same invariant every time"
    );
    assert_eq!(
        failure.retry_after(),
        None,
        "a request rejected before it reached a provider carries no server guidance"
    );
}

#[test]
fn every_provider_failure_renders_its_own_message() {
    assert_eq!(status(503).describe(), "test returned HTTP 503: boom");
    assert_eq!(transport().describe(), "transport failure contacting test");
    let decode = ProviderFailure::Decode {
        provider: "p".to_owned(),
        detail: "eof".to_owned(),
    };
    assert_eq!(decode.describe(), "could not decode p response");
    assert_eq!(
        ProviderFailure::Configuration("no key".to_owned()).describe(),
        "no key"
    );
    assert_eq!(
        ProviderFailure::InvalidRequest("rule".to_owned()).describe(),
        "invalid request: rule"
    );
    assert!(!ProviderFailure::Configuration("no key".to_owned()).is_retryable());
}

#[test]
fn a_run_failure_wraps_the_provider_failure_as_its_source() {
    let trace = RunTrace {
        messages: Vec::new(),
        rounds: Vec::new(),
        total_usage: Usage::default(),
    };
    let failure = RunFailure::Provider {
        source: status(503),
        trace: Box::new(trace),
    };

    let source = failure
        .source()
        .expect("a provider failure must be attached as the source");
    assert!(
        source.describe().contains("503"),
        "the wrapped provider failure must survive unchanged, got: {}",
        source.describe()
    );
}

#[test]
fn an_invalid_conversation_names_the_broken_rule() {
    let failure = RunFailure::InvalidConversation {
        reason: "system messages must appear only at the head".to_owned(),
    };

    assert!(
        failure
            .describe()
            .contains("system messages must appear only at the head"),
        "the message must name the rule that broke, got: {}",
        failure.describe()
    );
    assert!(failure.source().is_none());
}

#[test]
fn a_run_record_carries_its_ending_reply_and_trace_together() {
    let round = RoundRecord {
        usage: Usage {
            input_tokens: Some(10),
            output_tokens: Some(4),
        },
        stop_reason: StopReason::EndOfTurn,
        latency: Duration::from_millis(50),
        tool_calls: vec![ToolCallRecord {
            name: "read_file".to_owned(),
            arguments: "{\"path\":\"README.md\"}".to_owned(),
            failed: false,
            latency: Duration::from_millis(5),
        }],
    };
    let trace = RunTrace {
        messages: Vec::new(),
        rounds: vec![round.clone()],
        total_usage: round.usage,
    };
    let record = RunRecord {
        ending: RunEnding::Completed,
        reply: Some("done".to_owned()),
        trace: trace.clone(),
    };

    assert_eq!(record.ending, RunEnding::Completed);
    assert_eq!(record.reply, Some("done".to_owned()));
    assert_eq!(record.trace, trace);
}

#[test]
fn stop_requested_and_stalled_endings_carry_their_own_detail() {
    let stop_requested = RunEnding::StopRequested(StopRequest {
        reply: "handing off".to_owned(),
        reason: "needs a human".to_owned(),
    });
    let stalled = RunEnding::Stalled {
        tool: "read_file".to_owned(),
        count: 4,
    };

    assert!(matches!(
        stop_requested,
        RunEnding::StopRequested(StopRequest { reply, .. }) if reply == "handing off"
    ));
    assert!(matches!(
        stalled,
        RunEnding::Stalled { tool, count: 4 } if tool == "read_file"
    ));
}

fn round_with_usage(input_tokens: Option<u64>, output_tokens: Option<u64>) -> RoundRecord {
    RoundRecord {
        usage: Usage {
            input_tokens,
            output_tokens,
        },
        stop_reason: StopReason::EndOfTurn,
        latency: Duration::from_millis(1),
        tool_calls: Vec::new(),
    }
}

#[test]
fn total_usage_sums_each_count_unless_a_round_left_it_unreported() {
    let rounds = vec![round_with_usage(Some(10), Some(2)), round_with_usage(Some(5), None)];
    assert_eq!(
        total_usage(&rounds),
        Usage {
            input_tokens: Some(15),
            output_tokens: None,
        }
    );
    assert_eq!(
        total_usage(&Vec::new()),
        Usage {
            input_tokens: Some(0),
            output_tokens: Some(0),
        }
    );
}

#[test]
fn a_tool_outcome_becomes_the_result_the_model_reads() {
    let call = tool_use("t7", "lookup");
    let (result, failed) = tool_outcome_to_result(&call, Ok("42".to_owned()));
    assert_eq!(
        result,
        ToolResult {
            tool_use_id: "t7".to_owned(),
            content: "42".to_owned(),
            is_error: false,
        }
    );
    assert!(!failed);

    let failure = ToolFailure::Execution {
        name: "lookup".to_owned(),
        message: "no such row".to_owned(),
    };
    let (result, failed) = tool_outcome_to_result(&call, Err(failure));
    assert_eq!(result.tool_use_id, "t7");
    assert_eq!(result.content, "`lookup` failed: no such row");
    assert!(result.is_error);
    assert!(failed);
}
