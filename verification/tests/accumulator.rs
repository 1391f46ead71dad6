use grizzly_agent::accumulator::{CompletionAccumulator, resolve_tool_use};
use grizzly_agent::completion::{Completion, CompletionEvent, StopReason, Usage};
use grizzly_agent::failure::ProviderFailure;
use grizzly_agent::message::{Content, ToolUse};
use grizzly_agent::replay::events_for;

fn finished(stop_reason: StopReason) -> CompletionEvent {
    CompletionEvent::Finished {
        stop_reason,
        raw_stop_reason: "raw".to_owned(),
        model: "test-model".to_owned(),
    }
}

fn canonical(text: &str) -> String {
    serde_json::from_str::<serde_json::Value>(text)
        .expect("test JSON must parse")
        .to_string()
}

#[test]
fn text_deltas_of_the_same_kind_merge_into_one_block() {
    let mut accumulator = CompletionAccumulator::new();
    accumulator.push(CompletionEvent::TextDelta("hello ".to_owned()));
    accumulator.push(CompletionEvent::TextDelta("world".to_owned()));
    accumulator.push(finished(StopReason::EndOfTurn));

    let completion = accumulator.finish().expect("a finished stream must fold");

    assert_eq!(
        completion.content,
        vec![Content::Text("hello world".to_owned())],
        "consecutive text deltas must merge into a single block"
    );
}

#[test]
fn a_delta_of_a_different_kind_starts_a_new_block_and_order_follows_the_stream() {
    let mut accumulator = CompletionAccumulator::new();
    accumulator.push(CompletionEvent::ReasoningDelta("thinking".to_owned()));
    accumulator.push(CompletionEvent::TextDelta("reply".to_owned()));
    accumulator.push(CompletionEvent::ReasoningDelta("more thinking".to_owned()));
    accumulator.push(finished(StopReason::EndOfTurn));

    let completion = accumulator.finish().expect("a finished stream must fold");

    assert_eq!(
        completion.content,
        vec![
            Content::Reasoning {
                text: "thinking".to_owned(),
                signature: None,
            },
            Content::Text("reply".to_owned()),
            Content::Reasoning {
                text: "more thinking".to_owned(),
                signature: None,
            },
        ],
        "block order in the reassembled message must follow the stream"
    );
}

#[test]
fn interleaved_tool_call_argument_fragments_reassemble_by_id() {
    let mut accumulator = CompletionAccumulator::new();
    accumulator.push(CompletionEvent::ToolUseStart {
        id: "call-1".to_owned(),
        name: "read_file".to_owned(),
    });
    accumulator.push(CompletionEvent::ToolUseStart {
        id: "call-2".to_owned(),
        name: "write_file".to_owned(),
    });
    accumulator.push(CompletionEvent::ToolUseArgumentsDelta {
        id: "call-1".to_owned(),
        fragment: "{\"pat".to_owned(),
    });
    accumulator.push(CompletionEvent::ToolUseArgumentsDelta {
        id: "call-2".to_owned(),
        fragment: "{\"path\":".to_owned(),
    });
    accumulator.push(CompletionEvent::ToolUseArgumentsDelta {
        id: "call-1".to_owned(),
        fragment: "h\":\"a.txt\"}".to_owned(),
    });
    accumulator.push(CompletionEvent::ToolUseArgumentsDelta {
        id: "call-2".to_owned(),
        fragment: "\"b.txt\"}".to_owned(),
    });
    accumulator.push(finished(StopReason::ToolUse));

    let completion = accumulator
        .finish()
        .expect("interleaved fragments must reassemble");

    let Content::ToolUse(first) = completion.content.first().expect("first block") else {
        panic!("expected a tool-use block first");
    };
    let Content::ToolUse(second) = completion.content.get(1).expect("second block") else {
        panic!("expected a tool-use block second");
    };
    assert_eq!(first.id, "call-1");
    assert_eq!(first.input, canonical("{\"path\": \"a.txt\"}"));
    assert_eq!(second.id, "call-2");
    assert_eq!(second.input, canonical("{\"path\": \"b.txt\"}"));
}

#[test]
fn unparseable_arguments_are_a_decode_failure() {
    let mut accumulator = CompletionAccumulator::new();
    accumulator.push(CompletionEvent::ToolUseStart {
        id: "call-1".to_owned(),
        name: "read_file".to_owned(),
    });
    accumulator.push(CompletionEvent::ToolUseArgumentsDelta {
        id: "call-1".to_owned(),
        fragment: "{not json".to_owned(),
    });
    accumulator.push(finished(StopReason::ToolUse));

    let error = accumulator
        .finish()
        .expect_err("unparseable arguments must fail decode");

    assert!(
        matches!(error, ProviderFailure::Decode { .. }),
        "unparseable tool arguments must be a decode-class failure, got {}",
        error.describe()
    );
    let ProviderFailure::Decode { provider, .. } = error else {
        unreachable!()
    };
    assert_eq!(provider, "test-model's `read_file` tool call");
}

#[test]
fn max_tokens_drops_an_incomplete_tool_use_block_and_keeps_the_rest() {
    let mut accumulator = CompletionAccumulator::new();
    accumulator.push(CompletionEvent::TextDelta("here goes".to_owned()));
    accumulator.push(CompletionEvent::ToolUseStart {
        id: "call-1".to_owned(),
        name: "read_file".to_owned(),
    });
    accumulator.push(CompletionEvent::ToolUseArgumentsDelta {
        id: "call-1".to_owned(),
        fragment: "{\"path\": \"cut off".to_owned(),
    });
    accumulator.push(finished(StopReason::MaxTokens));

    let completion = accumulator
        .finish()
        .expect("a truncated tool call under max-tokens must not fail");

    assert_eq!(
        completion.content,
        vec![Content::Text("here goes".to_owned())],
        "the incomplete tool-use block must be dropped, keeping the rest of the completion"
    );
}

#[test]
fn usage_events_merge_field_by_field_in_arrival_order() {
    let mut accumulator = CompletionAccumulator::new();
    accumulator.push(CompletionEvent::Usage(Usage {
        input_tokens: Some(10),
        output_tokens: None,
    }));
    accumulator.push(CompletionEvent::Usage(Usage {
        input_tokens: None,
        output_tokens: Some(20),
    }));
    accumulator.push(finished(StopReason::EndOfTurn));

    let completion = accumulator.finish().expect("a finished stream must fold");

    assert_eq!(
        completion.usage,
        Usage {
            input_tokens: Some(10),
            output_tokens: Some(20),
        },
        "usage fields must merge across events rather than the last event replacing the whole struct"
    );
}

#[test]
fn a_stream_that_never_finishes_fails_retryably() {
    let mut accumulator = CompletionAccumulator::new();
    accumulator.push(CompletionEvent::TextDelta("partial".to_owned()));

    let error = accumulator
        .finish()
        .expect_err("a stream with no finished event must fail");

    assert!(
        error.is_retryable(),
        "a stream ending without a finished event must fail retryably, got {}",
        error.describe()
    );
}

#[test]
fn a_signature_attaches_to_the_reasoning_before_it() {
    let mut accumulator = CompletionAccumulator::new();
    accumulator.push(CompletionEvent::ReasoningSignatureDelta("lost".to_owned()));
    accumulator.push(CompletionEvent::ReasoningDelta("think".to_owned()));
    accumulator.push(CompletionEvent::ReasoningSignatureDelta("sig-".to_owned()));
    accumulator.push(CompletionEvent::ReasoningSignatureDelta("1".to_owned()));
    accumulator.push(finished(StopReason::EndOfTurn));

    let completion = accumulator.finish().expect("a finished stream must fold");
    assert_eq!(
        completion.content,
        vec![Content::Reasoning {
            text: "think".to_owned(),
            signature: Some("sig-1".to_owned()),
        }]
    );
    assert_eq!(completion.model, "test-model");
    assert_eq!(completion.raw_stop_reason, "raw");
}

#[test]
fn tool_arguments_come_back_in_canonical_form() {
    let mut accumulator = CompletionAccumulator::new();
    accumulator.push(CompletionEvent::ToolUseStart {
        id: "c".to_owned(),
        name: "echo".to_owned(),
    });
    accumulator.push(CompletionEvent::ToolUseArgumentsDelta {
        id: "c".to_owned(),
        fragment: "{ \"b\": 2, \"a\": 1 }".to_owned(),
    });
    accumulator.push(finished(StopReason::ToolUse));
    let completion = accumulator.finish().expect("valid arguments must fold");
    assert_eq!(
        completion.content,
        vec![Content::ToolUse(ToolUse {
            id: "c".to_owned(),
            name: "echo".to_owned(),
            input: "{\"a\":1,\"b\":2}".to_owned(),
        })],
        "the parsed value is rendered compactly with sorted keys, not handed back as typed"
    );
}

#[test]
fn a_tool_call_without_arguments_fails_to_decode() {
    let mut accumulator = CompletionAccumulator::new();
    accumulator.push(CompletionEvent::ToolUseStart {
        id: "c".to_owned(),
        name: "echo".to_owned(),
    });
    accumulator.push(finished(StopReason::ToolUse));
    assert!(matches!(
        accumulator.finish(),
        Err(ProviderFailure::Decode { .. })
    ));
}

#[test]
fn resolving_a_tool_use_follows_the_parse_outcome() {
    let tool_use = ToolUse {
        id: "c".to_owned(),
        name: "echo".to_owned(),
        input: "null".to_owned(),
    };
    let parsed = resolve_tool_use(&tool_use, Ok("{\"a\":1}".to_owned()), StopReason::ToolUse, "m");
    match parsed {
        Ok(Some(resolved)) => assert_eq!(
            resolved,
            ToolUse {
                id: "c".to_owned(),
                name: "echo".to_owned(),
                input: "{\"a\":1}".to_owned(),
            }
        ),
        other => panic!("expected the resolved call, got {other:?}"),
    }
    assert!(matches!(
        resolve_tool_use(&tool_use, Err("eof".to_owned()), StopReason::MaxTokens, "m"),
        Ok(None)
    ));
    match resolve_tool_use(&tool_use, Err("eof".to_owned()), StopReason::EndOfTurn, "m") {
        Err(ProviderFailure::Decode { provider, detail }) => {
            assert_eq!(provider, "m's `echo` tool call");
            assert_eq!(detail, "eof");
        }
        other => panic!("expected a decode failure, got {other:?}"),
    }
}

#[test]
fn a_completion_replays_as_events_that_fold_back_into_it() {
    let completion = Completion {
        content: vec![
            Content::Reasoning {
                text: "plan".to_owned(),
                signature: None,
            },
            Content::Text("calling".to_owned()),
            Content::ToolUse(ToolUse {
                id: "c1".to_owned(),
                name: "echo".to_owned(),
                input: "{\"a\":1}".to_owned(),
            }),
        ],
        usage: Usage {
            input_tokens: Some(3),
            output_tokens: None,
        },
        stop_reason: StopReason::ToolUse,
        raw_stop_reason: "tool_use".to_owned(),
        model: "m".to_owned(),
    };
    let events = events_for(completion.clone());
    assert_eq!(events.len(), 6, "one per text block, two for the call, usage, finish");
    assert_eq!(
        events.last(),
        Some(&CompletionEvent::Finished {
            stop_reason: StopReason::ToolUse,
            raw_stop_reason: "tool_use".to_owned(),
            model: "m".to_owned(),
        })
    );
    let mut accumulator = CompletionAccumulator::new();
    for event in events {
        accumulator.push(event);
    }
    assert_eq!(accumulator.finish().expect("a replay must fold"), completion);

    let silent = Completion {
        content: Vec::new(),
        usage: Usage::default(),
        stop_reason: StopReason::EndOfTurn,
        raw_stop_reason: "stop".to_owned(),
        model: "m".to_owned(),
    };
    assert_eq!(
        events_for(silent).len(),
        1,
        "unknown usage is not replayed, only the finishing event"
    );
}
