use grizzly_agent::agent_eval::{
    AgentEvalRunner, DetailKind, RepeatOutcome, failure_verdict, group_by_case, repeat_verdict,
    scored_verdict,
};
use grizzly_agent::aggregate::{CaseTally, count, mean_duration, mean_u64};
use grizzly_agent::case::{CaseMeta, DEFAULT_MIN_PASS_RATE_BITS, DEFAULT_REPEATS};
use grizzly_agent::check::CheckResult;
use grizzly_agent::completion::{Completion, StopReason, Usage};
use grizzly_agent::failure::{ProviderFailure, RunFailure};
use grizzly_agent::message::{Content, Message};
use grizzly_agent::report::{SuiteResult, display_name, footer, name_width};
use grizzly_agent::request::CompletionRequest;
use grizzly_agent::response_eval::{CaseTimeout, ResponseEvalCase, reply_text, reply_verdict};
use grizzly_agent::trace::{RunEnding, RunRecord, RunTrace};
use grizzly_agent::verdict::{Verdict, VerdictCategory};
use grizzly_agent::Duration;

#[test]
fn each_constructor_sets_its_category() {
    assert_eq!(
        Verdict::pass("ok").category,
        VerdictCategory::Pass,
        "pass must build a Pass verdict"
    );
    assert_eq!(
        Verdict::wrong("no").category,
        VerdictCategory::Wrong,
        "wrong must build a Wrong verdict"
    );
    assert_eq!(
        Verdict::unparseable("garbled").category,
        VerdictCategory::Unparseable,
        "unparseable must build an Unparseable verdict"
    );
    assert_eq!(
        Verdict::unavailable("timed out").category,
        VerdictCategory::Unavailable,
        "unavailable must build an Unavailable verdict"
    );
    assert_eq!(
        Verdict::failed("case bug").category,
        VerdictCategory::Failed,
        "failed must build a Failed verdict"
    );
}

#[test]
fn only_pass_counts_as_passed() {
    assert!(
        Verdict::pass("ok").passed(),
        "a Pass verdict must count as passed"
    );
    assert!(
        !Verdict::wrong("no").passed(),
        "a Wrong verdict must not count as passed"
    );
    assert!(
        !Verdict::unparseable("garbled").passed(),
        "an Unparseable verdict must not count as passed"
    );
    assert!(
        !Verdict::unavailable("timed out").passed(),
        "an Unavailable verdict must not count as passed"
    );
    assert!(
        !Verdict::failed("case bug").passed(),
        "a Failed verdict must not count as passed"
    );
}

#[test]
fn with_latency_and_usage_attach_without_changing_the_category() {
    let usage = Usage {
        input_tokens: Some(10),
        output_tokens: Some(20),
    };
    let verdict = Verdict::pass("ok")
        .with_latency(Duration::from_millis(150))
        .with_usage(usage);

    assert_eq!(
        verdict.latency,
        Some(Duration::from_millis(150)),
        "with_latency must set the latency field"
    );
    assert_eq!(
        verdict.usage,
        Some(usage),
        "with_usage must set the usage field"
    );
    assert!(
        verdict.passed(),
        "attaching latency and usage must not change the category"
    );
}

#[test]
fn a_fresh_verdict_knows_nothing_of_its_cost() {
    let verdict = Verdict::wrong("answered b, expected a");
    assert_eq!(verdict.reason, "answered b, expected a");
    assert_eq!(verdict.latency, None);
    assert_eq!(verdict.usage, None);
    assert_eq!(Verdict::new(VerdictCategory::Failed, "x"), Verdict::failed("x"));
}

#[test]
fn passed_and_failed_constructors_set_the_flag() {
    let ok = CheckResult::passed("lint", "exit 0");
    assert!(ok.passed, "passed must set passed to true");
    assert_eq!(ok.name, "lint", "passed must keep the given name");
    assert_eq!(ok.detail, "exit 0", "passed must keep the given detail");

    let bad = CheckResult::failed("lint", "exit 1: unused variable");
    assert!(!bad.passed, "failed must set passed to false");
}

#[test]
fn effective_repeats_prefers_its_own_count_over_the_suite_default() {
    let with_override = CaseMeta {
        repeats: Some(5),
        ..CaseMeta::new("case")
    };
    assert_eq!(
        with_override.effective_repeats(3),
        5,
        "a case's own repeats must win over the suite default"
    );

    let without_override = CaseMeta::new("case");
    assert_eq!(
        without_override.effective_repeats(3),
        3,
        "a case with no repeats set must fall back to the suite default"
    );
}

#[test]
fn threshold_falls_back_to_the_default_pass_rate() {
    let meta = CaseMeta::new("case");
    assert!(
        (f64::from_bits(meta.threshold_bits()) - 2.0 / 3.0).abs() < f64::EPSILON,
        "a case with no min_pass_rate must use the default"
    );
    assert_eq!(f64::from_bits(DEFAULT_MIN_PASS_RATE_BITS), 2.0 / 3.0);
}

#[test]
fn threshold_uses_its_own_pass_rate_when_set() {
    let meta = CaseMeta {
        min_pass_rate_bits: Some(0.5_f64.to_bits()),
        ..CaseMeta::new("case")
    };
    assert!(
        (f64::from_bits(meta.threshold_bits()) - 0.5).abs() < f64::EPSILON,
        "a case's own min_pass_rate must override the default"
    );
}

#[test]
fn a_canary_thresholds_at_one_regardless_of_min_pass_rate() {
    let meta = CaseMeta {
        min_pass_rate_bits: Some(0.1_f64.to_bits()),
        canary: true,
        ..CaseMeta::new("case")
    };
    assert!(
        (f64::from_bits(meta.threshold_bits()) - 1.0).abs() < f64::EPSILON,
        "a canary's threshold must always be 1.0, even with a lower min_pass_rate set"
    );
}

fn verdict_with(category: VerdictCategory) -> Verdict {
    match category {
        VerdictCategory::Pass => Verdict::pass("ok"),
        VerdictCategory::Wrong => Verdict::wrong("no"),
        VerdictCategory::Unparseable => Verdict::unparseable("garbled"),
        VerdictCategory::Unavailable => Verdict::unavailable("timed out"),
        VerdictCategory::Failed => Verdict::failed("case bug"),
    }
}

#[test]
fn the_tally_counts_every_category() {
    let verdicts = vec![
        verdict_with(VerdictCategory::Pass),
        verdict_with(VerdictCategory::Pass),
        verdict_with(VerdictCategory::Wrong),
        verdict_with(VerdictCategory::Unparseable),
        verdict_with(VerdictCategory::Unavailable),
        verdict_with(VerdictCategory::Failed),
    ];

    let tally = CaseTally::of(&verdicts);

    assert_eq!(tally.repeats, 6, "repeats must count every verdict");
    assert_eq!(tally.passes, 2, "passes must count only Pass verdicts");
    assert_eq!(tally.wrong, 1);
    assert_eq!(tally.unparseable, 1);
    assert_eq!(tally.unavailable, 1);
    assert_eq!(tally.failed, 1);
    assert_eq!(
        tally.passes + tally.wrong + tally.unparseable + tally.unavailable + tally.failed,
        tally.repeats,
        "every repeat lands in exactly one category"
    );
    assert_eq!(count(&verdicts, VerdictCategory::Pass), 2);
}

#[test]
fn latency_and_usage_summaries_average_only_reporting_repeats() {
    let verdicts = vec![
        Verdict::pass("ok")
            .with_latency(Duration::from_millis(100))
            .with_usage(Usage {
                input_tokens: Some(10),
                output_tokens: Some(20),
            }),
        Verdict::pass("ok").with_latency(Duration::from_millis(200)),
        Verdict::wrong("no"),
    ];

    let tally = CaseTally::of(&verdicts);

    assert_eq!(tally.mean_latency, Some(Duration::from_millis(150)));
    assert_eq!(tally.mean_input_tokens, Some(10));
    assert_eq!(tally.mean_output_tokens, Some(20));
}

#[test]
fn summaries_are_none_when_no_repeat_reported_them() {
    let verdicts = vec![Verdict::pass("ok"), Verdict::wrong("no")];

    let tally = CaseTally::of(&verdicts);

    assert_eq!(tally.mean_latency, None);
    assert_eq!(tally.mean_input_tokens, None);
    assert_eq!(tally.mean_output_tokens, None);
}

#[test]
fn an_empty_case_tallies_to_zero() {
    let tally = CaseTally::of(&Vec::new());
    assert_eq!(tally.repeats, 0);
    assert_eq!(tally.passes, 0);
    assert_eq!(tally.mean_latency, None);
}

#[test]
fn means_round_down_and_saturate() {
    assert_eq!(mean_u64(&vec![1, 2]), Some(1));
    assert_eq!(mean_u64(&vec![]), None);
    assert_eq!(
        mean_u64(&vec![u64::MAX, u64::MAX]),
        Some(u64::MAX / 2),
        "the running total saturates rather than wrapping"
    );
    assert_eq!(
        mean_duration(&vec![Duration::from_nanos(1), Duration::from_nanos(2)]),
        Some(Duration::from_nanos(1))
    );
    assert_eq!(mean_duration(&Vec::new()), None);
}

#[test]
fn the_plan_repeats_each_case_in_order() {
    let runner = AgentEvalRunner::builder().default_repeats(2).build();
    let first = CaseMeta {
        repeats: Some(1),
        ..CaseMeta::new("first")
    };
    let second = CaseMeta::new("second");
    let third = CaseMeta {
        repeats: Some(0),
        ..CaseMeta::new("third")
    };
    let fourth = CaseMeta {
        repeats: Some(3),
        ..CaseMeta::new("fourth")
    };
    assert_eq!(
        runner.plan(&vec![&first, &second, &third, &fourth]),
        vec![0, 1, 1, 3, 3, 3]
    );
}

#[test]
fn the_runner_defaults_to_one_repeat_at_a_time() {
    let runner = AgentEvalRunner::builder().build();
    assert_eq!(runner.concurrency(), 1);
    assert_eq!(runner.default_repeats(), DEFAULT_REPEATS);
    let raised = AgentEvalRunner::builder().concurrency(4).build();
    assert_eq!(raised.concurrency(), 4);
    let floored = AgentEvalRunner::builder().concurrency(0).build();
    assert_eq!(floored.concurrency(), 1, "concurrency is floored at one");
}

#[test]
fn results_are_grouped_by_case_in_arrival_order() {
    let groups = group_by_case(3, vec![(2, "c1"), (0, "a1"), (2, "c2"), (7, "lost"), (0, "a2")]);
    assert_eq!(groups, vec![vec!["a1", "a2"], vec![], vec!["c1", "c2"]]);
}

fn record_with_usage(usage: Usage) -> RunRecord {
    RunRecord {
        ending: RunEnding::Completed,
        reply: None,
        trace: RunTrace {
            messages: Vec::new(),
            rounds: Vec::new(),
            total_usage: usage,
        },
    }
}

#[test]
fn a_run_failure_classifies_the_repeat() {
    let provider = RunFailure::Provider {
        source: ProviderFailure::Status {
            provider: "test".to_owned(),
            status: 503,
            message: "down".to_owned(),
            retry_after: None,
        },
        trace: Box::new(RunTrace {
            messages: Vec::new(),
            rounds: Vec::new(),
            total_usage: Usage::default(),
        }),
    };
    let verdict = failure_verdict(&provider, Duration::from_millis(9));
    assert_eq!(verdict.category, VerdictCategory::Unavailable);
    assert_eq!(verdict.reason, "test returned HTTP 503: down");
    assert_eq!(verdict.latency, Some(Duration::from_millis(9)));

    let invalid = RunFailure::InvalidConversation {
        reason: "broken".to_owned(),
    };
    let verdict = failure_verdict(&invalid, Duration::from_millis(1));
    assert_eq!(verdict.category, VerdictCategory::Failed);
    assert_eq!(verdict.reason, "broken");
}

#[test]
fn a_scored_run_carries_its_cost_and_keeps_the_transcript_of_a_miss() {
    let usage = Usage {
        input_tokens: Some(4),
        output_tokens: Some(5),
    };
    let (verdict, keep) = scored_verdict(Verdict::pass("ok"), Duration::from_millis(2), &record_with_usage(usage));
    assert!(verdict.passed());
    assert_eq!(verdict.usage, Some(usage));
    assert_eq!(verdict.latency, Some(Duration::from_millis(2)));
    assert!(!keep, "a pass carries no transcript");

    let (verdict, keep) = scored_verdict(Verdict::wrong("no"), Duration::from_millis(2), &record_with_usage(usage));
    assert_eq!(verdict.category, VerdictCategory::Wrong);
    assert!(keep, "a miss keeps the transcript");
}

#[test]
fn each_repeat_outcome_gets_its_verdict_and_detail() {
    let latency = Duration::from_millis(7);
    let (verdict, detail) = repeat_verdict(RepeatOutcome::SetUpFailed("no fixture"), latency);
    assert_eq!(verdict.category, VerdictCategory::Failed);
    assert_eq!(verdict.reason, "no fixture");
    assert_eq!(verdict.latency, Some(latency));
    assert_eq!(detail, DetailKind::Nothing);

    let provider = RunFailure::Provider {
        source: ProviderFailure::Status {
            provider: "test".to_owned(),
            status: 500,
            message: "boom".to_owned(),
            retry_after: None,
        },
        trace: Box::new(RunTrace {
            messages: Vec::new(),
            rounds: Vec::new(),
            total_usage: Usage::default(),
        }),
    };
    let (verdict, detail) = repeat_verdict(RepeatOutcome::RunFailed(&provider), latency);
    assert_eq!(verdict.category, VerdictCategory::Unavailable);
    assert_eq!(verdict.reason, "test returned HTTP 500: boom");
    assert_eq!(detail, DetailKind::FailedRun);

    let invalid = RunFailure::InvalidConversation {
        reason: "bad order".to_owned(),
    };
    let (verdict, detail) = repeat_verdict(RepeatOutcome::RunFailed(&invalid), latency);
    assert_eq!(verdict.category, VerdictCategory::Failed);
    assert_eq!(verdict.reason, "bad order");
    assert_eq!(detail, DetailKind::Nothing);

    let usage = Usage {
        input_tokens: Some(3),
        output_tokens: None,
    };
    let record = record_with_usage(usage);
    let (verdict, detail) = repeat_verdict(RepeatOutcome::CheckFailed("check crashed", &record), latency);
    assert_eq!(verdict.category, VerdictCategory::Failed);
    assert_eq!(verdict.reason, "check crashed");
    assert_eq!(verdict.usage, None);
    assert_eq!(detail, DetailKind::FinishedRun { transcript: true });

    let (verdict, detail) = repeat_verdict(RepeatOutcome::Scored(Verdict::pass("fine"), &record), latency);
    assert!(verdict.passed());
    assert_eq!(verdict.usage, Some(usage));
    assert_eq!(verdict.latency, Some(latency));
    assert_eq!(detail, DetailKind::FinishedRun { transcript: false });

    let (verdict, detail) = repeat_verdict(RepeatOutcome::Scored(Verdict::wrong("off"), &record), latency);
    assert_eq!(verdict.category, VerdictCategory::Wrong);
    assert_eq!(verdict.reason, "off");
    assert_eq!(detail, DetailKind::FinishedRun { transcript: true });
}

struct MinimalCase {
    meta: CaseMeta,
}

impl ResponseEvalCase for MinimalCase {
    type Answer = String;

    fn meta(&self) -> &CaseMeta {
        &self.meta
    }

    fn build_request(&self) -> CompletionRequest {
        CompletionRequest::new(vec![Message::user("hi")])
    }

    fn parse(&self, completion: &Completion) -> Result<Self::Answer, String> {
        Ok(completion.model.clone())
    }

    fn score(&self, _answer: &Self::Answer) -> Verdict {
        Verdict::pass("ok")
    }
}

#[test]
fn a_case_that_overrides_nothing_defers_its_timeout_to_the_runner() {
    let case = MinimalCase {
        meta: CaseMeta::new("minimal"),
    };
    assert_eq!(
        case.timeout(),
        CaseTimeout::Default,
        "a case with no timeout override must report CaseTimeout::Default"
    );
    assert_eq!(case.meta().name, "minimal");
}

struct CustomTimeoutCase {
    meta: CaseMeta,
}

impl ResponseEvalCase for CustomTimeoutCase {
    type Answer = String;

    fn meta(&self) -> &CaseMeta {
        &self.meta
    }

    fn build_request(&self) -> CompletionRequest {
        CompletionRequest::new(vec![Message::user("hi")])
    }

    fn parse(&self, completion: &Completion) -> Result<Self::Answer, String> {
        Ok(completion.model.clone())
    }

    fn score(&self, _answer: &Self::Answer) -> Verdict {
        Verdict::pass("ok")
    }

    fn timeout(&self) -> CaseTimeout {
        CaseTimeout::Custom(Duration::from_secs(5))
    }
}

#[test]
fn a_case_may_set_its_own_timeout() {
    let case = CustomTimeoutCase {
        meta: CaseMeta::new("custom"),
    };
    assert_eq!(
        case.timeout(),
        CaseTimeout::Custom(Duration::from_secs(5)),
        "a case overriding timeout must report its own duration"
    );
}

#[test]
fn a_case_timeout_resolves_against_the_runner_default() {
    let runner_default = Some(Duration::from_secs(30));
    assert_eq!(CaseTimeout::Default.resolve(runner_default), runner_default);
    assert_eq!(CaseTimeout::Default.resolve(None), None);
    assert_eq!(
        CaseTimeout::Custom(Duration::from_secs(5)).resolve(runner_default),
        Some(Duration::from_secs(5))
    );
    assert_eq!(CaseTimeout::Never.resolve(runner_default), None);
    assert_eq!(CaseTimeout::default(), CaseTimeout::Default);
}

#[test]
fn the_reply_text_joins_only_text_blocks() {
    let completion = Completion {
        content: vec![
            Content::Text("a".to_owned()),
            Content::Reasoning {
                text: "hidden".to_owned(),
                signature: None,
            },
            Content::Text("b".to_owned()),
        ],
        usage: Usage::default(),
        stop_reason: StopReason::EndOfTurn,
        raw_stop_reason: "stop".to_owned(),
        model: "m".to_owned(),
    };
    assert_eq!(reply_text(&completion), "a\nb");
}

#[test]
fn a_reply_verdict_keeps_the_raw_reply_of_every_miss() {
    let usage = Usage {
        input_tokens: Some(1),
        output_tokens: Some(2),
    };
    let (verdict, keep) = reply_verdict(Err("not json".to_owned()), Duration::from_millis(4), usage);
    assert_eq!(verdict.category, VerdictCategory::Unparseable);
    assert_eq!(verdict.reason, "not json");
    assert_eq!(verdict.usage, Some(usage));
    assert!(keep);

    let (verdict, keep) = reply_verdict(Ok(Verdict::pass("right")), Duration::from_millis(4), usage);
    assert!(verdict.passed());
    assert_eq!(verdict.latency, Some(Duration::from_millis(4)));
    assert!(!keep);

    let (_, keep) = reply_verdict(Ok(Verdict::wrong("nope")), Duration::from_millis(4), usage);
    assert!(keep);
}

#[test]
fn suite_result_is_met_only_when_every_case_met_its_threshold() {
    assert!(SuiteResult::of(&vec![true]).all_met);
    assert!(!SuiteResult::of(&vec![true, false]).all_met);
    assert!(SuiteResult::of(&Vec::new()).all_met, "no case, nothing missed");
}

#[test]
fn the_summary_marks_canaries_and_counts_the_split() {
    assert_eq!(display_name("watcher-note", true), "watcher-note (canary)");
    assert_eq!(display_name("judge-deny", false), "judge-deny");
    assert_eq!(
        footer(&vec![true, false]),
        "2 cases, 1 at or above threshold, 1 below"
    );
    assert_eq!(footer(&Vec::new()), "0 cases, 0 at or above threshold, 0 below");
}

#[test]
fn the_case_column_widens_to_the_longest_name() {
    assert_eq!(name_width(&vec!["short".to_owned()]), 34);
    let long = "a-case-name-considerably-longer-than-the-minimum-column-width".to_owned();
    assert_eq!(name_width(&vec!["short".to_owned(), long.clone()]), long.len() + 2);
    assert_eq!(name_width(&Vec::new()), 34);
}
