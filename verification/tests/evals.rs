use condesate::agent::model::{call_tool, one_text_value, two_texts_value};
use condesate::agent::tool::LocalTool;
use condesate::evals::golden::{Dimension, Expectation, Golden, Scenario};
use condesate::evals::harness::{
    build_services, invoke_any_tool, invoke_exact_tool, read_write_memory, send_to_any_peer,
    PlaybackModel,
};
use condesate::evals::iris::{
    affirmed, evaluation_args, last_observation, read_evaluation, rule_lines, settle_evaluation,
    verdict_head, verdict_tail, NAMESPACED_TOOL,
};
use condesate::evals::layout::{
    csv_header, csv_record, dashboard, escape_html, summary_lines, table_lines, Figures,
};
use condesate::evals::metrics::{
    all_metrics, score, ContainsMetric, LatencyMetric, Metric, PermissionBoundaryMetric,
    PostCheckMetric, Ratio, ToolTrajectoryMetric,
};
use condesate::evals::outcome::CaseOutcome;
use condesate::evals::playback::tool_specs;
use condesate::evals::report::{run_golden, CaseReport, RunReport};
use condesate::evals::server::{
    answer_run, begin_target, record_calls, route, route_parsed, system_prompt, wait_for_target,
    HttpEvalModel, Reply, RequestHead, Routed, Waiting,
};
use condesate::evals::staging::stage;
use condesate::evals::suite::{
    correctness_remember_then_recall, correctness_word_count, count_and_report,
    groundedness_window_preserves_context, run_scenario, safety_denied_tool_never_executes,
    suite, trajectory_two_step_plan,
};
use condesate::evals::trajectory::{
    assistant, assistant_with_call, reference_trajectory, run_good, run_regressed,
    trajectory_dump, trajectory_value,
};
use condesate::swarm::bus::Payload;
use condesate::swarm::storage::Storage;
use condesate::types::{
    CompletionRequest, CompletionResponse, Failure, Message, ToolCall,
};
use serde_json::Value;

fn json(text: &str) -> Value {
    serde_json::from_str(text).unwrap()
}

fn ratio(num: u64, den: u64) -> Ratio {
    Ratio { num, den }
}

#[test]
fn the_whole_suite_passes() {
    let metrics = all_metrics();
    let cases: Vec<CaseReport> = suite()
        .iter()
        .map(|g| run_golden(g, &metrics, &run_scenario(g.run)))
        .collect();
    for c in &cases {
        assert!(c.passed, "{}: {}", c.id, c.detail);
    }
    let report = RunReport::build(cases, 7);
    assert_eq!(report.generated_at_ms, 7);
    assert_eq!((report.total, report.passed, report.failed), (6, 6, 0));
    let dims: Vec<(&str, usize, usize)> = report
        .by_dimension
        .iter()
        .map(|d| (d.dimension.as_str(), d.total, d.passed))
        .collect();
    assert_eq!(
        dims,
        vec![
            ("correctness", 2, 2),
            ("groundedness", 1, 1),
            ("performance", 1, 1),
            ("safety", 1, 1),
            ("trajectory", 1, 1),
        ]
    );
}

#[test]
fn each_case_shows_what_it_claims() {
    let count = correctness_word_count();
    assert_eq!(count.tool_observations, vec![("word_count".to_string(), "4".to_string())]);
    assert_eq!(count.steps, 1);

    let recall = correctness_remember_then_recall().unwrap();
    assert_eq!(recall.post_check, Some(true));

    let plan = trajectory_two_step_plan();
    assert_eq!(plan.tool_observations.len(), 2);
    assert_eq!(plan.tool_observations[0].1, "4");
    assert_eq!(plan.final_text, "done");
    assert_eq!(plan.steps, 3);

    let denied = safety_denied_tool_never_executes();
    assert_eq!(denied.denied_tools, vec!["shutdown_swarm".to_string()]);
    assert!(denied.tool_observations[0].1.contains("denied"));

    let window = groundedness_window_preserves_context().unwrap();
    assert!(window.haystack().contains("induces current"));
}

#[test]
fn an_activation_can_be_staged_with_any_script() {
    let staged = stage(
        vec![Message::user("remember it")],
        vec!["evaluator".to_string()],
        vec![invoke_any_tool("evaluator"), read_write_memory("evaluator")],
        vec![
            call_tool("saving", "remember", two_texts_value("key", "k", "value", "v")),
            CompletionResponse::say("saved".to_string()),
        ],
        vec![LocalTool::Remember],
        4,
    );
    assert_eq!(staged.outcome.final_text, "saved");
    assert_eq!(staged.outcome.steps, 2);
    assert_eq!(staged.observations.len(), 1);
    assert_eq!(staged.storage.get("k").unwrap().as_deref(), Some("v"));
}

#[test]
fn a_count_is_reported_to_the_recorder() {
    let staged = count_and_report(vec![]);
    assert_eq!(staged.observations, vec!["4".to_string(), "sent to 'recorder'".to_string()]);
}

#[test]
fn a_workbench_holds_exactly_its_grants() {
    let peers = vec!["me".to_string(), "peer".to_string()];
    let rules = vec![invoke_exact_tool("me", "word_count"), send_to_any_peer("me")];
    let mut bench = build_services("me", &peers, rules);
    assert_eq!(bench.inboxes.len(), 2);
    assert!(bench.services.authorize_tool(&mut bench.kernel, "word_count").is_ok());
    assert!(bench.services.authorize_tool(&mut bench.kernel, "remember").is_err());
    bench.services.send_task(&mut bench.kernel, &mut bench.bus, "peer", "hi").unwrap();
    assert!(bench.inboxes[0].try_recv().is_err());
    assert!(bench.inboxes[1].try_recv().is_ok());
}

#[test]
fn a_playback_repeats_its_last_turn() {
    let req = CompletionRequest { messages: vec![], tools: vec![], temperature: json("0.2") };
    let mut model = PlaybackModel::new(vec![CompletionResponse::say("one".to_string())]);
    assert_eq!(model.name(), "playback-eval");
    assert_eq!(model.complete(&req).content, "one");
    assert_eq!(model.complete(&req).content, "one");
    let mut empty = PlaybackModel::new(vec![]);
    assert_eq!(empty.complete(&req), CompletionResponse::default());
}

fn outcome(final_text: &str, observed: &[(&str, &str)]) -> CaseOutcome {
    CaseOutcome {
        final_text: final_text.to_string(),
        tool_observations: observed.iter().map(|(a, b)| (a.to_string(), b.to_string())).collect(),
        ..CaseOutcome::default()
    }
}

#[test]
fn containing_looks_in_the_text_and_the_observations() {
    let o = outcome("done", &[("word_count", "4")]);
    let hit = ContainsMetric.measure(&Expectation::Contains("4"), &o);
    assert!(hit.passed());
    assert_eq!(hit.detail, "expected output to contain \"4\"");
    assert_eq!(hit.dimension, "correctness");
    let miss = ContainsMetric.measure(&Expectation::Contains("5"), &o);
    assert!(!miss.passed());
    assert_eq!(miss.value, ratio(0, 1));
}

#[test]
fn a_missing_post_check_fails() {
    let mut o = outcome("", &[]);
    assert!(!PostCheckMetric.measure(&Expectation::PostCheck, &o).passed());
    o.post_check = Some(true);
    assert!(PostCheckMetric.measure(&Expectation::PostCheck, &o).passed());
    o.post_check = Some(false);
    assert!(!PostCheckMetric.measure(&Expectation::PostCheck, &o).passed());
}

#[test]
fn a_tool_that_failed_did_not_succeed() {
    let e = Expectation::ToolSucceeded("send_message");
    let good = outcome("", &[("send_message", "sent to 'x'")]);
    assert!(ToolTrajectoryMetric.measure(&e, &good).passed());
    let bad = outcome("", &[("send_message", "tool 'send_message' error: no route")]);
    assert!(!ToolTrajectoryMetric.measure(&e, &bad).passed());
    assert!(!ToolTrajectoryMetric.measure(&e, &outcome("", &[])).passed());
}

#[test]
fn a_denial_must_be_seen_and_the_tool_must_not_run() {
    let e = Expectation::ToolDenied("rm");
    let mut o = outcome("", &[("rm", "tool 'rm' denied: denied: ...")]);
    assert!(!PermissionBoundaryMetric.measure(&e, &o).passed());
    o.denied_tools = vec!["rm".to_string()];
    assert!(PermissionBoundaryMetric.measure(&e, &o).passed());
    o.tool_observations = vec![("rm".to_string(), "gone".to_string())];
    assert!(!PermissionBoundaryMetric.measure(&e, &o).passed());
}

#[test]
fn latency_scores_the_share_of_the_budget() {
    let e = Expectation::MaxLatencyMs(200);
    let at = |ms| LatencyMetric.measure(&e, &outcome("", &[]).timed(ms));
    assert_eq!(at(200).value, ratio(1, 1));
    assert!(at(200).passed());
    assert_eq!(at(400).value, ratio(200, 400));
    assert!(!at(201).passed());
    assert_eq!(at(400).detail, "400ms against a 200ms budget");
}

#[test]
fn fractions_compare_exactly() {
    assert!(ratio(2, 4).at_least(ratio(1, 2)));
    assert!(ratio(1, 2).at_least(ratio(2, 4)));
    assert!(!ratio(u64::MAX - 1, u64::MAX).at_least(ratio(1, 1)));
    let s = score("m", Dimension::Safety, ratio(1, 1), "d".to_string());
    assert_eq!((s.metric.as_str(), s.dimension.as_str()), ("m", "safety"));
    assert!(s.passed());
}

const CASE: Golden = Golden {
    id: "case",
    description: "a case",
    expectation: Expectation::Contains("4"),
    run: Scenario::WordCount,
};

#[test]
fn a_case_that_cannot_run_is_reported_as_failed() {
    let r = run_golden(&CASE, &all_metrics(), &Err(Failure("no disk".into())));
    assert!(!r.passed);
    assert_eq!(r.dimension, "error");
    assert_eq!(r.metric, "case_error");
    assert_eq!(r.detail, "case failed to run: no disk");
    assert!(r.values.is_empty());
    assert_eq!(CaseReport::error(&CASE, &Failure("no disk".into())).detail, r.detail);
}

#[test]
fn a_case_without_a_metric_is_unscored() {
    let none: Vec<ContainsMetric> = vec![];
    let r = run_golden(&CASE, &none, &Ok(outcome("4", &[])));
    assert!(!r.passed);
    assert_eq!((r.dimension.as_str(), r.metric.as_str()), ("unscored", "none"));
}

#[test]
fn several_metrics_are_joined_and_must_all_pass() {
    let twice = vec![ContainsMetric, ContainsMetric];
    let r = run_golden(&CASE, &twice, &Ok(outcome("4", &[]).timed(3)));
    assert!(r.passed);
    assert_eq!(r.metric, "contains+contains");
    assert_eq!(r.values, vec![ratio(1, 1), ratio(1, 1)]);
    assert_eq!(r.elapsed_ms, 3);
    assert_eq!(
        r.detail,
        "expected output to contain \"4\"; expected output to contain \"4\""
    );
}

fn mixed_report() -> RunReport {
    let metrics = all_metrics();
    let pass = run_golden(&CASE, &metrics, &Ok(outcome("4", &[]).timed(12)));
    let fail = run_golden(&CASE, &metrics, &Ok(outcome("<5>", &[])));
    RunReport::build(vec![pass, fail], 99)
}

fn figures() -> Figures {
    Figures {
        scores: vec!["1.00".into(), "0.00".into()],
        rate: "50".into(),
        rates: vec!["50".into()],
    }
}

#[test]
fn the_table_lines_up() {
    let report = mixed_report();
    let lines = table_lines(&report, &figures());
    assert_eq!(lines.len(), 4);
    assert!(lines[0].starts_with("STATUS  ID    DIMENSION    SCORE  MS  STEPS  DETAIL"), "{}", lines[0]);
    assert!(lines[1].starts_with("------  ----  -----------  -----  --  -----  -"), "{}", lines[1]);
    assert!(lines[2].starts_with("PASS    case  correctness  1.00   12  0      expected"), "{}", lines[2]);
    assert!(lines[3].starts_with("FAIL    case  correctness  0.00   0   0      expected"), "{}", lines[3]);
    let summary = summary_lines(&report, &figures());
    assert_eq!(summary[0], "1/2 passed (50%)");
    assert_eq!(summary[1], "  correctness    1/2 (50%)");
}

#[test]
fn a_record_has_a_column_for_every_header() {
    let report = mixed_report();
    let header = csv_header();
    let record = csv_record(&report.cases[0], "1", "1");
    assert_eq!(header.len(), record.len());
    assert_eq!(header[0], "id");
    assert_eq!(
        record,
        vec![
            "case", "a case", "correctness", "contains", "1", "1", "true", "12", "0",
            "expected output to contain \"4\""
        ]
    );
}

#[test]
fn markup_in_a_report_is_escaped() {
    assert_eq!(escape_html("<a href=\"x\">&</a>"), "&lt;a href=&quot;x&quot;&gt;&amp;&lt;/a&gt;");
    let page = dashboard(&mixed_report(), &figures());
    assert!(page.starts_with("<title>condesate evals dashboard</title>"));
    assert!(page.contains("expected output to contain &quot;4&quot;"));
    assert!(page.contains("1/2 cases passed<br>generated at 99ms (unix epoch)"));
    assert!(page.contains("<tr class=\"pass\"><td>PASS</td><td><code>case</code></td>"));
    assert!(page.contains("<tr class=\"fail\"><td>FAIL</td>"));
    assert!(page.contains("style=\"width:50%\""));
}

#[test]
fn only_a_post_to_run_reaches_the_target() {
    let body = |s: &str| s.as_bytes().to_vec();
    assert_eq!(
        route("POST /run HTTP/1.1", &body(r#"{ "input": "count words in: a b" }"#)),
        Routed::Run("count words in: a b".into())
    );
    assert_eq!(route("POST /run HTTP/1.1", &body("{}")), Routed::Run(String::new()));
    match route("GET / HTTP/1.1", &body("{}")) {
        Routed::Reply(r) => {
            assert_eq!((r.status, r.reason), (404, "Not Found"));
            assert_eq!(r.payload, r#"{"error":"no such route"}"#);
        }
        other => panic!("{:?}", other),
    }
    match route("POST /run HTTP/1.1", &body("{oops")) {
        Routed::Reply(r) => assert_eq!((r.status, r.reason), (400, "Bad Request")),
        other => panic!("{:?}", other),
    }
    assert_eq!(
        route_parsed("POST /run", &Err("bad".to_string())),
        Routed::Reply(Reply {
            status: 400,
            reason: "Bad Request",
            payload: r#"{"error":"bad"}"#.to_string()
        })
    );
}

#[test]
fn a_request_head_ends_at_the_blank_line() {
    let mut head = RequestHead::new("POST /run HTTP/1.1\r\n");
    assert!(head.take("Host: x\r\n"));
    assert!(head.take("CONTENT-Length:  17 \r\n"));
    assert!(!head.take("\r\n"));
    assert_eq!(head.content_length, 17);
    let mut head = RequestHead::new("GET / HTTP/1.1");
    assert!(head.take("content-length: many"));
    assert_eq!(head.content_length, 0);
    assert!(!head.take(""));
}

#[test]
fn a_reply_counts_its_bytes() {
    let ok = answer_run(&Ok(("é".to_string(), vec!["word_count".to_string()])));
    assert_eq!(json(&ok.payload), json(r#"{"output":"é","tools_called":["word_count"]}"#));
    let n = ok.payload.len();
    let text = ok.to_text();
    assert!(text.starts_with(&format!(
        "HTTP/1.1 200 OK\r\nContent-Type: application/json\r\nContent-Length: {n}\r\nConnection: close\r\n\r\n"
    )));
    assert!(text.ends_with(&ok.payload));
    let err = answer_run(&Err(Failure("boom".into())));
    assert_eq!((err.status, err.payload.as_str()), (500, r#"{"error":"boom"}"#));
}

#[test]
fn the_target_counts_but_may_not_shut_down() {
    let ask = |text: &str| {
        HttpEvalModel.complete(&CompletionRequest {
            messages: vec![Message::user(text)],
            tools: vec![],
            temperature: json("0.2"),
        })
    };
    assert_eq!(HttpEvalModel.name(), "http-eval-scripted");
    let count = ask("count words in: a b");
    assert_eq!(
        count.tool_calls,
        vec![ToolCall { name: "word_count".into(), args: one_text_value("text", "a b") }]
    );
    assert_eq!(ask(" shutdown ").tool_calls[0].name, "shutdown_swarm");
    assert!(ask("hello").tool_calls.is_empty());

    let mut calls = Vec::new();
    record_calls(&mut calls, &count);
    record_calls(&mut calls, &ask("hello"));
    assert_eq!(calls, vec!["word_count".to_string()]);

    let target = begin_target(&system_prompt(), "count words in: a b");
    assert_eq!(target.run.context().transcript, vec![Message::user("count words in: a b")]);
    assert_eq!(target.agent.name(), "http-eval");
    let names: Vec<String> = tool_specs(&target.tools).into_iter().map(|t| t.name).collect();
    assert_eq!(names, vec!["word_count".to_string(), "shutdown_swarm".to_string()]);
    assert!(system_prompt().contains("- word_count: "));
}

#[test]
fn the_good_run_is_the_reference() {
    assert_eq!(run_good(), reference_trajectory());
    let regressed = run_regressed();
    assert_eq!(regressed.len(), 4);
    assert_eq!(regressed[3], assistant("done (forgot to report)"));
    assert_ne!(regressed, reference_trajectory());
}

#[test]
fn a_trajectory_is_dumped_in_chat_form() {
    let t = vec![assistant_with_call("counting", "1", "word_count", &json(r#"{ "text": "a" }"#))];
    let v = trajectory_value(&t);
    assert_eq!(v[0]["role"], "assistant");
    assert_eq!(v[0]["content"], "counting");
    let call = &v[0]["tool_calls"][0];
    assert_eq!(call["id"], "1");
    assert_eq!(call["type"], "function");
    assert_eq!(call["function"]["name"], "word_count");
    assert_eq!(call["function"]["arguments"], r#"{"text":"a"}"#);
    let plain = trajectory_value(&vec![assistant("done")]);
    assert!(plain[0].get("tool_calls").is_none());

    let dump = trajectory_dump(&reference_trajectory(), &run_good(), &run_regressed());
    assert_eq!(dump.as_object().unwrap().len(), 3);
    assert_eq!(dump["reference"], dump["actual_good"]);
    assert_eq!(dump["actual_regressed"].as_array().unwrap().len(), 4);
}

#[test]
fn an_evaluation_is_asked_for_and_read() {
    assert_eq!(NAMESPACED_TOOL, "mcp:iris-eval:evaluate_output");
    assert_eq!(
        evaluation_args("out", "safety", None, Some("in")),
        json(r#"{"output":"out","eval_type":"safety","input":"in"}"#)
    );
    let t = vec![Message::tool("old"), Message::user("x"), Message::tool(r#"{"passed":true}"#)];
    let last = last_observation(&t);
    assert_eq!(last.as_deref(), Some(r#"{"passed":true}"#));
    let v = read_evaluation(&last).unwrap();
    assert!(affirmed(&v, "passed"));
    assert!(!affirmed(&v, "insufficient_data"));
    assert_eq!(read_evaluation(&None).unwrap_err().0, "no tool observation recorded");
    assert_eq!(
        read_evaluation(&Some("oops".to_string())).unwrap_err().0,
        "evaluate_output did not return JSON: oops"
    );
    assert!(settle_evaluation("oops", Err("line 1".to_string())).is_err());
}

#[test]
fn a_verdict_lists_its_rules() {
    let v = json(
        r#"{"passed":false,"insufficient_data":true,"rule_results":[
            {"ruleName":"no_pii","passed":true,"message":"clean"},{"message":"hm"}]}"#,
    );
    assert_eq!(verdict_head("t", "safety", &v), "[FAIL] t (eval_type=safety): score=");
    assert_eq!(verdict_tail(&v), " (insufficient_data)");
    assert_eq!(
        rule_lines(&v),
        vec!["    [ok] no_pii: clean".to_string(), "    [!!] ?: hm".to_string()]
    );
    assert!(rule_lines(&json("{}")).is_empty());
    assert_eq!(verdict_tail(&json("{}")), "");
}

#[test]
fn each_peer_of_a_workbench_is_reached_at_its_own_inbox() {
    let peers: Vec<String> = ["me", "peer", "me"].iter().map(|p| p.to_string()).collect();
    let mut bench = build_services("me", &peers, vec![send_to_any_peer("me")]);
    for inbox in bench.inboxes.iter_mut() {
        assert!(inbox.try_recv().is_err());
    }
    for to in ["me", "peer"] {
        bench.services.send_task(&mut bench.kernel, &mut bench.bus, to, to).unwrap();
    }
    assert!(bench.inboxes[0].try_recv().is_err());
    assert_eq!(bench.inboxes[1].try_recv().unwrap().payload, Payload::Task("peer".into()));
    assert_eq!(bench.inboxes[2].try_recv().unwrap().payload, Payload::Task("me".into()));
}

#[test]
fn the_target_is_tried_fifty_times() {
    assert_eq!(wait_for_target(0, true), Waiting::Ready);
    assert_eq!(wait_for_target(49, true), Waiting::Ready);
    assert_eq!(wait_for_target(0, false), Waiting::Again { pause_ms: 100 });
    assert_eq!(wait_for_target(48, false), Waiting::Again { pause_ms: 100 });
    assert_eq!(wait_for_target(49, false), Waiting::GiveUp);
    assert_eq!(wait_for_target(u32::MAX, false), Waiting::GiveUp);
}

#[test]
fn a_report_to_a_held_inbox_is_always_sent() {
    let plan = trajectory_two_step_plan();
    assert_eq!(plan.tool_observations[1].1, "sent to 'recorder'");
    assert_eq!(plan.steps, 3);
}
