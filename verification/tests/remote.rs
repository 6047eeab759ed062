use condesate::agent::a2a::{
    build_request, card_urls, extract_text, new_request, no_card, read_answer, settle_fetch,
    AgentCard, CardFetch, DiscoverA2aAgent, SendA2aMessage,
};
use condesate::agent::model::{
    call_tool, count_role, empty_value, last_content, one_text_value, two_texts_value, CloudModel,
    LocalModel,
};
use condesate::agent::prompted_tools::{
    interpret, mark_results, reply_with, spelled_call, tool_instructions,
};
use condesate::agent::provider::{choose_provider, ProviderChoice};
use condesate::agent::wire::{
    build_anthropic_body, build_openai_body, parse_anthropic_response, parse_openai_response,
    role_str,
};
use condesate::types::{
    CompletionRequest, CompletionResponse, Failure, Message, Role, ToolCall, ToolSpec,
};
use serde_json::Value;

fn json(text: &str) -> Value {
    serde_json::from_str(text).unwrap()
}

fn sample_request() -> CompletionRequest {
    CompletionRequest {
        messages: vec![
            Message::system("be terse"),
            Message::user("hello"),
            Message::assistant("hi"),
            Message::tool("42"),
        ],
        tools: vec![],
        temperature: json("0.3"),
    }
}

#[test]
fn anthropic_body_extracts_system_and_drops_it_from_messages() {
    let body = build_anthropic_body("opus-x", 256, &sample_request());
    assert_eq!(body["system"], "be terse");
    assert_eq!(body["model"], "opus-x");
    assert_eq!(body["max_tokens"], 256);
    let msgs = body["messages"].as_array().unwrap();
    assert_eq!(msgs.len(), 3); // system removed; tool folded into user
    assert_eq!(msgs[0]["role"], "user");
    assert_eq!(msgs[2]["role"], "user");
    assert_eq!(body["temperature"], 0.3);
}

#[test]
fn anthropic_parse_concatenates_text_blocks() {
    let body = json(
        r#"{
            "content": [
                { "type": "text", "text": "part one " },
                { "type": "text", "text": "part two" }
            ]
        }"#,
    );
    assert_eq!(parse_anthropic_response(&body).unwrap().content, "part one part two");
}

#[test]
fn anthropic_parse_surfaces_errors() {
    let body = json(r#"{ "error": { "message": "boom" } }"#);
    assert!(parse_anthropic_response(&body).is_err());
    assert_eq!(
        parse_anthropic_response(&body).unwrap_err().0,
        r#"anthropic error: {"message":"boom"}"#
    );
}

#[test]
fn openai_body_keeps_all_messages() {
    let body = build_openai_body("gpt-x", &sample_request());
    assert_eq!(body["model"], "gpt-x");
    assert_eq!(body["messages"].as_array().unwrap().len(), 4);
}

#[test]
fn openai_parse_reads_first_choice() {
    let body = json(r#"{ "choices": [ { "message": { "role": "assistant", "content": "yo" } } ] }"#);
    assert_eq!(parse_openai_response(&body).unwrap().content, "yo");
}

#[test]
fn openai_parse_surfaces_errors() {
    let body = json(r#"{ "error": { "message": "nope" } }"#);
    assert!(parse_openai_response(&body).is_err());
}

#[test]
fn replies_without_text_are_empty() {
    assert_eq!(parse_anthropic_response(&json("{}")).unwrap(), CompletionResponse::default());
    assert_eq!(parse_openai_response(&json(r#"{ "choices": [] }"#)).unwrap().content, "");
    let image = json(r#"{ "content": [ { "type": "image", "text": "no" } ] }"#);
    assert_eq!(parse_anthropic_response(&image).unwrap().content, "");
}

#[test]
fn roles_have_wire_names() {
    let names: Vec<&str> = [Role::System, Role::User, Role::Assistant, Role::Tool]
        .into_iter()
        .map(role_str)
        .collect();
    assert_eq!(names, vec!["system", "user", "assistant", "user"]);
}

#[test]
fn several_system_messages_join_into_one() {
    let mut req = sample_request();
    req.messages.push(Message::system("and kind"));
    let body = build_anthropic_body("m", 1, &req);
    assert_eq!(body["system"], "be terse\nand kind");
    assert_eq!(body["messages"].as_array().unwrap().len(), 3);
}

/// Try the addresses of `base` in turn against what each fetch gave.
fn fetch_agent_card(base: &str, mut get: impl FnMut(&str) -> CardFetch) -> Result<AgentCard, Failure> {
    for url in card_urls(base) {
        let fetched = get(&url);
        if let Some(r) = settle_fetch(&url, &fetched) {
            return r;
        }
    }
    Err(no_card(base))
}

#[test]
fn fetch_agent_card_parses_name_url_and_skills() {
    let card = r#"{"name":"Echo Agent","description":"echoes back","url":"http://echo.example/rpc","version":"1.0","skills":[{"id":"echo","name":"Echo","description":"repeats input"}]}"#;
    let card = fetch_agent_card("http://echo.example", |_| CardFetch::Json(json(card))).unwrap();
    assert_eq!(card.name, "Echo Agent");
    assert_eq!(card.url, "http://echo.example/rpc");
    assert_eq!(card.skills.len(), 1);
    assert_eq!(card.skills[0].name, "Echo");
    assert_eq!(
        card.summarize(),
        "Echo Agent — 1.0\nendpoint: http://echo.example/rpc\nechoes back\nskills:\n- Echo: repeats input"
    );
}

#[test]
fn fetch_agent_card_errors_when_none_is_found() {
    let err = fetch_agent_card("http://127.0.0.1", |_| CardFetch::Nothing).unwrap_err();
    assert!(err.0.contains("no agent card found"));
}

#[test]
fn the_second_address_is_tried_when_the_first_has_nothing() {
    let mut asked = Vec::new();
    let card = fetch_agent_card("http://x.example//", |url| {
        asked.push(url.to_string());
        if asked.len() == 1 {
            CardFetch::Nothing
        } else {
            CardFetch::Json(json(r#"{"name":"n","url":"u"}"#))
        }
    })
    .unwrap();
    assert_eq!(
        asked,
        vec![
            "http://x.example/.well-known/agent-card.json".to_string(),
            "http://x.example/.well-known/agent.json".to_string(),
        ]
    );
    assert_eq!(card.summarize(), "n — \nendpoint: u");
}

#[test]
fn a_page_that_is_no_card_ends_the_search() {
    let err = fetch_agent_card("http://x", |_| CardFetch::NotJson).unwrap_err();
    assert_eq!(err.0, "http://x/.well-known/agent-card.json did not return valid JSON");
    let err = fetch_agent_card("http://x", |_| CardFetch::Json(json("{}"))).unwrap_err();
    assert_eq!(err.0, "http://x/.well-known/agent-card.json is not a valid agent card");
    assert_eq!(
        AgentCard::from_value(&json(r#"{"url":"u"}"#)).unwrap_err().0,
        "agent card has no 'name' field"
    );
    assert_eq!(
        AgentCard::from_value(&json(r#"{"name":"n"}"#)).unwrap_err().0,
        "agent card has no 'url' field (the endpoint to message)"
    );
}

const RPC: &str = "http://127.0.0.1/rpc";

#[test]
fn send_message_extracts_text_from_a_message_result() {
    let rpc = r#"{"jsonrpc":"2.0","id":"1","result":{"kind":"message","role":"agent","parts":[{"kind":"text","text":"hello back"}]}}"#;
    let reply = read_answer(RPC, &json(rpc)).unwrap();
    assert_eq!(reply, "hello back");
}

#[test]
fn send_message_extracts_text_from_a_completed_task_artifact() {
    let rpc = r#"{"jsonrpc":"2.0","id":"1","result":{"kind":"task","id":"t1","status":{"state":"completed"},"artifacts":[{"artifactId":"a1","parts":[{"kind":"text","text":"task done: 42"}]}]}}"#;
    let reply = read_answer(RPC, &json(rpc)).unwrap();
    assert_eq!(reply, "task done: 42");
}

#[test]
fn send_message_falls_back_to_the_working_status_message() {
    let rpc = r#"{"jsonrpc":"2.0","id":"1","result":{"kind":"task","id":"t1","status":{"state":"working","message":{"role":"agent","parts":[{"kind":"text","text":"still thinking"}]}}}}"#;
    let reply = read_answer(RPC, &json(rpc)).unwrap();
    assert_eq!(reply, "still thinking");
}

#[test]
fn send_message_surfaces_a_jsonrpc_error() {
    let rpc = r#"{"jsonrpc":"2.0","id":"1","error":{"code":-32601,"message":"method not found"}}"#;
    let err = read_answer(RPC, &json(rpc)).unwrap_err();
    assert!(err.0.contains("method not found"));
}

#[test]
fn an_answer_without_text_says_so() {
    assert_eq!(extract_text(&json(r#"{"kind":"message"}"#)), "[agent returned no text content]");
    assert_eq!(
        extract_text(&json(r#"{"status":{"state":"queued"}}"#)),
        "[task state: queued, no text content yet]"
    );
    assert_eq!(
        extract_text(&json(r#"{"kind":"task"}"#)),
        "[task state: unknown, no text content yet]"
    );
    assert_eq!(
        read_answer(RPC, &json("{}")).unwrap_err().0,
        format!("agent at {RPC} returned neither 'result' nor 'error'")
    );
}

#[test]
fn a_request_carries_one_text_part() {
    let req = build_request("7", "m-1", "hi");
    assert_eq!(req["jsonrpc"], "2.0");
    assert_eq!(req["id"], "7");
    assert_eq!(req["method"], "message/send");
    let message = &req["params"]["message"];
    assert_eq!(message["messageId"], "m-1");
    assert_eq!(message["role"], "user");
    assert_eq!(message["parts"][0]["kind"], "text");
    assert_eq!(message["parts"][0]["text"], "hi");
}

#[test]
fn new_requests_never_share_an_id() {
    let a = new_request("hi");
    let b = new_request("hi");
    assert_ne!(a["id"], b["id"]);
    assert_ne!(a["params"]["message"]["messageId"], a["id"]);
    assert_eq!(a["params"]["message"]["parts"], b["params"]["message"]["parts"]);
    assert_eq!(a["id"].as_str().unwrap().len(), 36);
}

#[test]
fn a2a_tools_read_their_arguments() {
    assert_eq!(DiscoverA2aAgent.spec().name, "discover_a2a_agent");
    assert_eq!(DiscoverA2aAgent.site(&json(r#"{"url":"http://x"}"#)).unwrap(), "http://x");
    assert!(DiscoverA2aAgent.site(&json("{}")).is_err());
    assert_eq!(SendA2aMessage.spec().name, "send_a2a_message");
    let both = json(r#"{"agent_url":"u","text":"t"}"#);
    assert_eq!(SendA2aMessage.message(&both).unwrap(), ("u", "t"));
    assert_eq!(
        SendA2aMessage.message(&json(r#"{"agent_url":"u"}"#)).unwrap_err().0,
        "missing string arg 'text'"
    );
}

#[test]
fn a_spelled_call_is_read_from_its_line() {
    let call = spelled_call("  TOOL_CALL: word_count {\"text\": \"a b\"} ").unwrap();
    assert_eq!(call.name, "word_count");
    assert_eq!(call.args, "{\"text\": \"a b\"}");
    assert_eq!(spelled_call("TOOL_CALL: list_agents").unwrap().args, "{}");
    assert!(spelled_call("call word_count please").is_none());
}

#[test]
fn a_reply_that_spells_a_call_becomes_that_call() {
    let said = "Let me count.\nTOOL_CALL: word_count {\"text\": \"a b\"}\n";
    let resp = interpret(CompletionResponse::say(said.to_string()));
    assert_eq!(resp.content, "calling word_count");
    assert_eq!(
        resp.tool_calls,
        vec![ToolCall { name: "word_count".into(), args: json(r#"{"text":"a b"}"#) }]
    );
    assert_eq!(resp, reply_with("word_count", json(r#"{"text":"a b"}"#)));

    let plain = CompletionResponse::say("nothing to call".to_string());
    assert_eq!(interpret(plain.clone()), plain);
}

#[test]
fn a_line_whose_arguments_are_no_json_is_passed_over() {
    let said = CompletionResponse::say("TOOL_CALL: go {oops".to_string());
    assert_eq!(interpret(said.clone()), said);
    let two = "TOOL_CALL: go {oops\nTOOL_CALL: stop";
    let resp = interpret(CompletionResponse::say(two.to_string()));
    assert_eq!(resp, reply_with("stop", json("{}")));
}

#[test]
fn results_are_marked_and_nothing_else_is() {
    let marked = mark_results(&vec![Message::user("q"), Message::tool("4")]);
    assert_eq!(marked, vec![Message::user("q"), Message::tool("[TOOL RESULT] 4")]);
}

#[test]
fn instructions_list_every_tool() {
    let text = tool_instructions(&vec![
        ToolSpec::new("a", "does a"),
        ToolSpec::new("b", "does b"),
    ]);
    assert!(text.starts_with("You have these tools available:\n- a: does a\n- b: does b\n\n"), "{text}");
    assert!(text.contains("TOOL_CALL: <tool_name> <json_arguments>"));
}

fn request(messages: Vec<Message>) -> CompletionRequest {
    CompletionRequest { messages, tools: vec![], temperature: json("0.3") }
}

#[test]
fn the_local_model_counts_then_reports() {
    let model = LocalModel::new("local-mock");
    assert_eq!(model.name(), "local-mock");
    let task = "[from planner-cloud] count words in: ship fast stay safe";
    let mut messages = vec![Message::user(task)];
    let first = model.complete(&request(messages.clone()));
    assert_eq!(first.tool_calls[0].name, "word_count");
    assert_eq!(first.tool_calls[0].args, json(r#"{"text":"ship fast stay safe"}"#));
    messages.push(Message::assistant(&first.content));
    messages.push(Message::tool("4"));
    let second = model.complete(&request(messages.clone()));
    assert_eq!(second.tool_calls[0].name, "send_message");
    assert_eq!(second.tool_calls[0].args["to"], "planner-cloud");
    messages.push(Message::assistant(&second.content));
    messages.push(Message::tool("sent"));
    assert!(model.complete(&request(messages)).tool_calls.is_empty());
}

#[test]
fn the_cloud_model_delegates_first() {
    let model = CloudModel::new("cloud-mock");
    assert_eq!(model.name(), "cloud-mock");
    let seed = "Analyze the slogan 'ship fast stay safe' and record a verdict.";
    let first = model.complete(&request(vec![Message::user(seed)]));
    assert_eq!(first.tool_calls[0].name, "send_message");
    assert_eq!(first.tool_calls[0].args["to"], "worker-local");
}

#[test]
fn transcripts_are_read_by_role() {
    let t = vec![Message::user("a"), Message::tool("1"), Message::user("b")];
    assert_eq!(last_content(&t, Role::User), "b");
    assert_eq!(last_content(&t, Role::Assistant), "");
    assert_eq!(count_role(&t, Role::User), 2);
}

#[test]
fn arguments_are_built_as_objects() {
    assert_eq!(one_text_value("k", "v"), json(r#"{"k":"v"}"#));
    assert_eq!(two_texts_value("a", "1", "b", "2"), json(r#"{"a":"1","b":"2"}"#));
    assert_eq!(empty_value(), json("{}"));
    let r = call_tool("now", "go", empty_value());
    assert_eq!(r.content, "now");
    assert_eq!(r.tool_calls.len(), 1);
}

#[test]
fn the_provider_is_chosen_by_its_name() {
    assert_eq!(
        choose_provider(Some("openai"), None, "default"),
        ProviderChoice::OpenAi { model: "gpt-4o".into() }
    );
    assert_eq!(
        choose_provider(Some("anthropic"), None, "default").label(),
        "anthropic (default)"
    );
    assert_eq!(
        choose_provider(Some("anthropic"), Some("opus-5"), "default"),
        ProviderChoice::Anthropic { model: "opus-5".into() }
    );
    assert_eq!(choose_provider(None, Some("x"), "default"), ProviderChoice::Offline);
    assert_eq!(choose_provider(Some("other"), None, "d").label(), "scripted (offline)");
}

#[test]
fn a_new_request_has_two_random_identifiers() {
    let r = new_request("hi");
    for id in [&r["id"], &r["params"]["message"]["messageId"]] {
        let id = id.as_str().unwrap();
        assert_eq!((id.len(), &id[14..15]), (36, "4"), "{id}");
        assert!("89ab".contains(&id[19..20]), "{id}");
    }
    assert_ne!(r["id"], r["params"]["message"]["messageId"]);
}
