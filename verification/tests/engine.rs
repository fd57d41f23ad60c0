use call_agent::api::ToolChoice;
use call_agent::api::encode_request;
use call_agent::client::decode_body;
use call_agent::err::ClientError;
use call_agent::client::ModelConfig;
use call_agent::client::OpenAIClient;
use call_agent::function::Tool;
use call_agent::json::to_text;
use call_agent::json::JsonValue;
use call_agent::prompt::Message;
use call_agent::prompt::MessageContext;
use call_agent::tools::TextLengthTool;

fn s(x: &str) -> String {
    x.to_string()
}

fn base_config() -> ModelConfig {
    ModelConfig {
        model: s("gpt-4o-mini"),
        model_name: None,
        top_p: None,
        parallel_tool_calls: None,
        temperature: None,
        max_completion_tokens: None,
        reasoning_effort: None,
        presence_penalty: None,
        strict: None,
    }
}

fn client_with_tools() -> OpenAIClient {
    let mut client = OpenAIClient::new("https://api.example.com/v1", Some("test-key"));
    client.set_model_config(&base_config());
    client.def_tool_entry(s("alpha"), s("first tool"), JsonValue::Null);
    client.def_tool_entry(s("gamma"), s("third tool"), JsonValue::Null);
    client
}

#[test]
fn new_trims_trailing_slashes() {
    let client = OpenAIClient::new("https://api.example.com/v1//", None);
    assert_eq!(client.end_point, "https://api.example.com/v1");
    let client = OpenAIClient::new("https://api.example.com", None);
    assert_eq!(client.end_point, "https://api.example.com");
}

#[test]
fn registry_lists_and_switches() {
    let mut client = client_with_tools();
    let listed = client.list_tools();
    assert_eq!(listed.len(), 2);
    assert_eq!(listed[0], (s("alpha"), s("first tool"), true));
    assert_eq!(listed[1], (s("gamma"), s("third tool"), true));
    client.switch_tool("alpha", false);
    assert_eq!(client.list_tools()[0].2, false);
    client.switch_tool("missing", false);
    assert_eq!(client.list_tools().len(), 2);
    // Registering under an existing name replaces the entry in place.
    client.def_tool_entry(s("alpha"), s("replacement"), JsonValue::Null);
    let listed = client.list_tools();
    assert_eq!(listed[0], (s("alpha"), s("replacement"), true));
}

#[test]
fn def_tool_reads_the_tool_definition() {
    let mut client = client_with_tools();
    let tool = TextLengthTool::new();
    client.def_tool(&tool);
    let listed = client.list_tools();
    assert_eq!(listed[2].0, s("text_length_tool"));
    assert_eq!(listed[2].1, s("Returns the length of the input text."));
}

#[test]
fn export_needs_a_configuration() {
    let mut client = OpenAIClient::new("https://api.example.com", None);
    client.def_tool_entry(s("alpha"), s("a"), JsonValue::Null);
    assert_eq!(client.export_tool_def().unwrap_err(), ClientError::ModelConfigNotSet);
    let mut cfg = base_config();
    cfg.strict = Some(true);
    client.set_model_config(&cfg);
    let defs = client.export_tool_def().unwrap();
    assert_eq!(defs.len(), 1);
    assert_eq!(defs[0].tool_type, "function");
    assert_eq!(defs[0].function.name, "alpha");
    assert!(defs[0].function.strict);
}

#[test]
fn export_without_config_needs_no_enabled_tool() {
    // The configuration is consulted only for enabled entries: an empty or
    // fully disabled registry exports the empty list even without one.
    let client = OpenAIClient::new("https://api.example.com", None);
    assert_eq!(client.export_tool_def().unwrap(), Vec::new());
    let mut client = OpenAIClient::new("https://api.example.com", None);
    client.def_tool_entry(s("alpha"), s("a"), JsonValue::Null);
    client.switch_tool("alpha", false);
    assert_eq!(client.export_tool_def().unwrap(), Vec::new());
}

#[test]
fn export_skips_disabled_tools() {
    let mut client = client_with_tools();
    client.switch_tool("alpha", false);
    let defs = client.export_tool_def().unwrap();
    assert_eq!(defs.len(), 1);
    assert_eq!(defs[0].function.name, "gamma");
}

#[test]
fn text_length_tool_reports_byte_length() {
    let tool = TextLengthTool::new();
    let args = call_agent::json::parse_text("{\"text\":\"hello\"}").unwrap();
    assert_eq!(tool.run(args), Ok(s("{\"length\":5}")));
    let bad = call_agent::json::parse_text("{\"other\":1}").unwrap();
    assert_eq!(tool.run(bad), Err(s("Missing 'text' parameter")));
}

#[test]
fn config_override_wins_field_by_field() {
    // Default sets the temperature, the override sets top_p: the assembled
    // request carries both.
    let mut client = OpenAIClient::new("https://api.example.com", None);
    let mut dflt = base_config();
    dflt.temperature = Some(s("0.5"));
    client.set_model_config(&dflt);
    let mut over = base_config();
    over.top_p = Some(s("0.9"));
    let req = client.prepare_request(&Vec::new(), ToolChoice::Off, Some(&over)).unwrap();
    assert_eq!(req.temperature, Some(s("0.5")));
    assert_eq!(req.top_p, Some(s("0.9")));
    let text = to_text(&encode_request(&req));
    assert_eq!(
        text,
        "{\"model\":\"gpt-4o-mini\",\"messages\":[],\"temperature\":0.5,\"top_p\":0.9}"
    );
}

#[test]
fn request_without_any_config_fails() {
    let client = OpenAIClient::new("https://api.example.com", None);
    let r = client.prepare_request(&Vec::new(), ToolChoice::Auto, None);
    assert_eq!(r.unwrap_err(), ClientError::ModelConfigNotSet);
}

#[test]
fn invalid_endpoint_is_rejected_before_any_exchange() {
    let mut client = OpenAIClient::new("ftp://x", None);
    client.set_model_config(&base_config());
    let r = client.prepare_request(&Vec::new(), ToolChoice::Auto, None);
    assert_eq!(r.unwrap_err(), ClientError::InvalidEndpoint);
    // The endpoint itself must carry the scheme; a lone "http:/" does not,
    // even though appending a path would complete the prefix.
    let mut client = OpenAIClient::new("http:/", None);
    client.set_model_config(&base_config());
    let r = client.prepare_request(&Vec::new(), ToolChoice::Auto, None);
    assert_eq!(r.unwrap_err(), ClientError::InvalidEndpoint);
}

#[test]
fn forced_tool_choice_encodes_as_selector_object() {
    let client = client_with_tools();
    let req = client
        .prepare_request(&Vec::new(), ToolChoice::Forced(s("get_weather")), None)
        .unwrap();
    let text = to_text(&encode_request(&req));
    let v: serde_json::Value = serde_json::from_str(&text).unwrap();
    assert_eq!(v["tool_choice"]["type"], serde_json::Value::String(s("function")));
    assert_eq!(
        v["tool_choice"]["function"]["name"],
        serde_json::Value::String(s("get_weather"))
    );
}

#[test]
fn off_tool_choice_is_omitted_entirely() {
    let client = client_with_tools();
    let req = client.prepare_request(&Vec::new(), ToolChoice::Off, None).unwrap();
    let text = to_text(&encode_request(&req));
    let v: serde_json::Value = serde_json::from_str(&text).unwrap();
    assert!(v.get("tool_choice").is_none());
    // The registry contributes entries, so tools are present here ...
    assert!(v.get("tools").is_some());
}

#[test]
fn empty_registry_omits_the_tools_member() {
    let mut client = OpenAIClient::new("https://api.example.com", None);
    client.set_model_config(&base_config());
    let req = client.prepare_request(&Vec::new(), ToolChoice::Auto, None).unwrap();
    let text = to_text(&encode_request(&req));
    let v: serde_json::Value = serde_json::from_str(&text).unwrap();
    assert!(v.get("tools").is_none());
    assert_eq!(v["tool_choice"], serde_json::Value::String(s("auto")));
}

#[test]
fn decode_body_reads_a_response() {
    let body = "{\"choices\":[{\"index\":0,\"finish_reason\":\"stop\",\
                 \"message\":{\"role\":\"assistant\",\"content\":\"hello\"}}],\
                 \"model\":\"m\",\"usage\":{\"prompt_tokens\":3,\"total_tokens\":7}}";
    let resp = decode_body(body).unwrap();
    let choices = resp.choices.as_ref().unwrap();
    assert_eq!(choices.len(), 1);
    assert_eq!(choices[0].index, 0);
    assert_eq!(choices[0].finish_reason, "stop");
    assert_eq!(choices[0].message.content, Some(s("hello")));
    assert_eq!(resp.usage.as_ref().unwrap().prompt_tokens, Some(3));
    assert_eq!(resp.usage.as_ref().unwrap().completion_tokens, None);
}

#[test]
fn decode_body_rejects_malformed_text() {
    assert_eq!(decode_body("not json").unwrap_err(), ClientError::InvalidResponse);
    assert_eq!(decode_body("{\"choices\":3}").unwrap_err(), ClientError::InvalidResponse);
}

#[test]
fn decode_body_reads_an_error_report() {
    let body = "{\"error\":{\"message\":\"boom\",\"type\":\"bad\",\"code\":-7}}";
    let resp = decode_body(body).unwrap();
    let err = resp.error.unwrap();
    assert_eq!(err.message, "boom");
    assert_eq!(err.err_type, "bad");
    assert_eq!(err.code, -7);
    assert!(resp.choices.is_none());
}

#[test]
fn content_round_appends_one_assistant_turn() {
    let client = client_with_tools();
    let mut state = client.create_prompt();
    state.add(vec![Message::User { name: None, content: vec![MessageContext::Text(s("hi"))] }]);
    let body = "{\"choices\":[{\"index\":0,\"finish_reason\":\"stop\",\
                 \"message\":{\"role\":\"assistant\",\"content\":\"hello\"}}]}";
    let resp = decode_body(body).unwrap();
    let calls = state.begin_round(&resp, Some(s("bot"))).unwrap();
    assert!(calls.is_empty());
    assert_eq!(state.prompt.len(), 2);
    assert_eq!(
        state.prompt[1],
        Message::Assistant {
            name: Some(s("bot")),
            content: vec![MessageContext::Text(s("hello"))],
            tool_calls: None,
        }
    );
}

#[test]
fn round_without_choices_is_invalid() {
    let client = client_with_tools();
    let mut state = client.create_prompt();
    let resp = decode_body("{\"choices\":[]}").unwrap();
    assert_eq!(state.begin_round(&resp, None).unwrap_err(), ClientError::InvalidResponse);
    let resp = decode_body("{}").unwrap();
    assert_eq!(state.begin_round(&resp, None).unwrap_err(), ClientError::InvalidResponse);
    assert_eq!(state.prompt.len(), 0);
}

#[test]
fn round_with_neither_content_nor_calls_is_unknown() {
    let client = client_with_tools();
    let mut state = client.create_prompt();
    let resp = decode_body(
        "{\"choices\":[{\"index\":0,\"finish_reason\":\"stop\",\
         \"message\":{\"role\":\"assistant\"}}]}",
    )
    .unwrap();
    assert_eq!(state.begin_round(&resp, None).unwrap_err(), ClientError::UnknownError);
    assert_eq!(state.prompt.len(), 0);
}

fn three_call_response() -> &'static str {
    "{\"choices\":[{\"index\":0,\"finish_reason\":\"tool_calls\",\
     \"message\":{\"role\":\"assistant\",\"tool_calls\":[\
     {\"id\":\"a1\",\"type\":\"function\",\"function\":{\"name\":\"alpha\",\"arguments\":\"{}\"}},\
     {\"id\":\"b2\",\"type\":\"function\",\"function\":{\"name\":\"beta\",\"arguments\":\"{}\"}},\
     {\"id\":\"c3\",\"type\":\"function\",\"function\":{\"name\":\"gamma\",\"arguments\":\"{}\"}}\
     ]}}]}"
}

#[test]
fn failing_lookup_stops_after_prior_results() {
    // Calls [A, B, C] where B's registry lookup fails: the assistant turn and
    // the tool result for A stay in history, the round ends with
    // ToolNotFound, and no message for C is appended.
    let client = client_with_tools();  // knows alpha and gamma, not beta
    let mut state = client.create_prompt();
    let resp = decode_body(three_call_response()).unwrap();
    let calls = state.begin_round(&resp, None).unwrap();
    assert_eq!(calls.len(), 3);
    let k = state.dispatch_cut(&calls);
    assert_eq!(k, 1);
    let results = vec![Ok(s("result of A"))];
    let outcome = state.apply_tool_outcomes(&calls, &results);
    assert_eq!(outcome.unwrap_err(), ClientError::ToolNotFound);
    assert_eq!(state.prompt.len(), 2);
    assert!(matches!(state.prompt[0], Message::Assistant { .. }));
    assert_eq!(
        state.prompt[1],
        Message::Tool {
            tool_call_id: s("a1"),
            content: vec![MessageContext::Text(s("result of A"))],
        }
    );
}

#[test]
fn disabled_tool_is_not_found() {
    let mut client = client_with_tools();
    client.switch_tool("alpha", false);
    let mut state = client.create_prompt();
    let resp = decode_body(three_call_response()).unwrap();
    let calls = state.begin_round(&resp, None).unwrap();
    assert_eq!(state.dispatch_cut(&calls), 0);
}

#[test]
fn all_calls_dispatched_completes_the_round() {
    let mut client = client_with_tools();
    client.def_tool_entry(s("beta"), s("second tool"), JsonValue::Null);
    let mut state = client.create_prompt();
    let resp = decode_body(three_call_response()).unwrap();
    let calls = state.begin_round(&resp, None).unwrap();
    let k = state.dispatch_cut(&calls);
    assert_eq!(k, 3);
    let results = vec![Ok(s("ra")), Err(s("boom")), Ok(s("rc"))];
    assert!(state.apply_tool_outcomes(&calls, &results).is_ok());
    assert_eq!(state.prompt.len(), 4);
    // A failed invocation is folded into history as text, not an error.
    assert_eq!(
        state.prompt[2],
        Message::Tool { tool_call_id: s("b2"), content: vec![MessageContext::Text(s("Error: boom"))] }
    );
    assert_eq!(
        state.prompt[3],
        Message::Tool { tool_call_id: s("c3"), content: vec![MessageContext::Text(s("rc"))] }
    );
}

#[test]
fn tool_call_round_keeps_content_and_calls_in_one_turn() {
    let client = client_with_tools();
    let mut state = client.create_prompt();
    let body = "{\"choices\":[{\"index\":0,\"finish_reason\":\"tool_calls\",\
                 \"message\":{\"role\":\"assistant\",\"content\":\"let me check\",\"tool_calls\":[\
                 {\"id\":\"a1\",\"type\":\"function\",\
                 \"function\":{\"name\":\"alpha\",\"arguments\":\"{}\"}}]}}]}";
    let resp = decode_body(body).unwrap();
    let calls = state.begin_round(&resp, None).unwrap();
    assert_eq!(calls.len(), 1);
    assert_eq!(state.prompt.len(), 1);
    match &state.prompt[0] {
        Message::Assistant { content, tool_calls, .. } => {
            assert_eq!(content, &vec![MessageContext::Text(s("let me check"))]);
            assert_eq!(tool_calls.as_ref().unwrap().len(), 1);
        },
        other => panic!("unexpected turn: {:?}", other),
    }
}

#[test]
fn tool_calls_without_content_get_an_empty_placeholder() {
    let client = client_with_tools();
    let mut state = client.create_prompt();
    let body = "{\"choices\":[{\"index\":0,\"finish_reason\":\"tool_calls\",\
                 \"message\":{\"role\":\"assistant\",\"tool_calls\":[\
                 {\"id\":\"a1\",\"type\":\"function\",\
                 \"function\":{\"name\":\"alpha\",\"arguments\":\"{}\"}}]}}]}";
    let resp = decode_body(body).unwrap();
    state.begin_round(&resp, None).unwrap();
    match &state.prompt[0] {
        Message::Assistant { content, .. } => {
            assert_eq!(content, &vec![MessageContext::Text(s(""))]);
        },
        other => panic!("unexpected turn: {:?}", other),
    }
}

#[test]
fn second_choice_is_discarded() {
    let client = client_with_tools();
    let mut state = client.create_prompt();
    let body = "{\"choices\":[\
                 {\"index\":0,\"finish_reason\":\"stop\",\
                 \"message\":{\"role\":\"assistant\",\"content\":\"first\"}},\
                 {\"index\":1,\"finish_reason\":\"stop\",\
                 \"message\":{\"role\":\"assistant\",\"content\":\"second\"}}]}";
    let resp = decode_body(body).unwrap();
    state.begin_round(&resp, None).unwrap();
    assert_eq!(state.prompt.len(), 1);
    match &state.prompt[0] {
        Message::Assistant { content, .. } => {
            assert_eq!(content, &vec![MessageContext::Text(s("first"))]);
        },
        other => panic!("unexpected turn: {:?}", other),
    }
}

#[test]
fn history_operations() {
    let client = client_with_tools();
    let mut state = client.create_prompt();
    assert!(state.last().is_none());
    state.add(vec![
        Message::System { name: None, content: s("be brief") },
        Message::User { name: None, content: vec![MessageContext::Text(s("hi"))] },
    ]);
    assert_eq!(state.prompt.len(), 2);
    // `last` yields the newest entry of the history.
    assert_eq!(
        state.last().unwrap(),
        &Message::User { name: None, content: vec![MessageContext::Text(s("hi"))] }
    );
    state.clear();
    assert_eq!(state.prompt.len(), 0);
}

#[test]
fn error_description_strings() {
    assert_eq!(ClientError::ToolNotFound.describe(), "Tool not found");
    assert_eq!(ClientError::InvalidEndpoint.describe(), "Invalid endpoint");
    assert_eq!(ClientError::NotFound(s("x")).describe(), "NotFound: x");
    assert_eq!(ClientError::from(s("bad")), ClientError::InvalidInput(s("bad")));
}
