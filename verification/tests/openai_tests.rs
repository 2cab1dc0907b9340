use napcat_chat::config::AiConfig;
use napcat_chat::error::BotError;
use napcat_chat::openai::{
    build_flattened_input, build_headers, build_model_candidates, build_responses_input,
    extract_chat_text, extract_responses_text, http_error, is_cc_switch_proxy, is_error_status,
    is_retryable_error, is_retryable_text, normalize_error_text, normalize_error_text_with, request_step, resolve_model,
    responses_variants, should_fallback_transport, validate, AttemptSeries, ChatMessage,
    ErrorFields, HttpOutcome, RequestStep, ResponseBlock, ResponseItem, ResponsesInput,
    ResponsesPayload,
};

fn err(text: &str) -> BotError {
    BotError::from_str(text)
}

fn msg(role: &str, content: &str) -> ChatMessage {
    ChatMessage { role: role.to_string(), content: content.to_string() }
}

#[test]
fn retryable_texts_are_found_case_insensitively() {
    assert!(is_retryable_text("Connection TIMED OUT"));
    assert!(is_retryable_text("error: ECONNRESET"));
    assert!(is_retryable_text("dns EAI_AGAIN"));
    assert!(!is_retryable_text("invalid api key"));
}

#[test]
fn retryable_errors_by_status_or_text() {
    assert!(is_retryable_error(&err("聊天接口返回 HTTP 503：busy")));
    assert!(is_retryable_error(&err("network unreachable")));
    assert!(!is_retryable_error(&err("聊天接口返回 HTTP 400：bad")));
    assert!(!is_retryable_error(&err("聊天接口返回 HTTP 401：no key")));
}

#[test]
fn fallback_covers_more_statuses() {
    assert!(should_fallback_transport(&err("聊天接口返回 HTTP 404：missing")));
    assert!(should_fallback_transport(&err("聊天接口返回 HTTP 415：media")));
    assert!(should_fallback_transport(&err("socket closed")));
    assert!(!should_fallback_transport(&err("聊天接口返回 HTTP 401：no key")));
    assert!(!should_fallback_transport(&err("聊天接口返回 HTTP 403：forbidden")));
}

#[test]
fn every_retryable_failure_falls_back() {
    for text in ["HTTP 408", "HTTP 409", "HTTP 425", "HTTP 429", "HTTP 500", "HTTP 502", "HTTP 503", "HTTP 504", "timeout"] {
        let e = err(text);
        assert!(is_retryable_error(&e));
        assert!(should_fallback_transport(&e));
    }
}

#[test]
fn http_error_text_format() {
    assert_eq!(http_error(429, "slow down").message, "聊天接口返回 HTTP 429：slow down");
}

#[test]
fn validation_errors() {
    let mut c = AiConfig::default();
    assert!(validate(&c).is_ok());
    c.model = "  ".to_string();
    match validate(&c) {
        Err(e) => assert_eq!(e.message, "chat.model 未配置"),
        Ok(()) => panic!("blank model accepted"),
    }
    c.api_base = "".to_string();
    match validate(&c) {
        Err(e) => assert_eq!(e.message, "chat.baseUrl 未配置"),
        Ok(()) => panic!("blank base accepted"),
    }
}

#[test]
fn cc_switch_proxy_detection() {
    let mut c = AiConfig::default();
    assert!(is_cc_switch_proxy(&c));
    c.api_base = "HTTP://LOCALHOST:15721/V1".to_string();
    assert!(is_cc_switch_proxy(&c));
    c.api_base = "https://api.example.com/v1".to_string();
    assert!(!is_cc_switch_proxy(&c));
}

#[test]
fn model_resolution() {
    let d = "base-model".to_string();
    assert_eq!(resolve_model(Some("  gpt-x "), &d), "gpt-x");
    assert_eq!(resolve_model(Some("   "), &d), "base-model");
    assert_eq!(resolve_model(None, &d), "base-model");
}

#[test]
fn candidates_follow_failover_with_aliases_and_no_repeats() {
    let c = AiConfig::default();
    let got = build_model_candidates(&c, "gpt-5.4-mini");
    assert_eq!(
        got,
        vec![
            "gpt-5.4-mini",
            "gpt-5.4",
            "gpt-5.2",
            "deepseek-ai/deepseek-v3.2",
            "deepseek-ai/deepseek-v3.1-terminus",
            "gpt-5-codex-mini",
            "gpt-5.1-codex-mini",
        ]
    );
    let again = build_model_candidates(&c, "gpt-5.2");
    assert_eq!(again[0], "gpt-5.2");
    assert_eq!(again.iter().filter(|m| m.as_str() == "gpt-5.2").count(), 1);
}

#[test]
fn codex_alias_is_added() {
    let mut c = AiConfig::default();
    c.failover_models = vec!["gpt-5-codex".to_string(), "gpt-5.1-codex".to_string()];
    assert_eq!(build_model_candidates(&c, "m"), vec!["m", "gpt-5-codex", "gpt-5.1-codex"]);
}

#[test]
fn error_body_normalization() {
    let fields = Some(ErrorFields {
        error_message: Some("  quota exceeded ".to_string()),
        message: Some("other".to_string()),
        detail: None,
    });
    assert_eq!(normalize_error_text_with("{...}", &fields), "quota exceeded");
    let only_detail = Some(ErrorFields { error_message: None, message: None, detail: Some("d".to_string()) });
    assert_eq!(normalize_error_text_with("{}", &only_detail), "d");
    let empty = Some(ErrorFields { error_message: None, message: None, detail: None });
    assert_eq!(normalize_error_text_with("{\"x\":\n1}", &empty), "{\"x\": 1}");
    assert_eq!(normalize_error_text_with("line1\r\nline2", &None), "line1  line2");
    let long = "x".repeat(300);
    assert_eq!(normalize_error_text_with(&long, &None).chars().count(), 240);
    let long_message = Some(ErrorFields { error_message: Some("y".repeat(500)), message: None, detail: None });
    assert_eq!(normalize_error_text_with("", &long_message).chars().count(), 400);
}

#[test]
fn error_bodies_are_read_as_json() {
    assert_eq!(normalize_error_text("{\"error\":{\"message\":\" model not found \"}}"), "model not found");
    assert_eq!(normalize_error_text("{\"message\":\"rate limited\",\"detail\":\"x\"}"), "rate limited");
    assert_eq!(normalize_error_text("{\"detail\":\"Not Found\"}"), "Not Found");
    assert_eq!(normalize_error_text("{\"error\":\"plain\",\"code\":1}"), "{\"error\":\"plain\",\"code\":1}");
    assert_eq!(normalize_error_text("{\"message\":42}"), "{\"message\":42}");
    assert_eq!(normalize_error_text("<html>\nBad Gateway\n</html>"), "<html> Bad Gateway </html>");
}

#[test]
fn chat_text_extraction() {
    assert_eq!(extract_chat_text(Some("  hi \n")), "hi");
    assert_eq!(extract_chat_text(None), "");
}

#[test]
fn responses_text_extraction() {
    let direct = ResponsesPayload { output_text: Some(" direct ".to_string()), output: None };
    assert_eq!(extract_responses_text(&direct), "direct");
    let item = |t: Option<&str>, o: Option<&str>, v: Option<&str>| ResponseItem {
        text: t.map(str::to_string),
        output_text: o.map(str::to_string),
        value: v.map(str::to_string),
    };
    let blocks = ResponsesPayload {
        output_text: None,
        output: Some(vec![
            ResponseBlock { content: Some(vec![item(Some(" a"), Some("ignored"), None), item(None, Some("b"), None)]) },
            ResponseBlock { content: None },
            ResponseBlock { content: Some(vec![item(None, None, Some("c ")), item(None, None, None)]) },
        ]),
    };
    assert_eq!(extract_responses_text(&blocks), "abc");
    let blank = ResponsesPayload {
        output_text: None,
        output: Some(vec![ResponseBlock { content: Some(vec![item(Some("  "), None, None)]) }]),
    };
    assert_eq!(extract_responses_text(&blank), "");
    assert_eq!(extract_responses_text(&ResponsesPayload { output_text: None, output: None }), "");
}

#[test]
fn responses_input_skips_blank_messages() {
    let ms = vec![msg("system", " be brief "), msg("user", "   "), msg("user", "hi")];
    let got = build_responses_input(&ms);
    assert_eq!(got.len(), 2);
    assert_eq!(got[0].role, "system");
    assert_eq!(got[0].content, "be brief");
    assert_eq!(got[1].content, "hi");
}

#[test]
fn flattened_input_uses_capital_roles() {
    let ms = vec![msg("system", " be brief "), msg("user", ""), msg("user", "hi")];
    assert_eq!(build_flattened_input(&ms), "SYSTEM:\nbe brief\n\nUSER:\nhi");
    assert_eq!(build_flattened_input(&vec![msg("user", " ")]), "");
}

#[test]
fn responses_variants_order_and_empty_case() {
    let ms = vec![msg("user", "hi")];
    match responses_variants(&ms) {
        Ok(v) => {
            assert_eq!(v.len(), 2);
            assert!(matches!(&v[0], ResponsesInput::Structured(s) if s.len() == 1));
            assert!(matches!(&v[1], ResponsesInput::Flattened(t) if t == "USER:\nhi"));
        }
        Err(_) => panic!("variants refused"),
    }
    match responses_variants(&vec![msg("user", "  ")]) {
        Err(e) => assert_eq!(e.message, "聊天接口未提供可发送内容"),
        Ok(_) => panic!("blank conversation accepted"),
    }
}

#[test]
fn request_headers() {
    let mut c = AiConfig::default();
    c.api_key = " sk-abc ".to_string();
    let h = build_headers(&c);
    assert_eq!(
        h,
        vec![
            ("Content-Type".to_string(), "application/json".to_string()),
            ("Authorization".to_string(), "Bearer sk-abc".to_string()),
            ("Connection".to_string(), "close".to_string()),
        ]
    );
    c.api_key = "".to_string();
    c.api_base = "https://api.example.com/v1".to_string();
    assert_eq!(build_headers(&c), vec![("Content-Type".to_string(), "application/json".to_string())]);
}

#[test]
fn error_statuses() {
    assert!(is_error_status(400));
    assert!(is_error_status(599));
    assert!(!is_error_status(399));
    assert!(!is_error_status(200));
}

#[test]
fn retry_steps() {
    let c = AiConfig::default();
    let busy = || HttpOutcome::ErrorStatus { status: 503, body: "busy".to_string() };
    assert!(matches!(request_step(&c, 1, busy()), Some(RequestStep::Retry { delay_ms: 1500 })));
    assert!(matches!(request_step(&c, 2, busy()), Some(RequestStep::Retry { delay_ms: 3000 })));
    match request_step(&c, 3, busy()) {
        Some(RequestStep::Fail(e)) => assert_eq!(e.message, "聊天接口返回 HTTP 503：busy"),
        _ => panic!("third attempt retried"),
    }
    let bad = HttpOutcome::ErrorStatus { status: 400, body: "bad".to_string() };
    assert!(matches!(request_step(&c, 1, bad), Some(RequestStep::Fail(_))));
    let net = HttpOutcome::SendFailed { text: "operation timed out".to_string() };
    assert!(matches!(request_step(&c, 1, net), Some(RequestStep::Retry { delay_ms: 1500 })));
    match request_step(&c, 1, HttpOutcome::SendFailed { text: "builder error".to_string() }) {
        Some(RequestStep::Fail(e)) => assert_eq!(e.message, "builder error"),
        _ => panic!("non-network failure retried"),
    }
    let mut huge = AiConfig::default();
    huge.retry_delay_ms = u64::MAX;
    assert!(request_step(&huge, 2, busy()).is_none());
}

#[test]
fn attempt_series_keeps_last_failure() {
    let mut s = AttemptSeries::new(1, 3);
    assert_eq!(s.next_attempt(), Some((0, 0)));
    assert_eq!(s.record_attempt(Err(err("first"))), None);
    assert_eq!(s.next_attempt(), Some((0, 1)));
    assert_eq!(s.record_attempt(Ok(String::new())), None);
    assert_eq!(s.next_attempt(), Some((0, 2)));
    assert_eq!(s.record_attempt(Ok("answer".to_string())), Some("answer".to_string()));
    let mut t = AttemptSeries::new(1, 2);
    assert_eq!(t.record_attempt(Err(err("down"))), None);
    assert_eq!(t.record_attempt(Ok(String::new())), None);
    assert_eq!(t.next_attempt(), None);
    assert_eq!(t.finish("chat transport failed").message, "聊天接口未返回可用文本");
    assert_eq!(AttemptSeries::new(1, 0).next_attempt(), None);
    assert_eq!(AttemptSeries::new(1, 0).finish("chat transport failed").message, "chat transport failed");
}

#[test]
fn attempt_series_walks_forms_then_candidates() {
    let mut s = AttemptSeries::new(2, 2);
    let mut seen = Vec::new();
    while let Some(pos) = s.next_attempt() {
        seen.push(pos);
        assert_eq!(s.record_attempt(Err(err("HTTP 401"))), None);
    }
    assert_eq!(seen, vec![(0, 0), (0, 1), (1, 0), (1, 1)]);
    assert_eq!(s.finish("responses transport failed").message, "HTTP 401");
}
