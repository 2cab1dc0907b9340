use napcat_chat::chat_client::{
    finish_image, record_image_transport, transport_list, OpenAiCompatClient, Transport,
};
use napcat_chat::config::AiConfig;
use napcat_chat::error::BotError;

fn client(api_base: &str) -> OpenAiCompatClient {
    let mut c = AiConfig::default();
    c.api_base = api_base.to_string();
    match OpenAiCompatClient::new(c) {
        Ok(client) => client,
        Err(e) => panic!("client not built: {}", e.message),
    }
}

fn failure(text: &str) -> BotError {
    BotError::from_str(text)
}

#[test]
fn transport_order_depends_on_proxy() {
    assert!(transport_list(false) == vec![Transport::Chat, Transport::Responses]);
    assert!(transport_list(true) == vec![Transport::Responses, Transport::Chat]);
}

#[test]
fn new_client_has_no_history() {
    let c = client("https://api.example.com/v1");
    assert_eq!(c.retryable_failure_streak, 0);
    assert!(c.cooldown_until_ms.is_none());
    assert!(c.chat_suppressed_until_ms.is_none());
    assert!(c.responses_suppressed_until_ms.is_none());
    assert_eq!(c.cooldown_reason, "");
}

#[test]
fn start_fixes_model_and_settings() {
    let c = client("https://api.example.com/v1");
    let run = match c.start_complete(0, Some(" custom "), Some(7), None) {
        Ok(run) => run,
        Err(e) => panic!("refused: {}", e.message),
    };
    assert_eq!(run.model, "custom");
    assert_eq!(run.temperature_bits, 7);
    assert_eq!(run.max_tokens, 512);
    assert!(run.order == vec![Transport::Chat, Transport::Responses]);
    assert_eq!(run.index, 0);
    let default_run = match c.start_complete(0, None, None, Some(9)) {
        Ok(run) => run,
        Err(e) => panic!("refused: {}", e.message),
    };
    assert_eq!(default_run.model, "gpt-5.4-mini");
    assert_eq!(default_run.temperature_bits, 0x3f33_3333);
    assert_eq!(default_run.max_tokens, 9);
}

#[test]
fn invalid_config_refused_before_cooldown() {
    let mut c = client("https://api.example.com/v1");
    c.config.model = String::new();
    c.cooldown_until_ms = Some(1000);
    match c.start_complete(0, None, None, None) {
        Err(e) => assert_eq!(e.message, "chat.model 未配置"),
        Ok(_) => panic!("accepted"),
    }
}

#[test]
fn success_clears_history() {
    let mut c = client("https://api.example.com/v1");
    c.retryable_failure_streak = 1;
    c.cooldown_until_ms = Some(5);
    c.cooldown_reason = "old".to_string();
    let mut run = c.start_complete(10, None, None, None).ok().expect("run");
    let out = c.record_transport(&mut run, 10, Ok("text".to_string()));
    assert!(matches!(out, Some(Ok(ref t)) if t == "text"));
    assert_eq!(c.retryable_failure_streak, 0);
    assert!(c.cooldown_until_ms.is_none());
    assert_eq!(c.cooldown_reason, "");
}

#[test]
fn retryable_failures_reach_cooldown() {
    let mut c = client("https://api.example.com/v1");
    for round in 0..2u64 {
        let mut run = c.start_complete(100, None, None, None).ok().expect("run");
        assert_eq!(c.next_transport(&mut run, 100), Some(Transport::Chat));
        assert!(c.record_transport(&mut run, 100, Err(failure("聊天接口返回 HTTP 503：busy"))).is_none());
        assert_eq!(c.next_transport(&mut run, 100), Some(Transport::Responses));
        let out = c.record_transport(&mut run, 100, Err(failure("聊天接口返回 HTTP 502：gateway")));
        match out {
            Some(Err(e)) => assert_eq!(e.message, "聊天接口返回 HTTP 502：gateway"),
            _ => panic!("request not ended"),
        }
        assert_eq!(c.retryable_failure_streak as u64, round + 1);
    }
    assert_eq!(c.cooldown_until_ms, Some(60_100));
    assert_eq!(c.cooldown_reason, "聊天接口返回 HTTP 502：gateway");
    match c.start_complete(60_099, None, None, None) {
        Err(e) => assert_eq!(e.message, "聊天接口暂时不可用，已进入冷却：聊天接口返回 HTTP 502：gateway"),
        Ok(_) => panic!("cooldown ignored"),
    }
    assert!(c.start_complete(60_100, None, None, None).is_ok());
}

#[test]
fn non_retryable_failure_resets_streak() {
    let mut c = client("https://api.example.com/v1");
    c.retryable_failure_streak = 1;
    let mut run = c.start_complete(0, None, None, None).ok().expect("run");
    let out = c.record_transport(&mut run, 0, Err(failure("聊天接口返回 HTTP 401：no key")));
    assert!(matches!(out, Some(Err(_))));
    assert_eq!(c.retryable_failure_streak, 0);
    assert!(c.cooldown_until_ms.is_none());
}

#[test]
fn chat_failure_behind_proxy_is_suppressed() {
    let mut c = client("http://127.0.0.1:15721/v1");
    let mut run = c.start_complete(1000, None, None, None).ok().expect("run");
    assert_eq!(c.next_transport(&mut run, 1000), Some(Transport::Responses));
    assert!(c.record_transport(&mut run, 1000, Err(failure("聊天接口返回 HTTP 404：no"))).is_none());
    assert_eq!(c.next_transport(&mut run, 1000), Some(Transport::Chat));
    let out = c.record_transport(&mut run, 1000, Err(failure("聊天接口返回 HTTP 404：no")));
    assert!(matches!(out, Some(Err(_))));
    assert_eq!(c.chat_suppressed_until_ms, Some(601_000));
    let mut next = c.start_complete(2000, None, None, None).ok().expect("run");
    assert_eq!(c.next_transport(&mut next, 2000), Some(Transport::Responses));
    next.index = 1;
    assert_eq!(c.next_transport(&mut next, 2000), None);
    assert_eq!(next.index, 2);
    let e = c.finish_complete(next, 2000);
    assert_eq!(e.message, "unknown chat backend error");
}

#[test]
fn image_requests_fall_back_once() {
    let c = client("https://api.example.com/v1");
    let mut run = c.start_image(Some("vision"), None, None).ok().expect("run");
    assert_eq!(run.model, "vision");
    assert!(record_image_transport(&mut run, Err(failure("timeout"))).is_none());
    assert_eq!(run.index, 1);
    let out = record_image_transport(&mut run, Err(failure("timeout again")));
    assert!(matches!(out, Some(Err(ref e)) if e.message == "timeout again"));
    let mut empty = c.start_image(None, None, None).ok().expect("run");
    empty.index = 2;
    assert_eq!(finish_image(empty).message, "image completion failed");
}
