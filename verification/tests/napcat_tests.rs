use napcat_chat::config::NapcatConfig;
use napcat_chat::napcat::{
    api_http_error, check_api_reply, group_message_segments, join_url, lines_of, next_backoff,
    parse_sse_block, sse_closed_error, sse_data, sse_http_error, take_sse_block, take_sse_blocks,
    truncate,
    MessageSegment, NapcatClient,
};

#[test]
fn client_keeps_its_config() {
    let mut config = NapcatConfig::default();
    config.base_url = "http://10.0.0.2:3000".to_string();
    match NapcatClient::new(config) {
        Ok(c) => assert_eq!(c.config.base_url, "http://10.0.0.2:3000"),
        Err(e) => panic!("client not built: {}", e.message),
    }
}

#[test]
fn urls_join_with_one_slash() {
    assert_eq!(join_url("http://h:3000/", "/send_group_msg"), "http://h:3000/send_group_msg");
    assert_eq!(join_url("http://h:3000", "send_group_msg"), "http://h:3000/send_group_msg");
    assert_eq!(join_url("http://h:3000///", "//_events"), "http://h:3000/_events");
    assert_eq!(join_url("", ""), "/");
}

#[test]
fn truncation_by_characters() {
    assert_eq!(truncate("错误信息很长", 2), "错误");
    assert_eq!(truncate("short", 300), "short");
}

#[test]
fn message_segments() {
    let plain = group_message_segments("hi", None);
    assert_eq!(plain.len(), 1);
    assert!(matches!(&plain[0], MessageSegment::Text { text } if text == "hi"));
    let reply = group_message_segments("hi", Some("77"));
    assert_eq!(reply.len(), 2);
    assert!(matches!(&reply[0], MessageSegment::Reply { id } if id == "77"));
    assert!(matches!(&reply[1], MessageSegment::Text { text } if text == "hi"));
}

#[test]
fn reconnect_backoff() {
    assert_eq!(next_backoff(2, true), 4);
    assert_eq!(next_backoff(8, true), 16);
    assert_eq!(next_backoff(16, true), 30);
    assert_eq!(next_backoff(30, true), 30);
    assert_eq!(next_backoff(30, false), 2);
    let mut b = 2u64;
    for _ in 0..10 {
        b = next_backoff(b, true);
        assert!((2..=30).contains(&b));
    }
}

#[test]
fn stream_buffer_splitting() {
    assert_eq!(
        take_sse_block("data: 1\n\ndata: 2"),
        Some(("data: 1".to_string(), "data: 2".to_string()))
    );
    assert_eq!(take_sse_block("data: partial\n"), None);
    assert_eq!(take_sse_block("\n\n"), Some((String::new(), String::new())));
    let buffer = "a\nb\n\nrest\n\nmore";
    let (block, rest) = take_sse_block(buffer).expect("block");
    assert_eq!(format!("{block}\n\n{rest}"), buffer);
    assert!(!block.contains("\n\n"));
}

#[test]
fn lines_like_str_lines() {
    for text in ["a\nb", "a\r\nb\r\n", "", "\n", "x\r", "a\n\nb\n"] {
        let expected: Vec<String> = text.lines().map(str::to_string).collect();
        assert_eq!(lines_of(text), expected, "{text:?}");
    }
}

#[test]
fn event_data_lines() {
    assert_eq!(sse_data("event: x\ndata: {\"a\":\ndata:1}\nid: 3"), Some("{\"a\":\n1}".to_string()));
    assert_eq!(sse_data(": keepalive"), None);
    assert_eq!(sse_data("data:   spaced"), Some("spaced".to_string()));
}

#[test]
fn event_blocks_parse_as_json() {
    let event = parse_sse_block("data: {\"post_type\":\"message\",\"group_id\":1}").expect("event");
    assert_eq!(event["post_type"], "message");
    assert!(parse_sse_block("data: not json").is_none());
    let joined = parse_sse_block("event: message\ndata: {\"a\":\ndata:1}\nid: 3").expect("event");
    let expected: serde_json::Value = serde_json::from_str("{\"a\": 1}").expect("json");
    assert_eq!(joined, expected);
    assert!(parse_sse_block(": ping").is_none());
    assert!(parse_sse_block("id: 1").is_none());
}

#[test]
fn api_reply_checks() {
    assert!(check_api_reply("send_group_msg", Some("ok"), Some(0)).is_ok());
    assert!(check_api_reply("send_group_msg", None, None).is_ok());
    match check_api_reply("send_group_msg", Some("failed"), Some(0)) {
        Err(e) => assert_eq!(e.message, "NapCat API send_group_msg 失败: failed"),
        Ok(()) => panic!("accepted"),
    }
    match check_api_reply("send_group_msg", Some("ok"), Some(-100)) {
        Err(e) => assert_eq!(e.message, "NapCat API send_group_msg retcode=-100"),
        Ok(()) => panic!("accepted"),
    }
    match check_api_reply("x", None, Some(i64::MIN)) {
        Err(e) => assert_eq!(e.message, format!("NapCat API x retcode={}", i64::MIN)),
        Ok(()) => panic!("accepted"),
    }
}

#[test]
fn napcat_error_texts() {
    let body = "e".repeat(400);
    let e = api_http_error("send_group_msg", "500 Internal Server Error", &body);
    assert_eq!(e.message, format!("NapCat API send_group_msg 返回 HTTP 500 Internal Server Error: {}", "e".repeat(300)));
    assert_eq!(sse_http_error("403 Forbidden").message, "NapCat SSE 返回 HTTP 403 Forbidden");
    assert_eq!(sse_closed_error().message, "NapCat SSE 连接已结束");
}

#[test]
fn stream_blocks_do_not_depend_on_chunking() {
    let stream = "data: {\"n\":1}\n\n: ping\n\ndata: {\"n\":2}\n\ndata: partial";
    let (whole, whole_rest) = take_sse_blocks(stream);
    assert_eq!(whole, vec!["data: {\"n\":1}", ": ping", "data: {\"n\":2}"]);
    assert_eq!(whole_rest, "data: partial");
    for cut in 0..=stream.len() {
        if !stream.is_char_boundary(cut) {
            continue;
        }
        let (first, rest) = take_sse_blocks(&stream[..cut]);
        let (second, last) = take_sse_blocks(&format!("{rest}{}", &stream[cut..]));
        let mut all = first;
        all.extend(second);
        assert_eq!(all, whole, "cut at {cut}");
        assert_eq!(last, whole_rest);
    }
    let events: Vec<serde_json::Value> = whole.iter().filter_map(|b| parse_sse_block(b)).collect();
    assert_eq!(events.len(), 2);
    assert_eq!(events[1]["n"], 2);
}
