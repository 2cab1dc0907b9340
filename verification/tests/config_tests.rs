use napcat_chat::chat_client::OpenAiCompatClient;
use napcat_chat::config::{get_cainbot_exclusive_groups_file_path, AiConfig, Config, NapcatConfig};
use napcat_chat::error::BotError;
use napcat_chat::napcat::NapcatClient;
use napcat_chat::tools::ToolExecutor;
use napcat_chat::http::{effective_timeout_ms, http_client};
use napcat_chat::paths::resolve_path;

#[test]
fn defaults_match_documented_values() {
    let c = Config::default();
    assert_eq!(c.napcat.base_url, "http://127.0.0.1:3000");
    assert_eq!(c.napcat.event_base_url, "http://127.0.0.1:3000");
    assert_eq!(c.napcat.event_path, "/_events");
    assert!(c.napcat.headers.is_empty());
    assert_eq!(c.napcat.request_timeout_ms, 20_000);
    assert_eq!(c.ai.api_base, "http://127.0.0.1:15721/v1");
    assert_eq!(c.ai.model, "gpt-5.4-mini");
    assert_eq!(c.ai.failover_models[0], "gpt-5.4");
    assert_eq!(c.ai.failover_models.len(), 5);
    assert_eq!(c.ai.max_tokens, 512);
    assert_eq!(f32::from_bits(c.ai.temperature_bits), 0.7f32);
    assert_eq!(c.ai.retry_attempts, 3);
    assert_eq!(c.ai.retry_delay_ms, 1500);
    assert_eq!(c.ai.request_timeout_ms, 90_000);
    assert_eq!(c.ai.failure_cooldown_ms, 60_000);
    assert_eq!(c.ai.failure_cooldown_threshold, 2);
    assert_eq!(c.bot.enabled_groups, vec!["all".to_string()]);
    assert_eq!(c.bot.history_size, 24);
    assert_eq!(f64::from_bits(c.bot.reply_probability_bits), 1.0);
    let delays: Vec<f64> = c.bot.reply_delay_seconds_bits.iter().map(|b| f64::from_bits(*b)).collect();
    assert_eq!(delays, vec![0.8, 1.8]);
    assert!(c.bot.mention_reply && c.bot.record_memory);
    assert_eq!(c.bot.max_message_length, 2000);
    assert!(c.bot.persona_prompt.ends_with("必须只回复“【SKIP】”。"));
    assert!(c.bot.filter_prompt.starts_with("这个字段仅为兼容保留"));
    assert!(c.tools.enabled);
    assert_eq!(c.tools.max_rounds, 3);
    assert_eq!(c.tools.fetch_max_chars, 12_000);
    assert_eq!(c.tools.temp_dir, "./data/tool-temp");
    assert_eq!(c.tools.audit_log_path, "./data/tool-audit.log");
    assert_eq!(c.tools.protected_extensions.len(), 13);
    assert_eq!(c.tools.shell_blocked_programs.len(), 31);
    assert_eq!(c.tools.shell_blocked_tokens.len(), 22);
    assert!(c.integration.write_cainbot_exclusive_groups);
    assert_eq!(c.integration.cainbot_exclusive_groups_file, "");
    assert_eq!(c.integration.cainbot_exclusive_groups_heartbeat_seconds, 30);
}

#[test]
fn exclusive_groups_file_location() {
    let mut c = Config::default();
    assert_eq!(get_cainbot_exclusive_groups_file_path("/srv/bot", &c), "/srv/bot/data/cainbot-exclusive-groups.json");
    c.integration.cainbot_exclusive_groups_file = " ./data/x.json ".to_string();
    assert_eq!(get_cainbot_exclusive_groups_file_path("/srv/bot", &c), "/srv/bot/./data/x.json");
    c.integration.cainbot_exclusive_groups_file = "/var/shared/groups.json".to_string();
    assert_eq!(get_cainbot_exclusive_groups_file_path("/srv/bot", &c), "/var/shared/groups.json");
}

#[test]
fn path_resolution() {
    assert_eq!(resolve_path("/root", " rel/file "), "/root/rel/file");
    assert_eq!(resolve_path("/root", "/abs/file"), "/abs/file");
}

#[test]
fn client_timeouts() {
    assert_eq!(effective_timeout_ms(100), 5000);
    assert_eq!(effective_timeout_ms(90_000), 90_000);
    assert!(http_client(20_000).is_ok());
}

#[test]
fn clients_around_built_http_clients() {

    match OpenAiCompatClient::from_http(AiConfig::default(), Err(BotError::from_str("no tls"))) {
        Err(e) => assert_eq!(e.message, "no tls"),
        Ok(_) => panic!("client without http"),
    }
    let chat = OpenAiCompatClient::from_http(AiConfig::default(), http_client(5000)).expect("client");
    assert_eq!(chat.retryable_failure_streak, 0);
    assert!(chat.cooldown_until_ms.is_none());
    match NapcatClient::from_http(NapcatConfig::default(), Err(BotError::from_str("no resolver"))) {
        Err(e) => assert_eq!(e.message, "no resolver"),
        Ok(_) => panic!("client without http"),
    }
    let napcat = NapcatClient::from_http(NapcatConfig::default(), http_client(5000)).expect("client");
    assert_eq!(napcat.config.event_path, "/_events");
    let other = NapcatClient::new(NapcatConfig::default()).expect("client");
    match ToolExecutor::from_http("/bot".to_string(), "/bot/c.json".to_string(), other, Err(BotError::from_str("x"))) {
        Err(e) => assert_eq!(e.message, "x"),
        Ok(_) => panic!("executor without http"),
    }
    let tools = ToolExecutor::from_http("/bot".to_string(), "/bot/c.json".to_string(), napcat, http_client(5000))
        .expect("executor");
    assert_eq!(tools.root_dir, "/bot");
    assert_eq!(tools.config_path, "/bot/c.json");
}
