//! Configuration of the bot and its defaults.
//!
//! Floating-point settings are held as the IEEE-754 bit patterns of their values
//! (`f32::to_bits` / `f64::to_bits`): the library only carries them through.
use vstd::prelude::*;
use std::collections::HashMap;
use crate::paths::{path_join, resolve_path, resolved_path, spec_path_join};
use crate::text::{trim, trim_str};

verus! {

/// All settings.
#[derive(Clone)]
pub struct Config {
    pub napcat: NapcatConfig,
    pub ai: AiConfig,
    pub bot: BotConfig,
    pub tools: ToolsConfig,
    pub integration: IntegrationConfig,
}

/// Where the NapCat HTTP API and its event stream are.
#[derive(Clone)]
pub struct NapcatConfig {
    pub base_url: String,
    pub event_base_url: String,
    pub event_path: String,
    pub headers: HashMap<String, String>,
    pub request_timeout_ms: u64,
}

/// The chat backend.
#[derive(Clone)]
pub struct AiConfig {
    pub api_key: String,
    pub api_base: String,
    pub model: String,
    pub failover_models: Vec<String>,
    pub reply_model: String,
    pub filter_model: String,
    pub memory_model: String,
    pub vision_model: String,
    pub max_tokens: u32,
    /// Bit pattern of the `f32` sampling temperature.
    pub temperature_bits: u32,
    pub retry_attempts: u32,
    pub retry_delay_ms: u64,
    pub request_timeout_ms: u64,
    pub failure_cooldown_ms: u64,
    pub failure_cooldown_threshold: u32,
}

/// Group-chat behaviour.
#[derive(Clone)]
pub struct BotConfig {
    pub enabled_groups: Vec<String>,
    pub history_size: usize,
    pub reply_keywords: Vec<String>,
    /// Bit pattern of the `f64` reply probability.
    pub reply_probability_bits: u64,
    pub mention_reply: bool,
    pub ignore_prefixes: Vec<String>,
    pub max_message_length: usize,
    /// Bit patterns of the `f64` reply delays, in seconds.
    pub reply_delay_seconds_bits: Vec<u64>,
    pub record_memory: bool,
    pub persona_prompt: String,
    pub filter_prompt: String,
}

/// Limits of the tools the model may request.
#[derive(Clone)]
pub struct ToolsConfig {
    pub enabled: bool,
    pub max_rounds: u32,
    pub execution_timeout_ms: u64,
    pub fetch_max_chars: usize,
    pub temp_dir: String,
    pub audit_log_path: String,
    pub protected_path_keywords: Vec<String>,
    pub protected_file_names: Vec<String>,
    pub protected_extensions: Vec<String>,
    pub shell_blocked_programs: Vec<String>,
    pub shell_blocked_tokens: Vec<String>,
}

/// The file shared with CainBot.
#[derive(Clone)]
pub struct IntegrationConfig {
    pub write_cainbot_exclusive_groups: bool,
    pub cainbot_exclusive_groups_file: String,
    pub cainbot_exclusive_groups_heartbeat_seconds: u64,
}

/// Where the file of groups reserved for this bot is written: the configured
/// file (relative paths taken from `root`), or `data/cainbot-exclusive-groups.json`
/// under `root` when none is configured.
pub open spec fn exclusive_groups_path(root: Seq<char>, configured: Seq<char>) -> Seq<char> {
    if trim(configured).len() == 0 {
        spec_path_join(spec_path_join(root, "data"@), "cainbot-exclusive-groups.json"@)
    } else {
        resolved_path(root, configured)
    }
}

/// Where the file of groups reserved for this bot is written.
pub fn get_cainbot_exclusive_groups_file_path(root_dir: &str, config: &Config) -> (r: String)
    ensures
        r@ == exclusive_groups_path(root_dir@, config.integration.cainbot_exclusive_groups_file@),
{
    let configured = trim_str(config.integration.cainbot_exclusive_groups_file.as_str());
    if configured.as_str().is_empty() {
        let data = path_join(root_dir, "data");
        path_join(data.as_str(), "cainbot-exclusive-groups.json")
    } else {
        resolve_path(root_dir, config.integration.cainbot_exclusive_groups_file.as_str())
    }
}

} // verus!
