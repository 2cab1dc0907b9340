use napcat_chat::config::{Config, ToolsConfig, AiConfig};
use napcat_chat::tools::{
    audit_record, build_tool_system_prompt, choose_image_url, edit_result, ensure_path_not_protected,
    ensure_python_code_safe, ensure_shell_args_safe, ensure_text_edit_safe, fetch_result,
    fetch_status_error, fetch_url, find_rule_hit, image_question, maybe_resolve_arg_path,
    next_file_content, plan_tool, prepare_edit_mode, prepare_python_code, prepare_shell_program,
    python_result, python_script_name, read_image_result, send_file_name, send_result,
    shell_result, should_delete_after_send, tool_request_payload, vision_model, RuleForm,
    ToolKind, ToolRequest, ToolRuntimeContext,
};
use napcat_chat::error::BotError;

fn request(tool: &str) -> ToolRequest {
    ToolRequest {
        tool: tool.to_string(),
        self_assessed_safe: true,
        reason: String::new(),
        code: String::new(),
        file_path: String::new(),
        file_name: String::new(),
        notify_text: String::new(),
        delete_after_send: false,
        mode: String::new(),
        content: String::new(),
        old_text: String::new(),
        new_text: String::new(),
        url: String::new(),
        image_url: String::new(),
        question: String::new(),
        program: String::new(),
        args: Vec::new(),
    }
}

fn refusal<T>(r: Result<T, BotError>) -> String {
    match r {
        Err(e) => e.message,
        Ok(_) => panic!("accepted"),
    }
}

fn strings(v: &[&str]) -> Vec<String> {
    v.iter().map(|s| s.to_string()).collect()
}

#[test]
fn plan_refusals_and_tools() {
    let mut tools = ToolsConfig::default();
    assert_eq!(plan_tool(&tools, &request(" run_python ")).ok(), Some(ToolKind::RunPython));
    assert_eq!(plan_tool(&tools, &request("shell_command")).ok(), Some(ToolKind::ShellCommand));
    assert_eq!(refusal(plan_tool(&tools, &request("format_disk"))), "不支持的工具：format_disk");
    let mut unsure = request("run_python");
    unsure.self_assessed_safe = false;
    assert_eq!(refusal(plan_tool(&tools, &unsure)), "模型未确认该操作安全，拒绝执行");
    tools.enabled = false;
    assert_eq!(refusal(plan_tool(&tools, &request("run_python"))), "工具执行未启用");
}

#[test]
fn python_rules() {
    assert!(ensure_python_code_safe("print(1 + 1)").is_ok());
    assert_eq!(refusal(ensure_python_code_safe("IMPORT OS\nos.system('x')")), "python 代码命中禁用规则：import os");
    assert_eq!(refusal(ensure_python_code_safe("x = open('f')")), "python 代码命中禁用规则：open(");
    assert_eq!(refusal(ensure_python_code_safe("__import__('os')")), "python 代码命中禁用规则：__import__");
    let mut r = request("run_python");
    r.code = "   ".to_string();
    assert_eq!(refusal(prepare_python_code(&r)), "run_python 缺少 code");
    r.code = "  print(2)\n".to_string();
    assert_eq!(prepare_python_code(&r).ok(), Some("print(2)".to_string()));
}

#[test]
fn python_reports() {
    assert_eq!(python_script_name(42, 1700000000000), "tool-python-42-1700000000000.py");
    assert_eq!(python_result(true, "4\n", "", 100).ok(), Some("python 执行完成。\nstdout:\n4\n\n".to_string()));
    assert_eq!(
        python_result(true, "ok", "warn", 100).ok(),
        Some("python 执行完成。\nstdout:\nok\n\nstderr:\nwarn".to_string())
    );
    assert_eq!(refusal(python_result(false, "", "Traceback", 100)), "python 执行失败：Traceback");
}

#[test]
fn text_edit_rules() {
    assert_eq!(refusal(ensure_text_edit_safe("/tmp/x.DB", "hello")), "禁止编辑数据库文件");
    assert_eq!(refusal(ensure_text_edit_safe("/tmp/x.txt", "token SK-123")), "禁止写入疑似密钥内容");
    assert_eq!(refusal(ensure_text_edit_safe("/tmp/x.txt", "Authorization: Bearer abc")), "禁止写入疑似密钥内容");
    assert!(ensure_text_edit_safe("/tmp/x.txt", "notes").is_ok());
    assert!(ensure_text_edit_safe("/tmp/db", "notes").is_ok());
}

#[test]
fn edit_contents() {
    let mut r = request("edit_text_file");
    r.content = "new".to_string();
    assert_eq!(next_file_content("overwrite", &r, "old").ok(), Some("new".to_string()));
    assert_eq!(next_file_content("append", &r, "old").ok(), Some("oldnew".to_string()));
    assert_eq!(refusal(next_file_content("replace_all", &r, "old")), "replace_all 需要 old_text");
    r.old_text = "zz".to_string();
    assert_eq!(refusal(next_file_content("replace_all", &r, "old")), "目标文本不存在，拒绝 replace_all");
    r.old_text = "o".to_string();
    r.new_text = "0".to_string();
    assert_eq!(next_file_content("replace_all", &r, "foo").ok(), Some("f00".to_string()));
    assert_eq!(refusal(next_file_content("delete", &r, "foo")), "不支持的编辑模式：delete");
    r.mode = "  ".to_string();
    assert_eq!(refusal(prepare_edit_mode(&r)), "edit_text_file 缺少 mode");
    r.mode = " append ".to_string();
    assert_eq!(prepare_edit_mode(&r).ok(), Some("append".to_string()));
    assert_eq!(edit_result("/srv/a.txt"), "文本文件已更新：/srv/a.txt");
}

#[test]
fn protected_paths() {
    let tools = ToolsConfig::default();
    assert_eq!(
        refusal(ensure_path_not_protected(&tools, "./data/config.json", "/bot/data/config.json", "/bot/data/config.json")),
        "禁止访问主配置文件：./data/config.json"
    );
    assert_eq!(
        refusal(ensure_path_not_protected(&tools, "/ETC/passwd", "/ETC/passwd", "/bot/config.json")),
        "目标路径命中敏感路径规则：/etc/"
    );
    assert_eq!(
        refusal(ensure_path_not_protected(&tools, "x", "/home/u/Memory.JSON", "/bot/config.json")),
        "目标文件命中敏感文件规则：memory.json"
    );
    assert_eq!(
        refusal(ensure_path_not_protected(&tools, "x", "/home/u/server.PEM", "/bot/config.json")),
        "目标文件扩展名命中敏感规则：.pem"
    );
    assert!(ensure_path_not_protected(&tools, "x", "/home/u/notes.txt", "/bot/config.json").is_ok());
}

#[test]
fn configured_rules_are_normalized() {
    let items = strings(&["  ", " .PEM "]);
    assert_eq!(find_rule_hit(&items, RuleForm::Extension, false, "pem"), Some("pem".to_string()));
    let keys = strings(&["C:\\Secret\\"]);
    assert_eq!(find_rule_hit(&keys, RuleForm::PathKeyword, true, "c:/secret/x"), Some("c:/secret/".to_string()));
    assert_eq!(find_rule_hit(&keys, RuleForm::PathKeyword, true, "c:/public/x"), None);
}

#[test]
fn shell_argument_paths() {
    assert_eq!(maybe_resolve_arg_path("/bot", "/etc/hosts"), Some("/etc/hosts".to_string()));
    assert_eq!(maybe_resolve_arg_path("/bot", "./a/b"), Some("/bot/./a/b".to_string()));
    assert_eq!(maybe_resolve_arg_path("/bot", "data/x"), Some("/bot/data/x".to_string()));
    assert_eq!(maybe_resolve_arg_path("/bot", "-la"), None);
    assert_eq!(maybe_resolve_arg_path("/bot", "plain"), None);
    assert_eq!(maybe_resolve_arg_path("/bot", "key=/etc/x"), None);
    assert_eq!(maybe_resolve_arg_path("/bot", "/opt/k=/etc/y"), Some("/etc/y".to_string()));
    assert_eq!(maybe_resolve_arg_path("/bot", "  "), None);
}

#[test]
fn shell_rules() {
    let tools = ToolsConfig::default();
    let none: Vec<String> = Vec::new();
    assert_eq!(
        refusal(ensure_shell_args_safe("/usr/bin/SUDO", &none, &tools, "/bot", &none, "/bot")),
        "命令程序命中禁用规则：sudo"
    );
    let args = strings(&["-9", "1"]);
    let norm = strings(&["", ""]);
    assert_eq!(
        refusal(ensure_shell_args_safe("kill", &args, &tools, "/bot", &norm, "/bot")),
        "命令程序命中禁用规则：kill"
    );
    let args = strings(&["/etc/shadow"]);
    let norm = strings(&["/etc/shadow"]);
    assert_eq!(
        refusal(ensure_shell_args_safe("cat", &args, &tools, "/bot", &norm, "/bot")),
        "命令命中禁用规则：/etc/"
    );
    let args = strings(&["./data/memory.json"]);
    let norm = strings(&["/bot/data/memory.json"]);
    assert_eq!(
        refusal(ensure_shell_args_safe("cat", &args, &tools, "/bot", &norm, "/bot")),
        "目标文件命中敏感文件规则：memory.json"
    );
    let args = strings(&["-h", "/home"]);
    let norm = strings(&["", "/home"]);
    assert!(ensure_shell_args_safe("df", &args, &tools, "/bot", &norm, "/bot").is_ok());
    let mut r = request("shell_command");
    assert_eq!(refusal(prepare_shell_program(&r)), "shell_command 缺少 program");
    r.program = " ls ".to_string();
    assert_eq!(prepare_shell_program(&r).ok(), Some("ls".to_string()));
}

#[test]
fn shell_reports() {
    let args = strings(&["-h", "/"]);
    assert_eq!(
        shell_result(true, "df", &args, "Filesystem", "", 100).ok(),
        Some("命令执行完成：df -h /\nstdout:\nFilesystem\n".to_string())
    );
    assert_eq!(refusal(shell_result(false, "df", &args, "", "denied", 100)), "shell_command 执行失败：denied");
}

#[test]
fn sending_files() {
    let mut r = request("send_local_file");
    assert_eq!(send_file_name(&r, Some("a.txt".to_string())), "a.txt");
    assert_eq!(send_file_name(&r, None), "tool-output.bin");
    r.file_name = " report.csv ".to_string();
    assert_eq!(send_file_name(&r, Some("a.txt".to_string())), "report.csv");
    assert!(should_delete_after_send(&r, "/bot/data/tool-temp/x", "/bot/data/tool-temp"));
    assert!(!should_delete_after_send(&r, "/bot/data/tool-tempx", "/bot/data/tool-temp"));
    r.delete_after_send = true;
    assert!(should_delete_after_send(&r, "/elsewhere/x", "/bot/data/tool-temp"));
    assert_eq!(send_result("123", "/srv/a.txt"), "文件已发送到群 123：/srv/a.txt");
}

#[test]
fn fetching_pages() {
    let mut r = request("fetch_web_page");
    assert_eq!(refusal(fetch_url(&r)), "fetch_web_page 缺少 url");
    r.url = "ftp://x".to_string();
    assert_eq!(refusal(fetch_url(&r)), "只允许抓取 http/https 页面");
    r.url = " https://example.com ".to_string();
    assert_eq!(fetch_url(&r).ok(), Some("https://example.com".to_string()));
    assert_eq!(fetch_status_error("404 Not Found").message, "抓取网页失败：HTTP 404 Not Found");
    assert_eq!(fetch_result("https://e", "abcdef", 3), "网页抓取成功：https://e\nabc\n...(已截断)");
}

#[test]
fn reading_images() {
    let mut r = request("read_image");
    let one = ToolRuntimeContext { group_id: "1".to_string(), current_image_urls: strings(&["https://img/1"]) };
    let two = ToolRuntimeContext { group_id: "1".to_string(), current_image_urls: strings(&["https://a", "https://b"]) };
    assert_eq!(choose_image_url(&r, &one).ok(), Some("https://img/1".to_string()));
    assert_eq!(refusal(choose_image_url(&r, &two)), "read_image 缺少 image_url，且当前消息没有唯一可用图片");
    r.image_url = "file:///etc/x".to_string();
    assert_eq!(refusal(choose_image_url(&r, &one)), "read_image 只允许读取 http/https 图片");
    r.image_url = " http://pic ".to_string();
    assert_eq!(choose_image_url(&r, &two).ok(), Some("http://pic".to_string()));
    assert!(image_question(&r).starts_with("请描述这张图片"));
    r.question = " 这是什么？ ".to_string();
    assert_eq!(image_question(&r), "这是什么？");
    let mut ai = AiConfig::default();
    assert_eq!(vision_model(&ai), None);
    ai.vision_model = " vl ".to_string();
    assert_eq!(vision_model(&ai), Some("vl".to_string()));
    assert_eq!(read_image_result("http://pic", "a cat", 100), "读图完成：http://pic\na cat");
}

#[test]
fn audit_records() {
    let ok: Result<String, BotError> = Ok("done".to_string());
    assert_eq!(audit_record(&ok), (true, "done".to_string()));
    let failed: Result<String, BotError> = Err(BotError::from_str("bad"));
    assert_eq!(audit_record(&failed), (false, "bad".to_string()));
}

#[test]
fn tool_request_extraction() {
    let text = "  先想想【TOOL_REQUEST】 {\"tool\":\"run_python\"} 【END_TOOL_REQUEST】 ";
    assert_eq!(tool_request_payload(text), Some("{\"tool\":\"run_python\"}".to_string()));
    assert_eq!(tool_request_payload("【END_TOOL_REQUEST】x【TOOL_REQUEST】"), None);
    assert_eq!(tool_request_payload("no request"), None);
    assert_eq!(tool_request_payload("【TOOL_REQUEST】{}"), None);
    assert_eq!(tool_request_payload("【TOOL_REQUEST】【END_TOOL_REQUEST】"), Some(String::new()));
}

#[test]
fn tool_request_round_trip() {
    let payload = " {\"tool\":\"fetch_web_page\",\"url\":\"https://x/【a】\"} ";
    let text = format!("【TOOL_REQUEST】{payload}【END_TOOL_REQUEST】");
    assert_eq!(tool_request_payload(&text), Some(payload.trim().to_string()));
}

#[test]
fn tool_prompt() {
    let mut config = Config::default();
    let prompt = build_tool_system_prompt(&config);
    assert!(prompt.starts_with("你拥有一组受限工具"));
    assert!(prompt.contains("【TOOL_REQUEST】"));
    assert!(prompt.contains("【END_TOOL_REQUEST】"));
    assert!(prompt.ends_with("- 最多工具轮数：3。"));
    config.tools.max_rounds = 12;
    assert!(build_tool_system_prompt(&config).ends_with("最多工具轮数：12。"));
    config.tools.enabled = false;
    assert_eq!(build_tool_system_prompt(&config), "");
}
