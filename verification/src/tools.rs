//! The rules that decide whether a tool request of the model may run, and the
//! texts its results are reported in.
use vstd::prelude::*;
use vstd::string::*;
use crate::config::{AiConfig, Config, ToolsConfig};
use crate::error::BotError;
use crate::http::http_client;
use crate::napcat::NapcatClient;
use crate::paths::{
    path_eq, path_extension, path_file_name, path_is_absolute, path_join, path_starts_with,
    resolve_path, resolved_path, spec_path_eq, spec_path_extension, spec_path_file_name,
    spec_path_is_absolute, spec_path_join, spec_path_starts_with,
};
use crate::text::{
    after_char, after_char_str, chars_of, contains, contains_chars, decimal, eq_ignore_ascii_case,
    find_first, first_index_from, join, join_strings, last_segment, last_segment_str, occurs_at,
    push_decimal, push_str, replace_all, replace_char, replace_char_str, replace_str,
    spec_lowercase, spec_trim_text, starts_with, str_contains, str_eq, str_eq_ignore_ascii_case,
    str_starts_with, string_of, strings_view, to_lowercase, trim, trim_end, trim_start, trim_start_char,
    trim_start_char_str, trim_str, trim_text,
};

verus! {

/// Where a tool request comes from.
pub struct ToolRuntimeContext {
    pub group_id: String,
    pub current_image_urls: Vec<String>,
}

/// A tool request of the model.
pub struct ToolRequest {
    pub tool: String,
    pub self_assessed_safe: bool,
    pub reason: String,
    pub code: String,
    pub file_path: String,
    pub file_name: String,
    pub notify_text: String,
    pub delete_after_send: bool,
    pub mode: String,
    pub content: String,
    pub old_text: String,
    pub new_text: String,
    pub url: String,
    pub image_url: String,
    pub question: String,
    pub program: String,
    pub args: Vec<String>,
}

/// Runs the tools: paths are taken from `root_dir`, `config_path` is the
/// main configuration file, files are sent through `napcat` and pages fetched
/// with `http`.
pub struct ToolExecutor {
    pub root_dir: String,
    pub config_path: String,
    pub napcat: NapcatClient,
    pub http: reqwest::Client,
}

impl ToolExecutor {
    /// An executor whose page fetches time out after twenty seconds.
    pub fn new(root_dir: String, config_path: String, napcat: NapcatClient) -> (r: Result<
        ToolExecutor,
        BotError,
    >)
        ensures
            r matches Ok(t) ==> t.root_dir == root_dir && t.config_path == config_path && t.napcat
                == napcat,
    {
        Self::from_http(root_dir, config_path, napcat, http_client(20_000))
    }

    /// An executor around the outcome of building its HTTP client: that
    /// client, or the failure to build it.
    pub fn from_http(
        root_dir: String,
        config_path: String,
        napcat: NapcatClient,
        http: Result<reqwest::Client, BotError>,
    ) -> (r: Result<ToolExecutor, BotError>)
        ensures
            http matches Ok(h) ==> r matches Ok(t) && t.http == h && t.root_dir == root_dir
                && t.config_path == config_path && t.napcat == napcat,
            http matches Err(e) ==> r matches Err(x) && x.message@ == e.message@,
    {
        match http {
            Ok(http) => Ok(ToolExecutor { root_dir, config_path, napcat, http }),
            Err(e) => Err(e),
        }
    }

    /// The path `target` stands for, relative paths being taken from the root.
    pub fn resolve_path(&self, target: &str) -> (r: String)
        ensures
            r@ == resolved_path(self.root_dir@, target@),
    {
        resolve_path(self.root_dir.as_str(), target)
    }
}

/// How a configured rule is brought into the form it is compared in.
#[derive(Clone, Copy, Debug, PartialEq, Eq, Structural)]
pub enum RuleForm {
    /// Trimmed and lowercased.
    Plain,
    /// Trimmed, backslashes turned into slashes, lowercased.
    PathKeyword,
    /// Trimmed, leading dots removed, lowercased.
    Extension,
}

/// The compared form of a configured rule.
pub open spec fn rule_form(form: RuleForm, item: Seq<char>) -> Seq<char> {
    match form {
        RuleForm::Plain => spec_lowercase(trim(item)),
        RuleForm::PathKeyword => spec_lowercase(replace_char(trim(item), '\\', '/')),
        RuleForm::Extension => spec_lowercase(trim_start_char(trim(item), '.')),
    }
}

/// A rule in compared form applies to `target`: it occurs in it, or equals it.
pub open spec fn rule_applies(by_contains: bool, target: Seq<char>, rule: Seq<char>) -> bool {
    if by_contains {
        contains(target, rule)
    } else {
        rule == target
    }
}

/// The first configured rule whose compared form is not empty and applies to
/// `target`, in compared form.
pub open spec fn first_rule_hit(
    items: Seq<Seq<char>>,
    form: RuleForm,
    by_contains: bool,
    target: Seq<char>,
) -> Option<Seq<char>>
    decreases items.len(),
{
    if items.len() == 0 {
        None
    } else {
        let k = rule_form(form, items[0]);
        if k.len() > 0 && rule_applies(by_contains, target, k) {
            Some(k)
        } else {
            first_rule_hit(items.drop_first(), form, by_contains, target)
        }
    }
}

fn rule_form_of(form: RuleForm, item: &str) -> (r: String)
    ensures
        r@ == rule_form(form, item@),
{
    let t = trim_str(item);
    match form {
        RuleForm::Plain => to_lowercase(t.as_str()),
        RuleForm::PathKeyword => {
            let u = replace_char_str(t.as_str(), '\\', '/');
            to_lowercase(u.as_str())
        },
        RuleForm::Extension => {
            let u = trim_start_char_str(t.as_str(), '.');
            to_lowercase(u.as_str())
        },
    }
}

/// The first configured rule that applies to `target`.
pub fn find_rule_hit(items: &Vec<String>, form: RuleForm, by_contains: bool, target: &str) -> (r:
    Option<String>)
    ensures
        r matches Some(k) ==> first_rule_hit(strings_view(items@), form, by_contains, target@)
            == Some(k@),
        r is None ==> first_rule_hit(strings_view(items@), form, by_contains, target@) is None,
{
    let ghost all = strings_view(items@);
    let tv = chars_of(target);
    let mut i: usize = 0;
    assert(all.skip(0) =~= all);
    while i < items.len()
        invariant
            all == strings_view(items@),
            tv@ == target@,
            i <= items@.len(),
            first_rule_hit(all, form, by_contains, target@) == first_rule_hit(
                all.skip(i as int),
                form,
                by_contains,
                target@,
            ),
        decreases items@.len() - i,
    {
        let ghost rest = all.skip(i as int);
        assert(rest[0] == items@[i as int]@);
        assert(rest.drop_first() =~= all.skip(i + 1));
        let k = rule_form_of(form, items[i].as_str());
        if !k.as_str().is_empty() {
            let kv = chars_of(k.as_str());
            let applies = if by_contains {
                contains_chars(&tv, &kv)
            } else {
                str_eq(k.as_str(), target)
            };
            if applies {
                return Some(k);
            }
        }
        i = i + 1;
    }
    None
}

/// The refusal for a file name rule or an extension rule, if one applies.
pub open spec fn file_rule_refusal(tools: ToolsConfig, normalized: Seq<char>) -> Option<Seq<char>> {
    let by_name = match spec_path_file_name(normalized) {
        Some(f) => first_rule_hit(
            strings_view(tools.protected_file_names@),
            RuleForm::Plain,
            false,
            spec_lowercase(f),
        ),
        None => None,
    };
    match by_name {
        Some(k) => Some("目标文件命中敏感文件规则："@ + k),
        None => match spec_path_extension(normalized) {
            Some(e) => match first_rule_hit(
                strings_view(tools.protected_extensions@),
                RuleForm::Extension,
                false,
                spec_lowercase(e),
            ) {
                Some(k) => Some("目标文件扩展名命中敏感规则：."@ + k),
                None => None,
            },
            None => None,
        },
    }
}

/// Why access to a path is refused, if it is: it is the main configuration
/// file; its text contains a protected path keyword; its file name or its
/// extension is protected. `path` is the path as given, `normalized` and
/// `normalized_config` the canonical forms of it and of the configuration file.
pub open spec fn path_refusal(
    tools: ToolsConfig,
    path: Seq<char>,
    normalized: Seq<char>,
    normalized_config: Seq<char>,
) -> Option<Seq<char>> {
    if spec_path_eq(normalized, normalized_config) {
        Some("禁止访问主配置文件："@ + path)
    } else {
        let rendered = spec_lowercase(replace_char(normalized, '\\', '/'));
        match first_rule_hit(
            strings_view(tools.protected_path_keywords@),
            RuleForm::PathKeyword,
            true,
            rendered,
        ) {
            Some(k) => Some("目标路径命中敏感路径规则："@ + k),
            None => file_rule_refusal(tools, normalized),
        }
    }
}

fn file_rule_check(tools: &ToolsConfig, normalized: &str) -> (r: Result<(), BotError>)
    ensures
        file_rule_refusal(*tools, normalized@) matches Some(m) ==> (r matches Err(e) && e.message@
            == m),
        file_rule_refusal(*tools, normalized@) is None ==> r is Ok,
{
    match path_file_name(normalized) {
        Some(f) => {
            let fl = to_lowercase(f.as_str());
            match find_rule_hit(&tools.protected_file_names, RuleForm::Plain, false, fl.as_str()) {
                Some(k) => {
                    return Err(BotError::with_detail("目标文件命中敏感文件规则：", k.as_str()));
                },
                None => {},
            }
        },
        None => {},
    }
    match path_extension(normalized) {
        Some(e) => {
            let el = to_lowercase(e.as_str());
            match find_rule_hit(&tools.protected_extensions, RuleForm::Extension, false, el.as_str()) {
                Some(k) => {
                    return Err(BotError::with_detail("目标文件扩展名命中敏感规则：.", k.as_str()));
                },
                None => {},
            }
        },
        None => {},
    }
    Ok(())
}

/// Refuses access to a protected path.
pub fn ensure_path_not_protected(
    tools: &ToolsConfig,
    path: &str,
    normalized: &str,
    normalized_config: &str,
) -> (r: Result<(), BotError>)
    ensures
        path_refusal(*tools, path@, normalized@, normalized_config@) matches Some(m) ==> (r matches Err(
            e,
        ) && e.message@ == m),
        path_refusal(*tools, path@, normalized@, normalized_config@) is None ==> r is Ok,
{
    if path_eq(normalized, normalized_config) {
        return Err(BotError::with_detail("禁止访问主配置文件：", path));
    }
    let slashed = replace_char_str(normalized, '\\', '/');
    let rendered = to_lowercase(slashed.as_str());
    match find_rule_hit(&tools.protected_path_keywords, RuleForm::PathKeyword, true, rendered.as_str()) {
        Some(k) => {
            return Err(BotError::with_detail("目标路径命中敏感路径规则：", k.as_str()));
        },
        None => {},
    }
    file_rule_check(tools, normalized)
}


/// The text looks like a path: it starts at the root, `./` or `../`, or
/// contains a separator.
pub open spec fn looks_like_path(c: Seq<char>) -> bool {
    ||| starts_with(c, "/"@)
    ||| starts_with(c, "./"@)
    ||| starts_with(c, "../"@)
    ||| contains(c, "/"@)
    ||| contains(c, "\\"@)
}

/// The path a shell argument names, if it names one: options and `key=value`
/// settings are skipped unless they start like a path; the value of a setting
/// is taken; relative paths are taken from `root`.
pub open spec fn arg_path(root: Seq<char>, arg: Seq<char>) -> Option<Seq<char>> {
    let t = trim(arg);
    if t.len() == 0 {
        None
    } else if starts_with(t, "-"@) {
        None
    } else if contains(t, "="@) && !starts_with(t, "/"@) && !starts_with(t, "./"@) && !starts_with(
        t,
        "../"@,
    ) {
        None
    } else {
        let candidate = match after_char(t, '=') {
            Some(v) => v,
            None => t,
        };
        if candidate.len() == 0 {
            None
        } else if !looks_like_path(candidate) {
            None
        } else {
            Some(
                if spec_path_is_absolute(candidate) {
                    candidate
                } else {
                    spec_path_join(root, candidate)
                },
            )
        }
    }
}

/// The path a shell argument names, if it names one.
pub fn maybe_resolve_arg_path(root_dir: &str, arg: &str) -> (r: Option<String>)
    ensures
        r matches Some(p) ==> arg_path(root_dir@, arg@) == Some(p@),
        r is None ==> arg_path(root_dir@, arg@) is None,
{
    let t = trim_str(arg);
    let ts = t.as_str();
    if ts.is_empty() {
        return None;
    }
    if str_starts_with(ts, "-") {
        return None;
    }
    if str_contains(ts, "=") && !str_starts_with(ts, "/") && !str_starts_with(ts, "./")
        && !str_starts_with(ts, "../") {
        return None;
    }
    let candidate = match after_char_str(ts, '=') {
        Some(v) => v,
        None => t.clone(),
    };
    let cs = candidate.as_str();
    if cs.is_empty() {
        return None;
    }
    let looks = str_starts_with(cs, "/") || str_starts_with(cs, "./") || str_starts_with(cs, "../")
        || str_contains(cs, "/") || str_contains(cs, "\\");
    if !looks {
        return None;
    }
    if path_is_absolute(cs) {
        Some(candidate)
    } else {
        Some(path_join(root_dir, cs))
    }
}

/// The refusal for the first argument that names a protected path; each
/// argument path is checked as if `root` were the configuration file.
pub open spec fn args_refusal(
    tools: ToolsConfig,
    root: Seq<char>,
    args: Seq<Seq<char>>,
    normalized: Seq<Seq<char>>,
    normalized_root: Seq<char>,
) -> Option<Seq<char>>
    decreases args.len(),
{
    if args.len() == 0 || normalized.len() == 0 {
        None
    } else {
        let here = match arg_path(root, args[0]) {
            Some(p) => path_refusal(tools, p, normalized[0], normalized_root),
            None => None,
        };
        match here {
            Some(m) => Some(m),
            None => args_refusal(
                tools,
                root,
                args.drop_first(),
                normalized.drop_first(),
                normalized_root,
            ),
        }
    }
}

/// The program name as compared: last path segment, trimmed, lowercased.
pub open spec fn program_key(program: Seq<char>) -> Seq<char> {
    spec_lowercase(trim(last_segment(program)))
}

/// The command line as compared: program key, a space, the lowercased arguments
/// joined by spaces.
pub open spec fn command_key(program: Seq<char>, args: Seq<Seq<char>>) -> Seq<char> {
    program_key(program) + " "@ + spec_lowercase(join(args, " "@))
}

/// Why a shell command is refused, if it is: a blocked program, a blocked
/// token in the command line, or an argument naming a protected path.
pub open spec fn shell_refusal(
    tools: ToolsConfig,
    root: Seq<char>,
    program: Seq<char>,
    args: Seq<Seq<char>>,
    normalized: Seq<Seq<char>>,
    normalized_root: Seq<char>,
) -> Option<Seq<char>> {
    match first_rule_hit(
        strings_view(tools.shell_blocked_programs@),
        RuleForm::Plain,
        false,
        program_key(program),
    ) {
        Some(h) => Some("命令程序命中禁用规则："@ + h),
        None => match first_rule_hit(
            strings_view(tools.shell_blocked_tokens@),
            RuleForm::Plain,
            true,
            command_key(program, args),
        ) {
            Some(h) => Some("命令命中禁用规则："@ + h),
            None => args_refusal(tools, root, args, normalized, normalized_root),
        },
    }
}

/// Refuses a dangerous shell command. `normalized_args[i]` is the canonical
/// form of the path `args[i]` names, where it names one, and
/// `normalized_root` that of `root_dir`.
pub fn ensure_shell_args_safe(
    program: &str,
    args: &Vec<String>,
    tools: &ToolsConfig,
    root_dir: &str,
    normalized_args: &Vec<String>,
    normalized_root: &str,
) -> (r: Result<(), BotError>)
    requires
        normalized_args@.len() == args@.len(),
    ensures
        shell_refusal(
            *tools,
            root_dir@,
            program@,
            strings_view(args@),
            strings_view(normalized_args@),
            normalized_root@,
        ) matches Some(m) ==> (r matches Err(e) && e.message@ == m),
        shell_refusal(
            *tools,
            root_dir@,
            program@,
            strings_view(args@),
            strings_view(normalized_args@),
            normalized_root@,
        ) is None ==> r is Ok,
{
    let segment = last_segment_str(program);
    let trimmed = trim_str(segment.as_str());
    let key = to_lowercase(trimmed.as_str());
    match find_rule_hit(&tools.shell_blocked_programs, RuleForm::Plain, false, key.as_str()) {
        Some(h) => {
            return Err(BotError::with_detail("命令程序命中禁用规则：", h.as_str()));
        },
        None => {},
    }
    let joined_args = join_strings(args, " ");
    let lowered_args = to_lowercase(joined_args.as_str());
    let mut joined = key;
    push_str(&mut joined, " ");
    push_str(&mut joined, lowered_args.as_str());
    match find_rule_hit(&tools.shell_blocked_tokens, RuleForm::Plain, true, joined.as_str()) {
        Some(h) => {
            return Err(BotError::with_detail("命令命中禁用规则：", h.as_str()));
        },
        None => {},
    }
    let ghost a = strings_view(args@);
    let ghost na = strings_view(normalized_args@);
    assert(key@ == program_key(program@));
    assert(joined@ == command_key(program@, a));
    let mut i: usize = 0;
    assert(a.skip(0) =~= a && na.skip(0) =~= na);
    while i < args.len()
        invariant
            first_rule_hit(
                strings_view(tools.shell_blocked_programs@),
                RuleForm::Plain,
                false,
                program_key(program@),
            ) is None,
            first_rule_hit(
                strings_view(tools.shell_blocked_tokens@),
                RuleForm::Plain,
                true,
                command_key(program@, strings_view(args@)),
            ) is None,
            a == strings_view(args@),
            na == strings_view(normalized_args@),
            normalized_args@.len() == args@.len(),
            i <= args@.len(),
            args_refusal(*tools, root_dir@, a, na, normalized_root@) == args_refusal(
                *tools,
                root_dir@,
                a.skip(i as int),
                na.skip(i as int),
                normalized_root@,
            ),
        decreases args@.len() - i,
    {
        assert(a.skip(i as int)[0] == args@[i as int]@);
        assert(na.skip(i as int)[0] == normalized_args@[i as int]@);
        assert(a.skip(i as int).drop_first() =~= a.skip(i + 1));
        assert(na.skip(i as int).drop_first() =~= na.skip(i + 1));
        match maybe_resolve_arg_path(root_dir, args[i].as_str()) {
            Some(path) => {
                match ensure_path_not_protected(
                    tools,
                    path.as_str(),
                    normalized_args[i].as_str(),
                    normalized_root,
                ) {
                    Err(e) => {
                        return Err(e);
                    },
                    Ok(()) => {},
                }
            },
            None => {},
        }
        i = i + 1;
    }
    Ok(())
}

/// The text patterns refused in Python code.
pub open spec fn banned_python_patterns() -> Seq<Seq<char>> {
    seq![
        "import os"@,
        "from os"@,
        "import subprocess"@,
        "from subprocess"@,
        "import socket"@,
        "from socket"@,
        "import shutil"@,
        "from shutil"@,
        "import pathlib"@,
        "from pathlib"@,
        "import ctypes"@,
        "from ctypes"@,
        "open("@,
        "__import__"@,
        "eval("@,
        "exec("@,
    ]
}

/// The first pattern that occurs in `hay`.
pub open spec fn first_contained(hay: Seq<char>, patterns: Seq<Seq<char>>) -> Option<Seq<char>>
    decreases patterns.len(),
{
    if patterns.len() == 0 {
        None
    } else if contains(hay, patterns[0]) {
        Some(patterns[0])
    } else {
        first_contained(hay, patterns.drop_first())
    }
}

/// Why Python code is refused, if it is: its lowercased text contains a
/// banned pattern.
pub open spec fn python_refusal(code: Seq<char>) -> Option<Seq<char>> {
    match first_contained(spec_lowercase(code), banned_python_patterns()) {
        Some(hit) => Some("python 代码命中禁用规则："@ + hit),
        None => None,
    }
}

/// Refuses Python code that imports system modules or opens files.
pub fn ensure_python_code_safe(code: &str) -> (r: Result<(), BotError>)
    ensures
        python_refusal(code@) matches Some(m) ==> (r matches Err(e) && e.message@ == m),
        python_refusal(code@) is None ==> r is Ok,
{
    let normalized = to_lowercase(code);
    let banned: Vec<&str> = vec![
        "import os",
        "from os",
        "import subprocess",
        "from subprocess",
        "import socket",
        "from socket",
        "import shutil",
        "from shutil",
        "import pathlib",
        "from pathlib",
        "import ctypes",
        "from ctypes",
        "open(",
        "__import__",
        "eval(",
        "exec(",
    ];
    let ghost pats = banned_python_patterns();
    assert(banned@.map_values(|p: &str| p@) =~= pats);
    let mut i: usize = 0;
    assert(pats.skip(0) =~= pats);
    while i < banned.len()
        invariant
            normalized@ == spec_lowercase(code@),
            pats == banned_python_patterns(),
            banned@.map_values(|p: &str| p@) == pats,
            i <= banned@.len(),
            first_contained(spec_lowercase(code@), pats) == first_contained(
                spec_lowercase(code@),
                pats.skip(i as int),
            ),
        decreases banned@.len() - i,
    {
        assert(pats.skip(i as int)[0] == banned@[i as int]@);
        assert(pats.skip(i as int).drop_first() =~= pats.skip(i + 1));
        if str_contains(normalized.as_str(), banned[i]) {
            return Err(BotError::with_detail("python 代码命中禁用规则：", banned[i]));
        }
        i = i + 1;
    }
    Ok(())
}

/// Why writing `content` to `path` is refused, if it is: the file is a
/// database (`.db`, any case) or the text looks like it holds a key.
pub open spec fn text_edit_refusal(path: Seq<char>, content: Seq<char>) -> Option<Seq<char>> {
    if spec_path_extension(path) matches Some(e) && eq_ignore_ascii_case(e, "db"@) {
        Some("禁止编辑数据库文件"@)
    } else if contains(spec_lowercase(content), "sk-"@) || contains(
        spec_lowercase(content),
        "bearer "@,
    ) {
        Some("禁止写入疑似密钥内容"@)
    } else {
        None
    }
}

/// Refuses writing to a database file or writing what looks like a key.
pub fn ensure_text_edit_safe(path: &str, content: &str) -> (r: Result<(), BotError>)
    ensures
        text_edit_refusal(path@, content@) matches Some(m) ==> (r matches Err(e) && e.message@ == m),
        text_edit_refusal(path@, content@) is None ==> r is Ok,
{
    match path_extension(path) {
        Some(e) => {
            if str_eq_ignore_ascii_case(e.as_str(), "db") {
                return Err(BotError::from_str("禁止编辑数据库文件"));
            }
        },
        None => {},
    }
    let normalized = to_lowercase(content);
    if str_contains(normalized.as_str(), "sk-") || str_contains(normalized.as_str(), "bearer ") {
        return Err(BotError::from_str("禁止写入疑似密钥内容"));
    }
    Ok(())
}


/// The tools the model can ask for.
#[derive(Clone, Copy, Debug, PartialEq, Eq, Structural)]
pub enum ToolKind {
    RunPython,
    EditTextFile,
    SendLocalFile,
    FetchWebPage,
    ReadImage,
    ShellCommand,
}

/// The tool a name stands for.
pub open spec fn tool_kind_of(name: Seq<char>) -> Option<ToolKind> {
    if name == "run_python"@ {
        Some(ToolKind::RunPython)
    } else if name == "edit_text_file"@ {
        Some(ToolKind::EditTextFile)
    } else if name == "send_local_file"@ {
        Some(ToolKind::SendLocalFile)
    } else if name == "fetch_web_page"@ {
        Some(ToolKind::FetchWebPage)
    } else if name == "read_image"@ {
        Some(ToolKind::ReadImage)
    } else if name == "shell_command"@ {
        Some(ToolKind::ShellCommand)
    } else {
        None
    }
}

/// Whether a request may go ahead, and to which tool: tools must be enabled,
/// the model must have judged the request safe, and the tool must exist.
pub open spec fn spec_plan_tool(tools: ToolsConfig, request: ToolRequest) -> Result<ToolKind, Seq<char>> {
    if !tools.enabled {
        Err("工具执行未启用"@)
    } else if !request.self_assessed_safe {
        Err("模型未确认该操作安全，拒绝执行"@)
    } else {
        match tool_kind_of(trim(request.tool@)) {
            Some(k) => Ok(k),
            None => Err("不支持的工具："@ + trim(request.tool@)),
        }
    }
}

/// Whether a request may go ahead, and to which tool.
pub fn plan_tool(tools: &ToolsConfig, request: &ToolRequest) -> (r: Result<ToolKind, BotError>)
    ensures
        spec_plan_tool(*tools, *request) matches Ok(k) ==> r == Ok::<ToolKind, BotError>(k),
        spec_plan_tool(*tools, *request) matches Err(m) ==> (r matches Err(e) && e.message@ == m),
{
    if !tools.enabled {
        return Err(BotError::from_str("工具执行未启用"));
    }
    if !request.self_assessed_safe {
        return Err(BotError::from_str("模型未确认该操作安全，拒绝执行"));
    }
    let name = trim_str(request.tool.as_str());
    let n = name.as_str();
    if str_eq(n, "run_python") {
        Ok(ToolKind::RunPython)
    } else if str_eq(n, "edit_text_file") {
        Ok(ToolKind::EditTextFile)
    } else if str_eq(n, "send_local_file") {
        Ok(ToolKind::SendLocalFile)
    } else if str_eq(n, "fetch_web_page") {
        Ok(ToolKind::FetchWebPage)
    } else if str_eq(n, "read_image") {
        Ok(ToolKind::ReadImage)
    } else if str_eq(n, "shell_command") {
        Ok(ToolKind::ShellCommand)
    } else {
        Err(BotError::with_detail("不支持的工具：", n))
    }
}

/// What the audit log records of a tool's result: whether it succeeded, and
/// its text (or its failure's) cut to 1200 characters.
pub fn audit_record(result: &Result<String, BotError>) -> (r: (bool, String))
    ensures
        result matches Ok(t) ==> r.0 && r.1@ == spec_trim_text(t@, 1200),
        result matches Err(e) ==> !r.0 && r.1@ == spec_trim_text(e.message@, 1200),
{
    match result {
        Ok(t) => (true, trim_text(t.as_str(), 1200)),
        Err(e) => (false, trim_text(e.message.as_str(), 1200)),
    }
}

/// The Python code to run: the request's code, trimmed, unless it is blank or
/// refused.
pub open spec fn spec_python_code(request: ToolRequest) -> Result<Seq<char>, Seq<char>> {
    let code = trim(request.code@);
    if code.len() == 0 {
        Err("run_python 缺少 code"@)
    } else {
        match python_refusal(code) {
            Some(m) => Err(m),
            None => Ok(code),
        }
    }
}

/// The Python code to run.
pub fn prepare_python_code(request: &ToolRequest) -> (r: Result<String, BotError>)
    ensures
        spec_python_code(*request) matches Ok(c) ==> (r matches Ok(s) && s@ == c),
        spec_python_code(*request) matches Err(m) ==> (r matches Err(e) && e.message@ == m),
{
    let code = trim_str(request.code.as_str());
    if code.as_str().is_empty() {
        return Err(BotError::from_str("run_python 缺少 code"));
    }
    match ensure_python_code_safe(code.as_str()) {
        Err(e) => Err(e),
        Ok(()) => Ok(code),
    }
}

/// The name of the temporary script file.
pub fn python_script_name(pid: u32, millis: u64) -> (r: String)
    ensures
        r@ == "tool-python-"@ + decimal(pid as nat) + "-"@ + decimal(millis as nat) + ".py"@,
{
    let mut r = String::from_str("tool-python-");
    push_decimal(&mut r, pid as u64);
    push_str(&mut r, "-");
    push_decimal(&mut r, millis);
    push_str(&mut r, ".py");
    r
}

/// The stderr part of a report: empty when stderr is blank.
pub open spec fn stderr_part(stderr: Seq<char>) -> Seq<char> {
    if trim(stderr).len() == 0 {
        seq![]
    } else {
        "\nstderr:\n"@ + spec_trim_text(stderr, 1200)
    }
}

fn push_stderr_part(out: &mut String, stderr: &str)
    ensures
        final(out)@ == old(out)@ + stderr_part(stderr@),
{
    let t = trim_str(stderr);
    if t.as_str().is_empty() {
        assert(old(out)@ + Seq::<char>::empty() =~= old(out)@);
    } else {
        push_str(out, "\nstderr:\n");
        let cut = trim_text(stderr, 1200);
        push_str(out, cut.as_str());
    }
}

/// The report of a Python run.
pub open spec fn spec_python_result(
    success: bool,
    stdout: Seq<char>,
    stderr: Seq<char>,
    max: nat,
) -> Result<Seq<char>, Seq<char>> {
    if !success {
        Err("python 执行失败："@ + spec_trim_text(stderr, 1200))
    } else {
        Ok(
            "python 执行完成。\nstdout:\n"@ + spec_trim_text(stdout, max) + "\n"@ + stderr_part(
                stderr,
            ),
        )
    }
}

/// The report of a Python run.
pub fn python_result(success: bool, stdout: &str, stderr: &str, fetch_max_chars: usize) -> (r: Result<
    String,
    BotError,
>)
    ensures
        spec_python_result(success, stdout@, stderr@, fetch_max_chars as nat) matches Ok(t) ==> (r matches Ok(
            s,
        ) && s@ == t),
        spec_python_result(success, stdout@, stderr@, fetch_max_chars as nat) matches Err(m) ==> (r matches Err(
            e,
        ) && e.message@ == m),
{
    if !success {
        let cut = trim_text(stderr, 1200);
        return Err(BotError::with_detail("python 执行失败：", cut.as_str()));
    }
    let mut out = String::from_str("python 执行完成。\nstdout:\n");
    let cut = trim_text(stdout, fetch_max_chars);
    push_str(&mut out, cut.as_str());
    push_str(&mut out, "\n");
    push_stderr_part(&mut out, stderr);
    Ok(out)
}

/// How long a Python script or shell command may run: the configured time,
/// but at least one second.
pub fn execution_timeout_ms(tools: &ToolsConfig) -> (r: u64)
    ensures
        r == if tools.execution_timeout_ms > 1000 {
            tools.execution_timeout_ms
        } else {
            1000
        },
{
    if tools.execution_timeout_ms > 1000 {
        tools.execution_timeout_ms
    } else {
        1000
    }
}

/// The program of a shell request: trimmed, not blank.
pub fn prepare_shell_program(request: &ToolRequest) -> (r: Result<String, BotError>)
    ensures
        trim(request.program@).len() == 0 ==> (r matches Err(e) && e.message@
            == "shell_command 缺少 program"@),
        trim(request.program@).len() > 0 ==> (r matches Ok(p) && p@ == trim(request.program@)),
{
    let p = trim_str(request.program.as_str());
    if p.as_str().is_empty() {
        return Err(BotError::from_str("shell_command 缺少 program"));
    }
    Ok(p)
}

/// The report of a shell command.
pub open spec fn spec_shell_result(
    success: bool,
    program: Seq<char>,
    args: Seq<Seq<char>>,
    stdout: Seq<char>,
    stderr: Seq<char>,
    max: nat,
) -> Result<Seq<char>, Seq<char>> {
    if !success {
        Err("shell_command 执行失败："@ + spec_trim_text(stderr, 1200))
    } else {
        Ok(
            "命令执行完成："@ + program + " "@ + join(args, " "@) + "\nstdout:\n"@ + spec_trim_text(
                stdout,
                max,
            ) + "\n"@ + stderr_part(stderr),
        )
    }
}

/// The report of a shell command.
pub fn shell_result(
    success: bool,
    program: &str,
    args: &Vec<String>,
    stdout: &str,
    stderr: &str,
    fetch_max_chars: usize,
) -> (r: Result<String, BotError>)
    ensures
        spec_shell_result(success, program@, strings_view(args@), stdout@, stderr@, fetch_max_chars as nat) matches Ok(t)
            ==> (r matches Ok(s) && s@ == t),
        spec_shell_result(success, program@, strings_view(args@), stdout@, stderr@, fetch_max_chars as nat) matches Err(m)
            ==> (r matches Err(e) && e.message@ == m),
{
    if !success {
        let cut = trim_text(stderr, 1200);
        return Err(BotError::with_detail("shell_command 执行失败：", cut.as_str()));
    }
    let mut out = String::from_str("命令执行完成：");
    push_str(&mut out, program);
    push_str(&mut out, " ");
    let joined = join_strings(args, " ");
    push_str(&mut out, joined.as_str());
    push_str(&mut out, "\nstdout:\n");
    let cut = trim_text(stdout, fetch_max_chars);
    push_str(&mut out, cut.as_str());
    push_str(&mut out, "\n");
    push_stderr_part(&mut out, stderr);
    Ok(out)
}

/// The edit mode of a request: trimmed, not blank.
pub fn prepare_edit_mode(request: &ToolRequest) -> (r: Result<String, BotError>)
    ensures
        trim(request.mode@).len() == 0 ==> (r matches Err(e) && e.message@
            == "edit_text_file 缺少 mode"@),
        trim(request.mode@).len() > 0 ==> (r matches Ok(m) && m@ == trim(request.mode@)),
{
    let m = trim_str(request.mode.as_str());
    if m.as_str().is_empty() {
        return Err(BotError::from_str("edit_text_file 缺少 mode"));
    }
    Ok(m)
}

/// The new file text of an edit: the request's content, the old text followed
/// by it, or the old text with `old_text` replaced by `new_text` (which must
/// be given and occur).
pub open spec fn spec_next_content(mode: Seq<char>, request: ToolRequest, existing: Seq<char>) -> Result<
    Seq<char>,
    Seq<char>,
> {
    if mode == "overwrite"@ {
        Ok(request.content@)
    } else if mode == "append"@ {
        Ok(existing + request.content@)
    } else if mode == "replace_all"@ {
        if request.old_text@.len() == 0 {
            Err("replace_all 需要 old_text"@)
        } else if !contains(existing, request.old_text@) {
            Err("目标文本不存在，拒绝 replace_all"@)
        } else {
            Ok(replace_all(existing, request.old_text@, request.new_text@))
        }
    } else {
        Err("不支持的编辑模式："@ + mode)
    }
}

/// The new file text of an edit.
pub fn next_file_content(mode: &str, request: &ToolRequest, existing: &str) -> (r: Result<
    String,
    BotError,
>)
    ensures
        spec_next_content(mode@, *request, existing@) matches Ok(t) ==> (r matches Ok(s) && s@ == t),
        spec_next_content(mode@, *request, existing@) matches Err(m) ==> (r matches Err(e)
            && e.message@ == m),
{
    if str_eq(mode, "overwrite") {
        Ok(request.content.clone())
    } else if str_eq(mode, "append") {
        let mut out = String::from_str(existing);
        push_str(&mut out, request.content.as_str());
        Ok(out)
    } else if str_eq(mode, "replace_all") {
        if request.old_text.as_str().is_empty() {
            return Err(BotError::from_str("replace_all 需要 old_text"));
        }
        if !str_contains(existing, request.old_text.as_str()) {
            return Err(BotError::from_str("目标文本不存在，拒绝 replace_all"));
        }
        Ok(replace_str(existing, request.old_text.as_str(), request.new_text.as_str()))
    } else {
        Err(BotError::with_detail("不支持的编辑模式：", mode))
    }
}

/// The report of an edit.
pub fn edit_result(target: &str) -> (r: String)
    ensures
        r@ == "文本文件已更新："@ + target@,
{
    let mut r = String::from_str("文本文件已更新：");
    push_str(&mut r, target);
    r
}

/// The name a file is sent under: the requested one, trimmed, or else the
/// file's own name, or `tool-output.bin`.
pub open spec fn spec_send_file_name(request: ToolRequest, own_name: Option<Seq<char>>) -> Seq<char> {
    if trim(request.file_name@).len() == 0 {
        match own_name {
            Some(n) => n,
            None => "tool-output.bin"@,
        }
    } else {
        trim(request.file_name@)
    }
}

/// The name a file is sent under.
pub fn send_file_name(request: &ToolRequest, own_name: Option<String>) -> (r: String)
    ensures
        r@ == spec_send_file_name(
            *request,
            match own_name {
                Some(n) => Some(n@),
                None => None,
            },
        ),
{
    let t = trim_str(request.file_name.as_str());
    if t.as_str().is_empty() {
        match own_name {
            Some(n) => n,
            None => String::from_str("tool-output.bin"),
        }
    } else {
        t
    }
}

/// A sent file is deleted when the request asks for it or it lies in the
/// temporary directory (both paths canonical).
pub fn should_delete_after_send(request: &ToolRequest, normalized_target: &str, normalized_temp: &str) -> (b:
    bool)
    ensures
        b == (request.delete_after_send || spec_path_starts_with(normalized_target@, normalized_temp@)),
{
    request.delete_after_send || path_starts_with(normalized_target, normalized_temp)
}

/// The failure for a file to send that does not exist.
pub fn missing_file_error(target: &str) -> (e: BotError)
    ensures
        e.message@ == "待发送文件不存在："@ + target@,
{
    BotError::with_detail("待发送文件不存在：", target)
}

/// The failure for a path to send that is not a regular file.
pub fn not_regular_file_error(target: &str) -> (e: BotError)
    ensures
        e.message@ == "只允许发送普通文件："@ + target@,
{
    BotError::with_detail("只允许发送普通文件：", target)
}

/// The report of a sent file.
pub fn send_result(group_id: &str, target: &str) -> (r: String)
    ensures
        r@ == "文件已发送到群 "@ + group_id@ + "："@ + target@,
{
    let mut r = String::from_str("文件已发送到群 ");
    push_str(&mut r, group_id);
    push_str(&mut r, "：");
    push_str(&mut r, target);
    r
}

/// The address is a web page: it starts with `http://` or `https://`.
pub open spec fn is_web_address(url: Seq<char>) -> bool {
    starts_with(url, "http://"@) || starts_with(url, "https://"@)
}

/// The page to fetch: the request's URL, trimmed, which must be a web address.
pub open spec fn spec_fetch_url(request: ToolRequest) -> Result<Seq<char>, Seq<char>> {
    let url = trim(request.url@);
    if url.len() == 0 {
        Err("fetch_web_page 缺少 url"@)
    } else if !is_web_address(url) {
        Err("只允许抓取 http/https 页面"@)
    } else {
        Ok(url)
    }
}

/// The page to fetch.
pub fn fetch_url(request: &ToolRequest) -> (r: Result<String, BotError>)
    ensures
        spec_fetch_url(*request) matches Ok(u) ==> (r matches Ok(s) && s@ == u),
        spec_fetch_url(*request) matches Err(m) ==> (r matches Err(e) && e.message@ == m),
{
    let url = trim_str(request.url.as_str());
    if url.as_str().is_empty() {
        return Err(BotError::from_str("fetch_web_page 缺少 url"));
    }
    if !str_starts_with(url.as_str(), "http://") && !str_starts_with(url.as_str(), "https://") {
        return Err(BotError::from_str("只允许抓取 http/https 页面"));
    }
    Ok(url)
}

/// The failure for a page that answered with a non-success status
/// (`status` as the status code displays itself).
pub fn fetch_status_error(status: &str) -> (e: BotError)
    ensures
        e.message@ == "抓取网页失败：HTTP "@ + status@,
{
    BotError::with_detail("抓取网页失败：HTTP ", status)
}

/// The report of a fetched page.
pub fn fetch_result(url: &str, text: &str, fetch_max_chars: usize) -> (r: String)
    ensures
        r@ == "网页抓取成功："@ + url@ + "\n"@ + spec_trim_text(text@, fetch_max_chars as nat),
{
    let mut r = String::from_str("网页抓取成功：");
    push_str(&mut r, url);
    push_str(&mut r, "\n");
    let cut = trim_text(text, fetch_max_chars);
    push_str(&mut r, cut.as_str());
    r
}

/// The image to read: the requested URL, trimmed, or else the only image of
/// the message; it must be a web address.
pub open spec fn spec_image_url(request: ToolRequest, runtime: ToolRuntimeContext) -> Result<
    Seq<char>,
    Seq<char>,
> {
    let chosen = if trim(request.image_url@).len() > 0 {
        Some(trim(request.image_url@))
    } else if runtime.current_image_urls@.len() == 1 {
        Some(runtime.current_image_urls@[0]@)
    } else {
        None
    };
    match chosen {
        None => Err("read_image 缺少 image_url，且当前消息没有唯一可用图片"@),
        Some(u) => if !is_web_address(u) {
            Err("read_image 只允许读取 http/https 图片"@)
        } else {
            Ok(u)
        },
    }
}

/// The image to read.
pub fn choose_image_url(request: &ToolRequest, runtime: &ToolRuntimeContext) -> (r: Result<
    String,
    BotError,
>)
    ensures
        spec_image_url(*request, *runtime) matches Ok(u) ==> (r matches Ok(s) && s@ == u),
        spec_image_url(*request, *runtime) matches Err(m) ==> (r matches Err(e) && e.message@ == m),
{
    let requested = trim_str(request.image_url.as_str());
    let url = if !requested.as_str().is_empty() {
        requested
    } else if runtime.current_image_urls.len() == 1 {
        runtime.current_image_urls[0].clone()
    } else {
        return Err(BotError::from_str("read_image 缺少 image_url，且当前消息没有唯一可用图片"));
    };
    if !str_starts_with(url.as_str(), "http://") && !str_starts_with(url.as_str(), "https://") {
        return Err(BotError::from_str("read_image 只允许读取 http/https 图片"));
    }
    Ok(url)
}

/// The question asked about an image when the request gives none.
pub open spec fn default_image_question() -> Seq<char> {
    "请描述这张图片里最重要的信息，优先识别文字、界面、截图中的报错、人物动作和上下文。回答简洁自然。"@
}

/// The question asked about an image: the request's, trimmed, or the default.
pub fn image_question(request: &ToolRequest) -> (r: String)
    ensures
        trim(request.question@).len() == 0 ==> r@ == default_image_question(),
        trim(request.question@).len() > 0 ==> r@ == trim(request.question@),
{
    let q = trim_str(request.question.as_str());
    if q.as_str().is_empty() {
        String::from_str(
            "请描述这张图片里最重要的信息，优先识别文字、界面、截图中的报错、人物动作和上下文。回答简洁自然。",
        )
    } else {
        q
    }
}

/// The model images are read with: the vision model, trimmed, unless blank
/// (then the client's default applies).
pub fn vision_model(config: &AiConfig) -> (r: Option<String>)
    ensures
        trim(config.vision_model@).len() == 0 ==> r is None,
        trim(config.vision_model@).len() > 0 ==> (r matches Some(m) && m@ == trim(config.vision_model@)),
{
    let m = trim_str(config.vision_model.as_str());
    if m.as_str().is_empty() {
        None
    } else {
        Some(m)
    }
}

/// The report of a read image.
pub fn read_image_result(url: &str, text: &str, fetch_max_chars: usize) -> (r: String)
    ensures
        r@ == "读图完成："@ + url@ + "\n"@ + spec_trim_text(text@, fetch_max_chars as nat),
{
    let mut r = String::from_str("读图完成：");
    push_str(&mut r, url);
    push_str(&mut r, "\n");
    let cut = trim_text(text, fetch_max_chars);
    push_str(&mut r, cut.as_str());
    r
}


/// The marker that opens a tool request.
pub open spec fn request_start() -> Seq<char> {
    "【TOOL_REQUEST】"@
}

/// The marker that closes a tool request.
pub open spec fn request_end() -> Seq<char> {
    "【END_TOOL_REQUEST】"@
}

/// The JSON text of the tool request in a reply, if there is one: what stands
/// between the first opening marker and the first closing marker after it,
/// trimmed.
pub open spec fn spec_tool_request_payload(text: Seq<char>) -> Option<Seq<char>> {
    let s = trim(text);
    match first_index_from(s, request_start(), 0) {
        None => None,
        Some(a) => match first_index_from(s, request_end(), 0) {
            None => None,
            Some(b) => if b <= a {
                None
            } else {
                Some(trim(s.subrange(a + request_start().len(), b)))
            },
        },
    }
}

proof fn lemma_marker_chars()
    ensures
        request_start().len() == 14,
        request_end().len() == 18,
        request_start()[0] == '【',
        request_end()[0] == '【',
        request_start()[13] == '】',
        request_end()[17] == '】',
        request_start()[1] != request_end()[1],
        forall|j: int| 0 < j < 14 ==> request_start()[j] != '【',
        forall|j: int| 0 < j < 18 ==> request_end()[j] != '【',
{
    reveal_strlit("【TOOL_REQUEST】");
    reveal_strlit("【END_TOOL_REQUEST】");
    assert forall|j: int| 0 < j < 14 implies request_start()[j] != '【' by {
        assert(j == 1 || j == 2 || j == 3 || j == 4 || j == 5 || j == 6 || j == 7 || j == 8 || j == 9
            || j == 10 || j == 11 || j == 12 || j == 13);
    }
    assert forall|j: int| 0 < j < 18 implies request_end()[j] != '【' by {
        assert(j == 1 || j == 2 || j == 3 || j == 4 || j == 5 || j == 6 || j == 7 || j == 8 || j == 9
            || j == 10 || j == 11 || j == 12 || j == 13 || j == 14 || j == 15 || j == 16 || j == 17);
    }
}

proof fn lemma_no_early_end(payload: Seq<char>, k: int)
    requires
        !contains(payload, request_end()),
        0 <= k < 14 + payload.len(),
    ensures
        !occurs_at(request_start() + payload + request_end(), request_end(), k),
{
    let st = request_start();
    let en = request_end();
    let text = st + payload + en;
    lemma_marker_chars();
    let p: int = 14 + payload.len() as int;
    if occurs_at(text, en, k) {
        let w = text.subrange(k, k + 18);
        assert(w[0] == text[k]);
        if k < 14 {
            if k == 0 {
                assert(w[1] == text[1]);
                assert(text[1] == st[1]);
            } else {
                assert(text[k] == st[k]);
            }
        } else if k + 18 <= p {
            let q = k - 14;
            assert forall|j: int| 0 <= j < 18 implies payload.subrange(q, q + 18)[j] == en[j] by {
                assert(payload.subrange(q, q + 18)[j] == text[k + j]);
                assert(w[j] == text[k + j]);
            }
            assert(payload.subrange(q, q + 18) =~= en);
            assert(occurs_at(payload, en, q));
        } else {
            let j = p - k;
            assert(text[p] == en[0]);
            assert(w[j] == text[p]);
        }
    }
}

proof fn lemma_first_rule_hit(items: Seq<Seq<char>>, form: RuleForm, by_contains: bool, target: Seq<char>)
    ensures
        first_rule_hit(items, form, by_contains, target) is None <==> forall|i: int|
            0 <= i < items.len() ==> !(rule_form(form, #[trigger] items[i]).len() > 0 && rule_applies(
                by_contains,
                target,
                rule_form(form, items[i]),
            )),
        first_rule_hit(items, form, by_contains, target) matches Some(k) ==> exists|i: int|
            0 <= i < items.len() && k == rule_form(form, #[trigger] items[i]) && k.len() > 0
                && rule_applies(by_contains, target, k),
    decreases items.len(),
{
    if items.len() > 0 {
        let rest = items.drop_first();
        lemma_first_rule_hit(rest, form, by_contains, target);
        assert forall|i: int| 0 <= i < rest.len() implies rest[i] == items[i + 1] by {}
        if first_rule_hit(items, form, by_contains, target) is None {
            assert forall|i: int| 0 <= i < items.len() implies !(rule_form(form, #[trigger] items[i]).len()
                > 0 && rule_applies(by_contains, target, rule_form(form, items[i]))) by {
                if i > 0 {
                    assert(rest[i - 1] == items[i]);
                }
            }
        }
        match first_rule_hit(items, form, by_contains, target) {
            Some(k) => {
                if !(rule_form(form, items[0]).len() > 0 && rule_applies(by_contains, target, rule_form(form, items[0]))) {
                    let j = choose|j: int| 0 <= j < rest.len() && k == rule_form(form, #[trigger] rest[j])
                        && k.len() > 0 && rule_applies(by_contains, target, k);
                    assert(rest[j] == items[j + 1]);
                }
            },
            None => {},
        }
    }
}

proof fn lemma_first_contained(hay: Seq<char>, patterns: Seq<Seq<char>>)
    ensures
        first_contained(hay, patterns) is None <==> forall|i: int| 0 <= i < patterns.len() ==> !contains(
            hay,
            #[trigger] patterns[i],
        ),
    decreases patterns.len(),
{
    if patterns.len() > 0 {
        let rest = patterns.drop_first();
        lemma_first_contained(hay, rest);
        if first_contained(hay, patterns) is None {
            assert forall|i: int| 0 <= i < patterns.len() implies !contains(hay, #[trigger] patterns[i]) by {
                if i > 0 {
                    assert(rest[i - 1] == patterns[i]);
                }
            }
        } else if !contains(hay, patterns[0]) {
            assert(!(forall|i: int| 0 <= i < rest.len() ==> !contains(hay, #[trigger] rest[i])));
            let j = choose|j: int| 0 <= j < rest.len() && contains(hay, #[trigger] rest[j]);
            assert(rest[j] == patterns[j + 1]);
        }
    }
}

/// Python code runs only when its lowercased text holds none of the banned
/// patterns; a refusal names a pattern the text holds.
pub proof fn python_guard_law(code: Seq<char>)
    ensures
        python_refusal(code) is None <==> forall|i: int| 0 <= i < banned_python_patterns().len() ==> !contains(
            spec_lowercase(code),
            #[trigger] banned_python_patterns()[i],
        ),
{
    lemma_first_contained(spec_lowercase(code), banned_python_patterns());
}

/// A path that is let through is not the configuration file, contains no
/// protected keyword, and has no protected file name; a refusal names a
/// configured rule that applies.
pub proof fn path_guard_law(
    tools: ToolsConfig,
    path: Seq<char>,
    normalized: Seq<char>,
    normalized_config: Seq<char>,
)
    requires
        path_refusal(tools, path, normalized, normalized_config) is None,
    ensures
        !spec_path_eq(normalized, normalized_config),
        forall|i: int| 0 <= i < tools.protected_path_keywords@.len() ==> {
            let k = rule_form(RuleForm::PathKeyword, #[trigger] tools.protected_path_keywords@[i]@);
            k.len() > 0 ==> !contains(spec_lowercase(replace_char(normalized, '\\', '/')), k)
        },
        forall|i: int| 0 <= i < tools.protected_file_names@.len() ==> {
            let k = rule_form(RuleForm::Plain, #[trigger] tools.protected_file_names@[i]@);
            spec_path_file_name(normalized) matches Some(f) ==> (k.len() > 0 ==> k != spec_lowercase(f))
        },
        forall|i: int| 0 <= i < tools.protected_extensions@.len() ==> {
            let k = rule_form(RuleForm::Extension, #[trigger] tools.protected_extensions@[i]@);
            spec_path_extension(normalized) matches Some(e) ==> (k.len() > 0 ==> k != spec_lowercase(e))
        },
{
    let rendered = spec_lowercase(replace_char(normalized, '\\', '/'));
    let kw = strings_view(tools.protected_path_keywords@);
    lemma_first_rule_hit(kw, RuleForm::PathKeyword, true, rendered);
    assert forall|i: int| 0 <= i < tools.protected_path_keywords@.len() implies {
        let k = rule_form(RuleForm::PathKeyword, #[trigger] tools.protected_path_keywords@[i]@);
        k.len() > 0 ==> !contains(rendered, k)
    } by {
        assert(kw[i] == tools.protected_path_keywords@[i]@);
    }
    let names = strings_view(tools.protected_file_names@);
    match spec_path_file_name(normalized) {
        Some(f) => {
            lemma_first_rule_hit(names, RuleForm::Plain, false, spec_lowercase(f));
            assert forall|i: int| 0 <= i < tools.protected_file_names@.len() implies {
                let k = rule_form(RuleForm::Plain, #[trigger] tools.protected_file_names@[i]@);
                k.len() > 0 ==> k != spec_lowercase(f)
            } by {
                assert(names[i] == tools.protected_file_names@[i]@);
            }
        },
        None => {},
    }
    let exts = strings_view(tools.protected_extensions@);
    match spec_path_extension(normalized) {
        Some(e) => {
            lemma_first_rule_hit(exts, RuleForm::Extension, false, spec_lowercase(e));
            assert forall|i: int| 0 <= i < tools.protected_extensions@.len() implies {
                let k = rule_form(RuleForm::Extension, #[trigger] tools.protected_extensions@[i]@);
                k.len() > 0 ==> k != spec_lowercase(e)
            } by {
                assert(exts[i] == tools.protected_extensions@[i]@);
            }
        },
        None => {},
    }
}

proof fn lemma_args_refusal_none(
    tools: ToolsConfig,
    root: Seq<char>,
    args: Seq<Seq<char>>,
    normalized: Seq<Seq<char>>,
    normalized_root: Seq<char>,
)
    requires
        args_refusal(tools, root, args, normalized, normalized_root) is None,
    ensures
        forall|i: int| 0 <= i < args.len() && i < normalized.len() ==> (#[trigger] arg_path(root, args[i]) matches Some(p)
            ==> path_refusal(tools, p, normalized[i], normalized_root) is None),
    decreases args.len(),
{
    if args.len() > 0 && normalized.len() > 0 {
        let ra = args.drop_first();
        let rn = normalized.drop_first();
        lemma_args_refusal_none(tools, root, ra, rn, normalized_root);
        assert forall|i: int| 0 <= i < args.len() && i < normalized.len() implies (#[trigger] arg_path(root, args[i]) matches Some(p)
            ==> path_refusal(tools, p, normalized[i], normalized_root) is None) by {
            if i > 0 {
                assert(ra[i - 1] == args[i]);
                assert(rn[i - 1] == normalized[i]);
            }
        }
    }
}

/// A shell command that is let through runs no blocked program, holds no
/// blocked token in its command line, and names no protected path in its
/// arguments.
pub proof fn shell_guard_law(
    tools: ToolsConfig,
    root: Seq<char>,
    program: Seq<char>,
    args: Seq<Seq<char>>,
    normalized: Seq<Seq<char>>,
    normalized_root: Seq<char>,
)
    requires
        shell_refusal(tools, root, program, args, normalized, normalized_root) is None,
    ensures
        forall|i: int| 0 <= i < tools.shell_blocked_programs@.len() ==> {
            let k = rule_form(RuleForm::Plain, #[trigger] tools.shell_blocked_programs@[i]@);
            k.len() > 0 ==> k != program_key(program)
        },
        forall|i: int| 0 <= i < tools.shell_blocked_tokens@.len() ==> {
            let k = rule_form(RuleForm::Plain, #[trigger] tools.shell_blocked_tokens@[i]@);
            k.len() > 0 ==> !contains(command_key(program, args), k)
        },
        forall|i: int| 0 <= i < args.len() && i < normalized.len() ==> (#[trigger] arg_path(root, args[i]) matches Some(p)
            ==> path_refusal(tools, p, normalized[i], normalized_root) is None),
{
    lemma_args_refusal_none(tools, root, args, normalized, normalized_root);
    let progs = strings_view(tools.shell_blocked_programs@);
    let toks = strings_view(tools.shell_blocked_tokens@);
    lemma_first_rule_hit(progs, RuleForm::Plain, false, program_key(program));
    lemma_first_rule_hit(toks, RuleForm::Plain, true, command_key(program, args));
    assert forall|i: int| 0 <= i < tools.shell_blocked_programs@.len() implies {
        let k = rule_form(RuleForm::Plain, #[trigger] tools.shell_blocked_programs@[i]@);
        k.len() > 0 ==> k != program_key(program)
    } by {
        assert(progs[i] == tools.shell_blocked_programs@[i]@);
    }
    assert forall|i: int| 0 <= i < tools.shell_blocked_tokens@.len() implies {
        let k = rule_form(RuleForm::Plain, #[trigger] tools.shell_blocked_tokens@[i]@);
        k.len() > 0 ==> !contains(command_key(program, args), k)
    } by {
        assert(toks[i] == tools.shell_blocked_tokens@[i]@);
    }
}

/// No configured rule, in compared form, is non-empty and applies to `target`.
pub open spec fn no_rule_applies(items: Seq<Seq<char>>, form: RuleForm, by_contains: bool, target: Seq<char>) -> bool {
    forall|i: int|
        0 <= i < items.len() ==> !(rule_form(form, #[trigger] items[i]).len() > 0 && rule_applies(
            by_contains,
            target,
            rule_form(form, items[i]),
        ))
}

/// A path is refused exactly when it is the configuration file, or a
/// protected keyword occurs in it, or its file name or extension is protected.
pub proof fn path_refused_iff_law(
    tools: ToolsConfig,
    path: Seq<char>,
    normalized: Seq<char>,
    normalized_config: Seq<char>,
)
    ensures
        path_refusal(tools, path, normalized, normalized_config) is None <==> {
            &&& !spec_path_eq(normalized, normalized_config)
            &&& no_rule_applies(
                strings_view(tools.protected_path_keywords@),
                RuleForm::PathKeyword,
                true,
                spec_lowercase(replace_char(normalized, '\\', '/')),
            )
            &&& spec_path_file_name(normalized) matches Some(f) ==> no_rule_applies(
                strings_view(tools.protected_file_names@),
                RuleForm::Plain,
                false,
                spec_lowercase(f),
            )
            &&& spec_path_extension(normalized) matches Some(e) ==> no_rule_applies(
                strings_view(tools.protected_extensions@),
                RuleForm::Extension,
                false,
                spec_lowercase(e),
            )
        },
{
    lemma_first_rule_hit(
        strings_view(tools.protected_path_keywords@),
        RuleForm::PathKeyword,
        true,
        spec_lowercase(replace_char(normalized, '\\', '/')),
    );
    match spec_path_file_name(normalized) {
        Some(f) => lemma_first_rule_hit(
            strings_view(tools.protected_file_names@),
            RuleForm::Plain,
            false,
            spec_lowercase(f),
        ),
        None => {},
    }
    match spec_path_extension(normalized) {
        Some(e) => lemma_first_rule_hit(
            strings_view(tools.protected_extensions@),
            RuleForm::Extension,
            false,
            spec_lowercase(e),
        ),
        None => {},
    }
}

proof fn lemma_args_refusal_iff(
    tools: ToolsConfig,
    root: Seq<char>,
    args: Seq<Seq<char>>,
    normalized: Seq<Seq<char>>,
    normalized_root: Seq<char>,
)
    ensures
        args_refusal(tools, root, args, normalized, normalized_root) is None <==> forall|i: int|
            0 <= i < args.len() && i < normalized.len() ==> (#[trigger] arg_path(root, args[i]) matches Some(p)
                ==> path_refusal(tools, p, normalized[i], normalized_root) is None),
    decreases args.len(),
{
    if args.len() > 0 && normalized.len() > 0 {
        let ra = args.drop_first();
        let rn = normalized.drop_first();
        lemma_args_refusal_iff(tools, root, ra, rn, normalized_root);
        let all_ok = forall|i: int|
            0 <= i < args.len() && i < normalized.len() ==> (#[trigger] arg_path(root, args[i]) matches Some(p)
                ==> path_refusal(tools, p, normalized[i], normalized_root) is None);
        if all_ok {
            assert(arg_path(root, args[0]) matches Some(p) ==> path_refusal(tools, p, normalized[0], normalized_root) is None);
            assert forall|i: int| 0 <= i < ra.len() && i < rn.len() implies (#[trigger] arg_path(root, ra[i]) matches Some(p)
                ==> path_refusal(tools, p, rn[i], normalized_root) is None) by {
                assert(ra[i] == args[i + 1]);
                assert(rn[i] == normalized[i + 1]);
                assert(arg_path(root, args[i + 1]) matches Some(p) ==> path_refusal(tools, p, normalized[i + 1], normalized_root) is None);
            }
        } else {
            let j = choose|j: int| 0 <= j < args.len() && j < normalized.len() && !(#[trigger] arg_path(root, args[j]) matches Some(p)
                ==> path_refusal(tools, p, normalized[j], normalized_root) is None);
            if j > 0 {
                assert(ra[j - 1] == args[j]);
                assert(rn[j - 1] == normalized[j]);
            }
        }
    }
}

/// A shell command is refused exactly when a blocked program is run, a
/// blocked token occurs in its command line, or an argument names a
/// protected path.
pub proof fn shell_refused_iff_law(
    tools: ToolsConfig,
    root: Seq<char>,
    program: Seq<char>,
    args: Seq<Seq<char>>,
    normalized: Seq<Seq<char>>,
    normalized_root: Seq<char>,
)
    ensures
        shell_refusal(tools, root, program, args, normalized, normalized_root) is None <==> {
            &&& no_rule_applies(strings_view(tools.shell_blocked_programs@), RuleForm::Plain, false, program_key(program))
            &&& no_rule_applies(strings_view(tools.shell_blocked_tokens@), RuleForm::Plain, true, command_key(program, args))
            &&& forall|i: int| 0 <= i < args.len() && i < normalized.len() ==> (#[trigger] arg_path(root, args[i]) matches Some(p)
                ==> path_refusal(tools, p, normalized[i], normalized_root) is None)
        },
{
    lemma_args_refusal_iff(tools, root, args, normalized, normalized_root);
    lemma_first_rule_hit(strings_view(tools.shell_blocked_programs@), RuleForm::Plain, false, program_key(program));
    lemma_first_rule_hit(strings_view(tools.shell_blocked_tokens@), RuleForm::Plain, true, command_key(program, args));
}

/// `u` begins with `http://` or with `https://`.
proof fn lemma_web_prefix(u: Seq<char>)
    ensures
        is_web_address(u) <==> (u.len() >= 7 && u.subrange(0, 7) == "http://"@) || (u.len() >= 8
            && u.subrange(0, 8) == "https://"@),
{
    reveal_strlit("http://");
    reveal_strlit("https://");
}

/// A page is fetched exactly when its address, trimmed, begins with
/// `http://` or `https://`: then that address is fetched; a blank address and
/// any other address are refused, each with its own message.
pub proof fn fetch_address_law(request: ToolRequest)
    ensures
        ({
            let u = trim(request.url@);
            &&& (u.len() >= 7 && u.subrange(0, 7) == "http://"@) ==> spec_fetch_url(request) == Ok::<
                Seq<char>,
                Seq<char>,
            >(u)
            &&& (u.len() >= 8 && u.subrange(0, 8) == "https://"@) ==> spec_fetch_url(request) == Ok::<
                Seq<char>,
                Seq<char>,
            >(u)
            &&& u.len() == 0 ==> spec_fetch_url(request) == Err::<Seq<char>, Seq<char>>(
                "fetch_web_page 缺少 url"@,
            )
            &&& u.len() > 0 && !(u.len() >= 7 && u.subrange(0, 7) == "http://"@) && !(u.len() >= 8
                && u.subrange(0, 8) == "https://"@) ==> spec_fetch_url(request) == Err::<
                Seq<char>,
                Seq<char>,
            >("只允许抓取 http/https 页面"@)
        }),
{
    lemma_web_prefix(trim(request.url@));
}

/// An image named by the request (trimmed, not blank) is read exactly when its
/// address begins with `http://` or `https://`; otherwise it is refused.
pub proof fn image_address_law(request: ToolRequest, runtime: ToolRuntimeContext)
    requires
        trim(request.image_url@).len() > 0,
    ensures
        ({
            let u = trim(request.image_url@);
            &&& ((u.len() >= 7 && u.subrange(0, 7) == "http://"@) || (u.len() >= 8 && u.subrange(0, 8)
                == "https://"@)) ==> spec_image_url(request, runtime) == Ok::<Seq<char>, Seq<char>>(u)
            &&& !((u.len() >= 7 && u.subrange(0, 7) == "http://"@) || (u.len() >= 8 && u.subrange(0, 8)
                == "https://"@)) ==> spec_image_url(request, runtime) == Err::<Seq<char>, Seq<char>>(
                "read_image 只允许读取 http/https 图片"@,
            )
        }),
{
    lemma_web_prefix(trim(request.image_url@));
}

/// A tool runs only when tools are enabled and the model judged the request
/// safe.
pub proof fn tool_runs_only_when_allowed_law(tools: ToolsConfig, request: ToolRequest)
    ensures
        spec_plan_tool(tools, request) is Ok ==> tools.enabled && request.self_assessed_safe,
{
}

/// A reply made of a tool request in the form the instructions give, with a
/// payload that does not itself hold the closing marker, gives back that
/// payload, trimmed.
pub proof fn tool_request_round_trip_law(payload: Seq<char>)
    requires
        !contains(payload, request_end()),
    ensures
        spec_tool_request_payload(request_start() + payload + request_end()) == Some(trim(payload)),
{
    let st = request_start();
    let en = request_end();
    let text = st + payload + en;
    lemma_marker_chars();
    let p: int = 14 + payload.len() as int;
    assert(text[0] == '【');
    assert(text.last() == en[17]);
    assert(trim(text) == text);
    assert(text.subrange(0, 14) =~= st);
    crate::text::lemma_first_index_at(text, st, 0, 0);
    assert(text.subrange(p, p + 18) =~= en);
    assert forall|k: int| 0 <= k < p implies !occurs_at(text, en, k) by {
        lemma_no_early_end(payload, k);
    }
    crate::text::lemma_first_index_at(text, en, 0, p);
    assert(text.subrange(14, p) =~= payload);
}

proof fn lemma_trim_start_concat(pre: Seq<char>, x: Seq<char>)
    requires
        x.len() > 0,
        !crate::text::is_ws(x[0]),
    ensures
        trim_start(pre + x) == trim_start(pre) + x,
    decreases pre.len(),
{
    if pre.len() == 0 {
        assert(pre + x =~= x);
        assert(Seq::<char>::empty() + x =~= x);
    } else {
        assert((pre + x)[0] == pre[0]);
        if crate::text::is_ws(pre[0]) {
            assert((pre + x).drop_first() =~= pre.drop_first() + x);
            lemma_trim_start_concat(pre.drop_first(), x);
        }
    }
}

proof fn lemma_trim_end_concat(y: Seq<char>, post: Seq<char>)
    requires
        y.len() > 0,
        !crate::text::is_ws(y.last()),
    ensures
        trim_end(y + post) == y + trim_end(post),
    decreases post.len(),
{
    if post.len() == 0 {
        assert(y + post =~= y);
        assert(y + Seq::<char>::empty() =~= y);
    } else {
        assert((y + post).last() == post.last());
        if crate::text::is_ws(post.last()) {
            assert((y + post).drop_last() =~= y + post.drop_last());
            lemma_trim_end_concat(y, post.drop_last());
        }
    }
}

proof fn lemma_trim_start_is_suffix(s: Seq<char>) -> (j: int)
    ensures
        0 <= j <= s.len(),
        trim_start(s) == s.skip(j),
    decreases s.len(),
{
    if s.len() > 0 && crate::text::is_ws(s[0]) {
        let k = lemma_trim_start_is_suffix(s.drop_first());
        assert(s.drop_first().skip(k) =~= s.skip(k + 1));
        k + 1
    } else {
        assert(s.skip(0) =~= s);
        0
    }
}

proof fn lemma_marker_not_before(q: Seq<char>, rest: Seq<char>, m: Seq<char>, k: int)
    requires
        !contains(q, m),
        m.len() > 0,
        rest.len() > 0,
        rest[0] == '【',
        forall|j: int| 0 < j < m.len() ==> m[j] != '【',
        0 <= k < q.len(),
    ensures
        !occurs_at(q + rest, m, k),
{
    let s = q + rest;
    if occurs_at(s, m, k) {
        let w = s.subrange(k, k + m.len());
        if k + m.len() <= q.len() {
            assert(w =~= q.subrange(k, k + m.len()));
            assert(occurs_at(q, m, k));
        } else {
            let j = q.len() - k;
            assert(w[j] == s[q.len() as int]);
            assert(s[q.len() as int] == rest[0]);
        }
    }
}

/// Text before the opening marker (holding neither marker) and any text after
/// the closing marker do not change the request read from a reply: the payload
/// between the markers, trimmed, is what comes back, provided it holds no
/// closing marker itself.
pub proof fn tool_request_surroundings_law(pre: Seq<char>, payload: Seq<char>, post: Seq<char>)
    requires
        !contains(pre, request_start()),
        !contains(pre, request_end()),
        !contains(payload, request_end()),
    ensures
        spec_tool_request_payload(pre + request_start() + payload + request_end() + post) == Some(
            trim(payload),
        ),
{
    let st = request_start();
    let en = request_end();
    lemma_marker_chars();
    let mid = st + payload + en;
    assert(mid[0] == '【');
    assert(mid.last() == en[17]);
    let text = pre + mid + post;
    assert(text =~= pre + request_start() + payload + request_end() + post);
    lemma_trim_start_concat(pre, mid + post);
    assert(pre + (mid + post) =~= pre + mid + post);
    let q = trim_start(pre);
    lemma_trim_end_concat(q + mid, post);
    assert((q + mid).last() == mid.last());
    let u = trim_end(post);
    assert(text =~= pre + (mid + post));
    assert(trim_start(text) == q + (mid + post));
    assert(q + (mid + post) =~= (q + mid) + post);
    assert(trim(text) == trim_end((q + mid) + post));
    assert(trim(text) == q + mid + u);
    let j = lemma_trim_start_is_suffix(pre);
    crate::text::lemma_no_occurrence_in_suffix(pre, st, j);
    crate::text::lemma_no_occurrence_in_suffix(pre, en, j);
    let s = q + mid + u;
    let ql = q.len() as int;
    let p: int = ql + 14 + payload.len() as int;
    assert(s =~= q + (mid + u));
    assert((mid + u)[0] == '【');
    assert(s.subrange(ql, ql + 14) =~= st);
    assert forall|k: int| 0 <= k < ql implies !occurs_at(s, st, k) by {
        lemma_marker_not_before(q, mid + u, st, k);
    }
    crate::text::lemma_first_index_at(s, st, 0, ql);
    assert(s.subrange(p, p + 18) =~= en);
    assert forall|k: int| 0 <= k < p implies !occurs_at(s, en, k) by {
        if k < ql {
            lemma_marker_not_before(q, mid + u, en, k);
        } else {
            let k2 = k - ql;
            lemma_no_early_end(payload, k2);
            if occurs_at(s, en, k) {
                assert(s.subrange(k, k + 18) =~= mid.subrange(k2, k2 + 18));
                assert(occurs_at(mid, en, k2));
            }
        }
    }
    crate::text::lemma_first_index_at(s, en, 0, p);
    assert(s.subrange(ql + 14, p) =~= payload);
}

/// The instructions for the model name both markers of a tool request.
pub proof fn tool_prompt_markers_law(max_rounds: nat)
    ensures
        contains(tool_prompt(max_rounds), request_start()),
        contains(tool_prompt(max_rounds), request_end()),
{
    let head = "你拥有一组受限工具，但必须同时满足两个条件才可调用：\n1. 你自己判断该动作必要且安全\n2. 程序的硬限制黑名单未命中\n\n如果要调用工具，你必须只输出一段工具 JSON，格式如下：\n"@;
    let mid = "{\"tool\":\"run_python|edit_text_file|send_local_file|fetch_web_page|read_image|shell_command\",\"self_assessed_safe\":true,\"reason\":\"为什么安全且必要\",...}"@;
    let t = tool_prompt(max_rounds);
    let a = head.len() as int;
    let b = a + request_start().len() + mid.len();
    assert(t.subrange(a, a + request_start().len()) =~= request_start());
    assert(occurs_at(t, request_start(), a));
    assert(t.subrange(b, b + request_end().len()) =~= request_end());
    assert(occurs_at(t, request_end(), b));
}

/// With tools off, every request is refused and the model is told of none.
pub proof fn tools_disabled_law(tools: ToolsConfig, request: ToolRequest)
    requires
        !tools.enabled,
    ensures
        spec_plan_tool(tools, request) == Err::<ToolKind, Seq<char>>("工具执行未启用"@),
{
}

/// The main configuration file can never be read, written or sent.
pub proof fn config_file_protected_law(
    tools: ToolsConfig,
    path: Seq<char>,
    normalized: Seq<char>,
    normalized_config: Seq<char>,
)
    requires
        spec_path_eq(normalized, normalized_config),
    ensures
        path_refusal(tools, path, normalized, normalized_config) == Some("禁止访问主配置文件："@ + path),
{
}

/// The JSON text of the tool request in a reply, if there is one.
pub fn tool_request_payload(text: &str) -> (r: Option<String>)
    ensures
        r matches Some(p) ==> spec_tool_request_payload(text@) == Some(p@),
        r is None ==> spec_tool_request_payload(text@) is None,
{
    let source = trim_str(text);
    let v = chars_of(source.as_str());
    let start_marker = chars_of("【TOOL_REQUEST】");
    let end_marker = chars_of("【END_TOOL_REQUEST】");
    let a = match find_first(&v, &start_marker) {
        Some(a) => a,
        None => {
            return None;
        },
    };
    let b = match find_first(&v, &end_marker) {
        Some(b) => b,
        None => {
            return None;
        },
    };
    if b <= a {
        return None;
    }
    proof {
        crate::text::lemma_first_index_from(v@, start_marker@, 0);
        crate::text::lemma_first_index_from(v@, end_marker@, 0);
        reveal_strlit("【TOOL_REQUEST】");
        reveal_strlit("【END_TOOL_REQUEST】");
        if b < a + start_marker@.len() {
            let k = b - a;
            assert(v@.subrange(a as int, a + start_marker@.len())[k] == start_marker@[k]);
            assert(v@.subrange(b as int, b + end_marker@.len())[0] == end_marker@[0]);
            assert(false);
        }
    }
    let inner = string_of(&v, a + start_marker.len(), b);
    let raw = trim_str(inner.as_str());
    Some(raw)
}

/// The instructions that tell the model how to request a tool.
pub open spec fn tool_prompt(max_rounds: nat) -> Seq<char> {
    "你拥有一组受限工具，但必须同时满足两个条件才可调用：\n1. 你自己判断该动作必要且安全\n2. 程序的硬限制黑名单未命中\n\n如果要调用工具，你必须只输出一段工具 JSON，格式如下：\n"@
        + request_start()
        + "{\"tool\":\"run_python|edit_text_file|send_local_file|fetch_web_page|read_image|shell_command\",\"self_assessed_safe\":true,\"reason\":\"为什么安全且必要\",...}"@
        + request_end()
        + "\n\n规则：\n- 只有在纯文本回答做不到时才调用工具。\n- 如果不需要工具，就直接正常回复文本，或输出【SKIP】。\n- 禁止请求修改任何配置文件、服务文件、数据库、密钥文件。\n- run_python 只能写纯计算/文本处理脚本，禁止 import os、subprocess、socket、shutil、pathlib、ctypes，也禁止 open()。\n- edit_text_file 默认可改普通文本文件，但一旦命中配置、状态、数据库、密钥或系统敏感路径，会被程序拒绝。\n- send_local_file 默认可发送现有文件，但一旦命中配置、状态、数据库、密钥或系统敏感路径，会被程序拒绝。\n- fetch_web_page 只能抓取 http/https 文本页面。\n- read_image 用于读取当前消息或指定 URL 的图片内容；如果用户发的是截图、报错图、界面图、照片，且理解图片对回答有帮助，应优先调用它。\n- shell_command 默认允许普通系统命令；但危险程序、危险参数、解释器绕过、敏感路径访问会被程序拒绝。\n- 当用户询问实时状态，如内存、磁盘、进程、端口、目录内容时，应优先考虑 shell_command，而不是说自己拿不到状态。\n- 一次只允许请求一个工具。\n- 工具执行结果会回到上下文，你再继续判断是否还需要下一步。\n- 最多工具轮数："@
        + decimal(max_rounds) + "。"@
}

/// The tool instructions for the system prompt; empty when tools are off.
pub fn build_tool_system_prompt(config: &Config) -> (r: String)
    ensures
        !config.tools.enabled ==> r@.len() == 0,
        config.tools.enabled ==> r@ == tool_prompt(config.tools.max_rounds as nat),
{
    if !config.tools.enabled {
        return String::new();
    }
    let mut r = String::from_str(
        "你拥有一组受限工具，但必须同时满足两个条件才可调用：\n1. 你自己判断该动作必要且安全\n2. 程序的硬限制黑名单未命中\n\n如果要调用工具，你必须只输出一段工具 JSON，格式如下：\n",
    );
    push_str(&mut r, "【TOOL_REQUEST】");
    push_str(
        &mut r,
        "{\"tool\":\"run_python|edit_text_file|send_local_file|fetch_web_page|read_image|shell_command\",\"self_assessed_safe\":true,\"reason\":\"为什么安全且必要\",...}",
    );
    push_str(&mut r, "【END_TOOL_REQUEST】");
    push_str(
        &mut r,
        "\n\n规则：\n- 只有在纯文本回答做不到时才调用工具。\n- 如果不需要工具，就直接正常回复文本，或输出【SKIP】。\n- 禁止请求修改任何配置文件、服务文件、数据库、密钥文件。\n- run_python 只能写纯计算/文本处理脚本，禁止 import os、subprocess、socket、shutil、pathlib、ctypes，也禁止 open()。\n- edit_text_file 默认可改普通文本文件，但一旦命中配置、状态、数据库、密钥或系统敏感路径，会被程序拒绝。\n- send_local_file 默认可发送现有文件，但一旦命中配置、状态、数据库、密钥或系统敏感路径，会被程序拒绝。\n- fetch_web_page 只能抓取 http/https 文本页面。\n- read_image 用于读取当前消息或指定 URL 的图片内容；如果用户发的是截图、报错图、界面图、照片，且理解图片对回答有帮助，应优先调用它。\n- shell_command 默认允许普通系统命令；但危险程序、危险参数、解释器绕过、敏感路径访问会被程序拒绝。\n- 当用户询问实时状态，如内存、磁盘、进程、端口、目录内容时，应优先考虑 shell_command，而不是说自己拿不到状态。\n- 一次只允许请求一个工具。\n- 工具执行结果会回到上下文，你再继续判断是否还需要下一步。\n- 最多工具轮数：",
    );
    push_decimal(&mut r, config.tools.max_rounds as u64);
    push_str(&mut r, "。");
    r
}

/// Python code is refused exactly when, lowercased, it contains one of
/// `import os`, `from os`, `import subprocess`, `from subprocess`,
/// `import socket`, `from socket`, `import shutil`, `from shutil`,
/// `import pathlib`, `from pathlib`, `import ctypes`, `from ctypes`, `open(`,
/// `__import__`, `eval(`, `exec(`.
pub proof fn python_patterns_law(code: Seq<char>)
    ensures
        python_refusal(code) is Some <==> (contains(spec_lowercase(code), "import os"@) || contains(spec_lowercase(code), "from os"@) || contains(spec_lowercase(code), "import subprocess"@) || contains(spec_lowercase(code), "from subprocess"@) || contains(spec_lowercase(code), "import socket"@) || contains(spec_lowercase(code), "from socket"@) || contains(spec_lowercase(code), "import shutil"@) || contains(spec_lowercase(code), "from shutil"@) || contains(spec_lowercase(code), "import pathlib"@) || contains(spec_lowercase(code), "from pathlib"@) || contains(spec_lowercase(code), "import ctypes"@) || contains(spec_lowercase(code), "from ctypes"@) || contains(spec_lowercase(code), "open("@) || contains(spec_lowercase(code), "__import__"@) || contains(spec_lowercase(code), "eval("@) || contains(spec_lowercase(code), "exec("@)),
{
    let l = spec_lowercase(code);
    let pats = banned_python_patterns();
    lemma_first_contained(l, pats);
    if python_refusal(code) is Some {
        let i = choose|i: int| 0 <= i < pats.len() && contains(l, #[trigger] pats[i]);
        assert(i == 0 || i == 1 || i == 2 || i == 3 || i == 4 || i == 5 || i == 6 || i == 7 || i == 8 || i == 9 || i == 10 || i == 11 || i == 12 || i == 13 || i == 14 || i == 15);
    }
    if contains(l, "import os"@) {
        assert(pats[0] == "import os"@);
    }
    if contains(l, "from os"@) {
        assert(pats[1] == "from os"@);
    }
    if contains(l, "import subprocess"@) {
        assert(pats[2] == "import subprocess"@);
    }
    if contains(l, "from subprocess"@) {
        assert(pats[3] == "from subprocess"@);
    }
    if contains(l, "import socket"@) {
        assert(pats[4] == "import socket"@);
    }
    if contains(l, "from socket"@) {
        assert(pats[5] == "from socket"@);
    }
    if contains(l, "import shutil"@) {
        assert(pats[6] == "import shutil"@);
    }
    if contains(l, "from shutil"@) {
        assert(pats[7] == "from shutil"@);
    }
    if contains(l, "import pathlib"@) {
        assert(pats[8] == "import pathlib"@);
    }
    if contains(l, "from pathlib"@) {
        assert(pats[9] == "from pathlib"@);
    }
    if contains(l, "import ctypes"@) {
        assert(pats[10] == "import ctypes"@);
    }
    if contains(l, "from ctypes"@) {
        assert(pats[11] == "from ctypes"@);
    }
    if contains(l, "open("@) {
        assert(pats[12] == "open("@);
    }
    if contains(l, "__import__"@) {
        assert(pats[13] == "__import__"@);
    }
    if contains(l, "eval("@) {
        assert(pats[14] == "eval("@);
    }
    if contains(l, "exec("@) {
        assert(pats[15] == "exec("@);
    }
}

/// An allowed request runs the tool its trimmed name names; any other name is
/// refused as unsupported.
pub proof fn tool_names_law(tools: ToolsConfig, request: ToolRequest)
    ensures
        tools.enabled && request.self_assessed_safe && trim(request.tool@) == "run_python"@ ==> spec_plan_tool(tools, request) == Ok::<ToolKind, Seq<char>>(ToolKind::RunPython),
        tools.enabled && request.self_assessed_safe && trim(request.tool@) == "edit_text_file"@ ==> spec_plan_tool(tools, request) == Ok::<ToolKind, Seq<char>>(ToolKind::EditTextFile),
        tools.enabled && request.self_assessed_safe && trim(request.tool@) == "send_local_file"@ ==> spec_plan_tool(tools, request) == Ok::<ToolKind, Seq<char>>(ToolKind::SendLocalFile),
        tools.enabled && request.self_assessed_safe && trim(request.tool@) == "fetch_web_page"@ ==> spec_plan_tool(tools, request) == Ok::<ToolKind, Seq<char>>(ToolKind::FetchWebPage),
        tools.enabled && request.self_assessed_safe && trim(request.tool@) == "read_image"@ ==> spec_plan_tool(tools, request) == Ok::<ToolKind, Seq<char>>(ToolKind::ReadImage),
        tools.enabled && request.self_assessed_safe && trim(request.tool@) == "shell_command"@ ==> spec_plan_tool(tools, request) == Ok::<ToolKind, Seq<char>>(ToolKind::ShellCommand),
        tools.enabled && request.self_assessed_safe && trim(request.tool@) != "run_python"@ && trim(request.tool@) != "edit_text_file"@ && trim(request.tool@) != "send_local_file"@ && trim(request.tool@) != "fetch_web_page"@ && trim(request.tool@) != "read_image"@ && trim(request.tool@) != "shell_command"@ ==> spec_plan_tool(tools, request) == Err::<ToolKind, Seq<char>>("不支持的工具："@ + trim(request.tool@)),
{
    reveal_strlit("run_python");
    reveal_strlit("edit_text_file");
    reveal_strlit("send_local_file");
    reveal_strlit("fetch_web_page");
    reveal_strlit("read_image");
    reveal_strlit("shell_command");
    assert("edit_text_file"@.len() != "run_python"@.len());
    assert("send_local_file"@.len() != "run_python"@.len());
    assert("send_local_file"@.len() != "edit_text_file"@.len());
    assert("fetch_web_page"@.len() != "run_python"@.len());
    assert("fetch_web_page"@[0] != "edit_text_file"@[0]);
    assert("fetch_web_page"@.len() != "send_local_file"@.len());
    assert("read_image"@[1] != "run_python"@[1]);
    assert("read_image"@.len() != "edit_text_file"@.len());
    assert("read_image"@.len() != "send_local_file"@.len());
    assert("read_image"@.len() != "fetch_web_page"@.len());
    assert("shell_command"@.len() != "run_python"@.len());
    assert("shell_command"@.len() != "edit_text_file"@.len());
    assert("shell_command"@.len() != "send_local_file"@.len());
    assert("shell_command"@.len() != "fetch_web_page"@.len());
    assert("shell_command"@.len() != "read_image"@.len());
}

} // verus!
