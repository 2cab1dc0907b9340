//! Decisions of the chat client: which model and transport to try next, when a
//! failure is retried or falls back, and when the client cools down.
use vstd::prelude::*;
use vstd::string::*;
use crate::config::AiConfig;
use crate::error::BotError;
pub use crate::chat_client::OpenAiCompatClient;
use crate::text::{
    blank_line_breaks, blank_line_breaks_str, chars_of, contains, contains_chars, decimal, join,
    push_decimal, push_str, spec_lowercase, spec_uppercase, str_contains, str_eq, strings_view,
    take_chars, take_str, to_lowercase, to_uppercase, trim, trim_str,
};

verus! {

/// `"HTTP "` followed by the status code, as the failure texts write it.
pub open spec fn http_marker(status: nat) -> Seq<char> {
    "HTTP "@ + decimal(status)
}

/// Statuses after which a request is retried.
pub open spec fn retryable_statuses() -> Seq<u16> {
    seq![408u16, 409u16, 425u16, 429u16, 500u16, 502u16, 503u16, 504u16]
}

/// Statuses after which the next transport or model is tried.
pub open spec fn fallback_statuses() -> Seq<u16> {
    seq![400u16, 404u16, 405u16, 408u16, 409u16, 415u16, 425u16, 429u16, 500u16, 502u16]
}

/// The text names one of `statuses` as `HTTP <code>`.
pub open spec fn mentions_status_in(msg: Seq<char>, statuses: Seq<u16>) -> bool {
    exists|k: int| 0 <= k < statuses.len() && contains(msg, http_marker(statuses[k] as nat))
}

fn retryable_status_list() -> (v: Vec<u16>)
    ensures
        v@ == retryable_statuses(),
{
    vec![408u16, 409u16, 425u16, 429u16, 500u16, 502u16, 503u16, 504u16]
}

fn fallback_status_list() -> (v: Vec<u16>)
    ensures
        v@ == fallback_statuses(),
{
    vec![400u16, 404u16, 405u16, 408u16, 409u16, 415u16, 425u16, 429u16, 500u16, 502u16]
}

fn mentions_any_status(msg: &Vec<char>, statuses: &Vec<u16>) -> (b: bool)
    ensures
        b == mentions_status_in(msg@, statuses@),
{
    let mut k: usize = 0;
    while k < statuses.len()
        invariant
            k <= statuses@.len(),
            forall|j: int| 0 <= j < k ==> !contains(msg@, http_marker(statuses@[j] as nat)),
        decreases statuses@.len() - k,
    {
        let mut marker = String::from_str("HTTP ");
        push_decimal(&mut marker, statuses[k] as u64);
        let mv = chars_of(marker.as_str());
        if contains_chars(msg, &mv) {
            return true;
        }
        k = k + 1;
    }
    false
}


/// What `is_retryable_text` looks for, in the lowercased text.
pub open spec fn spec_is_retryable_text(msg: Seq<char>) -> bool {
    let m = spec_lowercase(msg);
    ||| contains(m, "timeout"@)
    ||| contains(m, "timed out"@)
    ||| contains(m, "network"@)
    ||| contains(m, "socket"@)
    ||| contains(m, "econnreset"@)
    ||| contains(m, "enotfound"@)
    ||| contains(m, "eai_again"@)
}

/// A failure is retryable when its text names a retryable status or a network fault.
pub open spec fn spec_is_retryable_error(msg: Seq<char>) -> bool {
    mentions_status_in(msg, retryable_statuses()) || spec_is_retryable_text(msg)
}

/// A failure lets the client move on to the next transport or model.
pub open spec fn spec_should_fallback(msg: Seq<char>) -> bool {
    spec_is_retryable_error(msg) || mentions_status_in(msg, fallback_statuses())
}

/// Whether the (lowercased) text names a network fault.
pub fn is_retryable_text(message: &str) -> (b: bool)
    ensures
        b == spec_is_retryable_text(message@),
{
    let lower = to_lowercase(message);
    let m = lower.as_str();
    str_contains(m, "timeout") || str_contains(m, "timed out") || str_contains(m, "network")
        || str_contains(m, "socket") || str_contains(m, "econnreset") || str_contains(m,
        "enotfound") || str_contains(m, "eai_again")
}

/// Whether a failure is worth retrying.
pub fn is_retryable_error(error: &BotError) -> (b: bool)
    ensures
        b == spec_is_retryable_error(error.message@),
{
    let msg = chars_of(error.message.as_str());
    mentions_any_status(&msg, &retryable_status_list()) || is_retryable_text(
        error.message.as_str(),
    )
}

/// Whether a failure lets the client try the next transport or model.
pub fn should_fallback_transport(error: &BotError) -> (b: bool)
    ensures
        b == spec_should_fallback(error.message@),
{
    let msg = chars_of(error.message.as_str());
    is_retryable_error(error) || mentions_any_status(&msg, &fallback_status_list())
}

/// Text of the failure for an HTTP error status.
pub open spec fn http_error_text(status: nat, detail: Seq<char>) -> Seq<char> {
    "聊天接口返回 "@ + http_marker(status) + "："@ + detail
}

/// The failure for an HTTP error status with the (normalized) body text.
pub fn http_error(status: u16, detail: &str) -> (e: BotError)
    ensures
        e.message@ == http_error_text(status as nat, detail@),
{
    let mut m = String::from_str("聊天接口返回 ");
    m.append("HTTP ");
    push_decimal(&mut m, status as u64);
    m.append("：");
    m.append(detail);
    BotError { message: m }
}

/// The configuration problem that stops a request, if any.
pub open spec fn validation_error(config: AiConfig) -> Option<Seq<char>> {
    if trim(config.api_base@).len() == 0 {
        Some("chat.baseUrl 未配置"@)
    } else if trim(config.model@).len() == 0 {
        Some("chat.model 未配置"@)
    } else {
        None
    }
}

/// Refuses a configuration without base URL or model.
pub fn validate(config: &AiConfig) -> (r: Result<(), BotError>)
    ensures
        validation_error(*config) matches Some(m) ==> r matches Err(e) && e.message@ == m,
        validation_error(*config) is None ==> r is Ok,
{
    let base = trim_str(config.api_base.as_str());
    if base.as_str().is_empty() {
        assert(base@.len() == 0);
        return Err(BotError::from_str("chat.baseUrl 未配置"));
    }
    let model = trim_str(config.model.as_str());
    if model.as_str().is_empty() {
        assert(model@.len() == 0);
        return Err(BotError::from_str("chat.model 未配置"));
    }
    assert(base@.len() != 0 && model@.len() != 0);
    Ok(())
}

/// The base URL points at the local cc-switch proxy.
pub open spec fn spec_is_cc_switch_proxy(api_base: Seq<char>) -> bool {
    let base = spec_lowercase(api_base);
    contains(base, "127.0.0.1:15721/v1"@) || contains(base, "localhost:15721/v1"@)
}

/// Whether the base URL points at the local cc-switch proxy.
pub fn is_cc_switch_proxy(config: &AiConfig) -> (b: bool)
    ensures
        b == spec_is_cc_switch_proxy(config.api_base@),
{
    let base = to_lowercase(config.api_base.as_str());
    str_contains(base.as_str(), "127.0.0.1:15721/v1") || str_contains(
        base.as_str(),
        "localhost:15721/v1",
    )
}

/// The model a request uses: the given one, trimmed, unless it is blank.
pub open spec fn resolved_model(model: Option<Seq<char>>, default: Seq<char>) -> Seq<char> {
    match model {
        Some(m) => if trim(m).len() > 0 {
            trim(m)
        } else {
            default
        },
        None => default,
    }
}

/// The model a request uses.
pub fn resolve_model(model: Option<&str>, default: &String) -> (r: String)
    ensures
        r@ == resolved_model(
            match model {
                Some(m) => Some(m@),
                None => None,
            },
            default@,
        ),
{
    match model {
        Some(m) => {
            let t = trim_str(m);
            if !t.as_str().is_empty() {
                assert(t@.len() != 0);
                t
            } else {
                assert(t@.len() == 0);
                default.clone()
            }
        },
        None => default.clone(),
    }
}


/// The newer name that is tried after a retired model name.
pub open spec fn alias_of(c: Seq<char>) -> Option<Seq<char>> {
    if c == "gpt-5-codex-mini"@ {
        Some("gpt-5.1-codex-mini"@)
    } else if c == "gpt-5-codex"@ {
        Some("gpt-5.1-codex"@)
    } else {
        None
    }
}

/// `acc` with `c` appended unless it is already there.
pub open spec fn add_unique(acc: Seq<Seq<char>>, c: Seq<char>) -> Seq<Seq<char>> {
    if acc.contains(c) {
        acc
    } else {
        acc.push(c)
    }
}

/// `acc` with `c` and then its alias, if any, appended where new.
pub open spec fn add_with_alias(acc: Seq<Seq<char>>, c: Seq<char>) -> Seq<Seq<char>> {
    let a = add_unique(acc, c);
    match alias_of(c) {
        Some(x) => add_unique(a, x),
        None => a,
    }
}

/// The candidates after taking in each model of `list`, in order.
pub open spec fn candidates_from(acc: Seq<Seq<char>>, list: Seq<Seq<char>>) -> Seq<Seq<char>>
    decreases list.len(),
{
    if list.len() == 0 {
        acc
    } else {
        candidates_from(add_with_alias(acc, list[0]), list.drop_first())
    }
}

/// The models tried for a request: the requested model, then the failover
/// models, each followed by its alias, without repeats.
pub open spec fn model_candidates(model: Seq<char>, failover: Seq<Seq<char>>) -> Seq<Seq<char>> {
    candidates_from(seq![], seq![model] + failover)
}

/// `x` is one of the models of `list` or the alias of one.
pub open spec fn named_by(list: Seq<Seq<char>>, x: Seq<char>) -> bool {
    exists|i: int| 0 <= i < list.len() && (list[i] == x || alias_of(list[i]) == Some(x))
}

proof fn lemma_add_unique(acc: Seq<Seq<char>>, c: Seq<char>)
    ensures
        acc.no_duplicates() ==> add_unique(acc, c).no_duplicates(),
        add_unique(acc, c).len() >= acc.len(),
        add_unique(acc, c).take(acc.len() as int) == acc,
        add_unique(acc, c).contains(c),
        forall|x: Seq<char>| #[trigger] add_unique(acc, c).contains(x) ==> acc.contains(x) || x == c,
{
    assert(acc.take(acc.len() as int) =~= acc);
    if !acc.contains(c) {
        let r = acc.push(c);
        assert(r.take(acc.len() as int) =~= acc);
        assert(r[acc.len() as int] == c);
        assert forall|x: Seq<char>| r.contains(x) implies acc.contains(x) || x == c by {
            let i = choose|i: int| 0 <= i < r.len() && r[i] == x;
            if i < acc.len() {
                assert(acc[i] == x);
            }
        }
        if acc.no_duplicates() {
            assert forall|i: int, j: int| 0 <= i < r.len() && 0 <= j < r.len() && i != j implies r[i]
                != r[j] by {
                if i == acc.len() {
                    assert(acc[j] == r[j]);
                } else if j == acc.len() {
                    assert(acc[i] == r[i]);
                }
            }
        }
    }
}

proof fn lemma_add_with_alias(acc: Seq<Seq<char>>, c: Seq<char>)
    ensures
        acc.no_duplicates() ==> add_with_alias(acc, c).no_duplicates(),
        add_with_alias(acc, c).len() >= acc.len(),
        add_with_alias(acc, c).take(acc.len() as int) == acc,
        add_with_alias(acc, c).contains(c),
        forall|x: Seq<char>| #[trigger] add_with_alias(acc, c).contains(x) ==> acc.contains(x) || x
            == c || alias_of(c) == Some(x),
{
    let a = add_unique(acc, c);
    lemma_add_unique(acc, c);
    match alias_of(c) {
        Some(y) => {
            lemma_add_unique(a, y);
            let r = add_unique(a, y);
            assert(r.take(acc.len() as int) =~= r.take(a.len() as int).take(acc.len() as int));
            let k = choose|k: int| 0 <= k < a.len() && a[k] == c;
            assert(r.take(a.len() as int)[k] == r[k]);
            assert(r[k] == c);
        },
        None => {},
    }
}

proof fn lemma_candidates_from(acc: Seq<Seq<char>>, list: Seq<Seq<char>>)
    ensures
        acc.no_duplicates() ==> candidates_from(acc, list).no_duplicates(),
        candidates_from(acc, list).len() >= acc.len(),
        candidates_from(acc, list).take(acc.len() as int) == acc,
        forall|i: int| 0 <= i < list.len() ==> candidates_from(acc, list).contains(#[trigger] list[i]),
        forall|x: Seq<char>| #[trigger] candidates_from(acc, list).contains(x) ==> acc.contains(x)
            || named_by(list, x),
    decreases list.len(),
{
    if list.len() == 0 {
        assert(acc.take(acc.len() as int) =~= acc);
    } else {
        let a1 = add_with_alias(acc, list[0]);
        let rest = list.drop_first();
        let r = candidates_from(a1, rest);
        lemma_add_with_alias(acc, list[0]);
        lemma_candidates_from(a1, rest);
        assert(r.take(acc.len() as int) =~= r.take(a1.len() as int).take(acc.len() as int));
        assert forall|i: int| 0 <= i < list.len() implies r.contains(#[trigger] list[i]) by {
            if i == 0 {
                let k = choose|k: int| 0 <= k < a1.len() && a1[k] == list[0];
                assert(r.take(a1.len() as int)[k] == r[k]);
            } else {
                assert(rest[i - 1] == list[i]);
            }
        }
        assert forall|x: Seq<char>| #[trigger] r.contains(x) implies acc.contains(x) || named_by(
            list,
            x,
        ) by {
            if a1.contains(x) {
                if !acc.contains(x) {
                    assert(list[0] == x || alias_of(list[0]) == Some(x));
                }
            } else {
                assert(named_by(rest, x));
                let i = choose|i: int| 0 <= i < rest.len() && (rest[i] == x || alias_of(rest[i]) == Some(x));
                assert(list[i + 1] == rest[i]);
            }
        }
    }
}

/// The models tried for a request: the requested model comes first; no model
/// is tried twice; every failover model is tried; and nothing is tried but the
/// requested model, the failover models and their aliases.
pub proof fn model_candidates_law(model: Seq<char>, failover: Seq<Seq<char>>)
    ensures
        model_candidates(model, failover).len() >= 1,
        model_candidates(model, failover)[0] == model,
        model_candidates(model, failover).no_duplicates(),
        forall|i: int| 0 <= i < failover.len() ==> model_candidates(model, failover).contains(
            #[trigger] failover[i],
        ),
        forall|x: Seq<char>| #[trigger] model_candidates(model, failover).contains(x) ==> x == model
            || named_by(seq![model] + failover, x),
{
    let list = seq![model] + failover;
    let r = model_candidates(model, failover);
    lemma_candidates_from(Seq::empty(), list);
    assert(list[0] == model);
    assert(r.contains(model));
    let a1 = add_with_alias(Seq::<Seq<char>>::empty(), model);
    lemma_add_with_alias(Seq::<Seq<char>>::empty(), model);
    assert(a1[0] == model);
    lemma_candidates_from(a1, list.drop_first());
    assert(r.take(a1.len() as int)[0] == r[0]);
    assert forall|i: int| 0 <= i < failover.len() implies r.contains(#[trigger] failover[i]) by {
        assert(list[i + 1] == failover[i]);
    }
}

/// A retired model name is always followed by the name that replaced it.
pub proof fn model_alias_law(model: Seq<char>, failover: Seq<Seq<char>>, i: int)
    requires
        0 <= i < failover.len(),
        alias_of(failover[i]) is Some,
    ensures
        model_candidates(model, failover).contains(alias_of(failover[i])->0),
{
    let list = seq![model] + failover;
    assert(list[i + 1] == failover[i]);
    lemma_alias_taken(Seq::empty(), list, i + 1);
}

proof fn lemma_alias_taken(acc: Seq<Seq<char>>, list: Seq<Seq<char>>, i: int)
    requires
        0 <= i < list.len(),
        alias_of(list[i]) is Some,
    ensures
        candidates_from(acc, list).contains(alias_of(list[i])->0),
    decreases list.len(),
{
    let a1 = add_with_alias(acc, list[0]);
    let r = candidates_from(a1, list.drop_first());
    if i == 0 {
        let y = alias_of(list[0])->0;
        lemma_add_unique(add_unique(acc, list[0]), y);
        lemma_candidates_from(a1, list.drop_first());
        let k = choose|k: int| 0 <= k < a1.len() && a1[k] == y;
        assert(r.take(a1.len() as int)[k] == r[k]);
    } else {
        assert(list.drop_first()[i - 1] == list[i]);
        lemma_alias_taken(a1, list.drop_first(), i - 1);
    }
}

/// A retired model name, requested or among the failover models, is always
/// followed by the name that replaced it: `gpt-5-codex-mini` by
/// `gpt-5.1-codex-mini`, `gpt-5-codex` by `gpt-5.1-codex`. When the requested
/// model is retired, its replacement is the second model tried.
pub proof fn retired_model_law(model: Seq<char>, failover: Seq<Seq<char>>)
    ensures
        model == "gpt-5-codex-mini"@ ==> model_candidates(model, failover).len() >= 2
            && model_candidates(model, failover)[1] == "gpt-5.1-codex-mini"@,
        model == "gpt-5-codex"@ ==> model_candidates(model, failover).len() >= 2
            && model_candidates(model, failover)[1] == "gpt-5.1-codex"@,
        forall|i: int| 0 <= i < failover.len() && #[trigger] failover[i] == "gpt-5-codex-mini"@
            ==> model_candidates(model, failover).contains("gpt-5.1-codex-mini"@),
        forall|i: int| 0 <= i < failover.len() && #[trigger] failover[i] == "gpt-5-codex"@
            ==> model_candidates(model, failover).contains("gpt-5.1-codex"@),
{
    reveal_strlit("gpt-5-codex-mini");
    reveal_strlit("gpt-5.1-codex-mini");
    reveal_strlit("gpt-5-codex");
    reveal_strlit("gpt-5.1-codex");
    assert("gpt-5-codex-mini"@.len() != "gpt-5-codex"@.len());
    assert("gpt-5-codex-mini"@[5] != "gpt-5.1-codex-mini"@[5]);
    assert("gpt-5-codex"@[5] != "gpt-5.1-codex"@[5]);
    let list = seq![model] + failover;
    assert(list[0] == model);
    assert(list.drop_first() =~= failover);
    let a1 = add_with_alias(Seq::<Seq<char>>::empty(), model);
    lemma_candidates_from(a1, failover);
    let r = model_candidates(model, failover);
    if model == "gpt-5-codex-mini"@ || model == "gpt-5-codex"@ {
        assert(a1 =~= seq![model, alias_of(model)->0]);
        assert(r.take(2)[1] == r[1]);
    }
    assert forall|i: int| 0 <= i < failover.len() && #[trigger] failover[i] == "gpt-5-codex-mini"@
        implies r.contains("gpt-5.1-codex-mini"@) by {
        model_alias_law(model, failover, i);
    }
    assert forall|i: int| 0 <= i < failover.len() && #[trigger] failover[i] == "gpt-5-codex"@
        implies r.contains("gpt-5.1-codex"@) by {
        model_alias_law(model, failover, i);
    }
}

proof fn lemma_decimal_three(n: nat)
    requires
        100 <= n < 1000,
    ensures
        decimal(n) == seq![crate::text::digit(n / 100), crate::text::digit((n / 10) % 10), crate::text::digit(n % 10)],
{
    assert((n / 10) / 10 == n / 100 && 10 <= n / 10 < 100 && n / 100 < 10) by (nonlinear_arith)
        requires
            100 <= n < 1000,
    ;
    assert(decimal(n / 100) == seq![crate::text::digit(n / 100)]);
    assert(decimal(n / 10) == decimal(n / 100).push(crate::text::digit((n / 10) % 10)));
    assert(decimal(n) == decimal(n / 10).push(crate::text::digit(n % 10)));
}

proof fn lemma_status_markers()
    ensures
        http_marker(400) == "HTTP 400"@,
        http_marker(404) == "HTTP 404"@,
        http_marker(405) == "HTTP 405"@,
        http_marker(408) == "HTTP 408"@,
        http_marker(409) == "HTTP 409"@,
        http_marker(415) == "HTTP 415"@,
        http_marker(425) == "HTTP 425"@,
        http_marker(429) == "HTTP 429"@,
        http_marker(500) == "HTTP 500"@,
        http_marker(502) == "HTTP 502"@,
        http_marker(503) == "HTTP 503"@,
        http_marker(504) == "HTTP 504"@,
{
    reveal_strlit("HTTP ");
    reveal_strlit("HTTP 400");
    lemma_decimal_three(400);
    assert(http_marker(400) =~= "HTTP 400"@);
    reveal_strlit("HTTP 404");
    lemma_decimal_three(404);
    assert(http_marker(404) =~= "HTTP 404"@);
    reveal_strlit("HTTP 405");
    lemma_decimal_three(405);
    assert(http_marker(405) =~= "HTTP 405"@);
    reveal_strlit("HTTP 408");
    lemma_decimal_three(408);
    assert(http_marker(408) =~= "HTTP 408"@);
    reveal_strlit("HTTP 409");
    lemma_decimal_three(409);
    assert(http_marker(409) =~= "HTTP 409"@);
    reveal_strlit("HTTP 415");
    lemma_decimal_three(415);
    assert(http_marker(415) =~= "HTTP 415"@);
    reveal_strlit("HTTP 425");
    lemma_decimal_three(425);
    assert(http_marker(425) =~= "HTTP 425"@);
    reveal_strlit("HTTP 429");
    lemma_decimal_three(429);
    assert(http_marker(429) =~= "HTTP 429"@);
    reveal_strlit("HTTP 500");
    lemma_decimal_three(500);
    assert(http_marker(500) =~= "HTTP 500"@);
    reveal_strlit("HTTP 502");
    lemma_decimal_three(502);
    assert(http_marker(502) =~= "HTTP 502"@);
    reveal_strlit("HTTP 503");
    lemma_decimal_three(503);
    assert(http_marker(503) =~= "HTTP 503"@);
    reveal_strlit("HTTP 504");
    lemma_decimal_three(504);
    assert(http_marker(504) =~= "HTTP 504"@);
}

proof fn lemma_retryable_mentions(msg: Seq<char>, statuses: Seq<u16>)
    requires
        statuses == seq![408u16, 409u16, 425u16, 429u16, 500u16, 502u16, 503u16, 504u16],
    ensures
        mentions_status_in(msg, statuses) <==> (contains(msg, "HTTP 408"@) || contains(msg, "HTTP 409"@) || contains(msg, "HTTP 425"@) || contains(msg, "HTTP 429"@) || contains(msg, "HTTP 500"@) || contains(msg, "HTTP 502"@) || contains(msg, "HTTP 503"@) || contains(msg, "HTTP 504"@)),
{
    lemma_status_markers();
    if mentions_status_in(msg, statuses) {
        let k = choose|k: int| 0 <= k < statuses.len() && contains(msg, http_marker(statuses[k] as nat));
        assert(k == 0 || k == 1 || k == 2 || k == 3 || k == 4 || k == 5 || k == 6 || k == 7);
    }
    if contains(msg, "HTTP 408"@) {
        assert(statuses[0] == 408u16);
        assert(contains(msg, http_marker(statuses[0] as nat)));
    }
    if contains(msg, "HTTP 409"@) {
        assert(statuses[1] == 409u16);
        assert(contains(msg, http_marker(statuses[1] as nat)));
    }
    if contains(msg, "HTTP 425"@) {
        assert(statuses[2] == 425u16);
        assert(contains(msg, http_marker(statuses[2] as nat)));
    }
    if contains(msg, "HTTP 429"@) {
        assert(statuses[3] == 429u16);
        assert(contains(msg, http_marker(statuses[3] as nat)));
    }
    if contains(msg, "HTTP 500"@) {
        assert(statuses[4] == 500u16);
        assert(contains(msg, http_marker(statuses[4] as nat)));
    }
    if contains(msg, "HTTP 502"@) {
        assert(statuses[5] == 502u16);
        assert(contains(msg, http_marker(statuses[5] as nat)));
    }
    if contains(msg, "HTTP 503"@) {
        assert(statuses[6] == 503u16);
        assert(contains(msg, http_marker(statuses[6] as nat)));
    }
    if contains(msg, "HTTP 504"@) {
        assert(statuses[7] == 504u16);
        assert(contains(msg, http_marker(statuses[7] as nat)));
    }
}

proof fn lemma_fallback_mentions(msg: Seq<char>, statuses: Seq<u16>)
    requires
        statuses == seq![400u16, 404u16, 405u16, 408u16, 409u16, 415u16, 425u16, 429u16, 500u16, 502u16],
    ensures
        mentions_status_in(msg, statuses) <==> (contains(msg, "HTTP 400"@) || contains(msg, "HTTP 404"@) || contains(msg, "HTTP 405"@) || contains(msg, "HTTP 408"@) || contains(msg, "HTTP 409"@) || contains(msg, "HTTP 415"@) || contains(msg, "HTTP 425"@) || contains(msg, "HTTP 429"@) || contains(msg, "HTTP 500"@) || contains(msg, "HTTP 502"@)),
{
    lemma_status_markers();
    if mentions_status_in(msg, statuses) {
        let k = choose|k: int| 0 <= k < statuses.len() && contains(msg, http_marker(statuses[k] as nat));
        assert(k == 0 || k == 1 || k == 2 || k == 3 || k == 4 || k == 5 || k == 6 || k == 7 || k == 8 || k == 9);
    }
    if contains(msg, "HTTP 400"@) {
        assert(statuses[0] == 400u16);
        assert(contains(msg, http_marker(statuses[0] as nat)));
    }
    if contains(msg, "HTTP 404"@) {
        assert(statuses[1] == 404u16);
        assert(contains(msg, http_marker(statuses[1] as nat)));
    }
    if contains(msg, "HTTP 405"@) {
        assert(statuses[2] == 405u16);
        assert(contains(msg, http_marker(statuses[2] as nat)));
    }
    if contains(msg, "HTTP 408"@) {
        assert(statuses[3] == 408u16);
        assert(contains(msg, http_marker(statuses[3] as nat)));
    }
    if contains(msg, "HTTP 409"@) {
        assert(statuses[4] == 409u16);
        assert(contains(msg, http_marker(statuses[4] as nat)));
    }
    if contains(msg, "HTTP 415"@) {
        assert(statuses[5] == 415u16);
        assert(contains(msg, http_marker(statuses[5] as nat)));
    }
    if contains(msg, "HTTP 425"@) {
        assert(statuses[6] == 425u16);
        assert(contains(msg, http_marker(statuses[6] as nat)));
    }
    if contains(msg, "HTTP 429"@) {
        assert(statuses[7] == 429u16);
        assert(contains(msg, http_marker(statuses[7] as nat)));
    }
    if contains(msg, "HTTP 500"@) {
        assert(statuses[8] == 500u16);
        assert(contains(msg, http_marker(statuses[8] as nat)));
    }
    if contains(msg, "HTTP 502"@) {
        assert(statuses[9] == 502u16);
        assert(contains(msg, http_marker(statuses[9] as nat)));
    }
}

/// A failure is retried exactly when its text names one of the statuses 408,
/// 409, 425, 429, 500, 502, 503, 504 (as `HTTP <code>`) or a network fault
/// (timeout, network, socket, connection reset, failed lookup).
pub proof fn retryable_status_law(msg: Seq<char>)
    ensures
        spec_is_retryable_error(msg) <==> (spec_is_retryable_text(msg) || contains(msg, "HTTP 408"@) || contains(msg, "HTTP 409"@) || contains(msg, "HTTP 425"@) || contains(msg, "HTTP 429"@) || contains(msg, "HTTP 500"@) || contains(msg, "HTTP 502"@) || contains(msg, "HTTP 503"@) || contains(msg, "HTTP 504"@)),
{
    lemma_retryable_mentions(msg, retryable_statuses());
}

/// A failure lets the client move on to the next model or transport exactly
/// when it is retryable or its text names one of the statuses 400, 404, 405,
/// 408, 409, 415, 425, 429, 500, 502 (as `HTTP <code>`).
pub proof fn fallback_status_law(msg: Seq<char>)
    ensures
        spec_should_fallback(msg) <==> (spec_is_retryable_text(msg) || contains(msg, "HTTP 400"@) || contains(msg, "HTTP 404"@) || contains(msg, "HTTP 405"@) || contains(msg, "HTTP 408"@) || contains(msg, "HTTP 409"@) || contains(msg, "HTTP 415"@) || contains(msg, "HTTP 425"@) || contains(msg, "HTTP 429"@) || contains(msg, "HTTP 500"@) || contains(msg, "HTTP 502"@) || contains(msg, "HTTP 503"@) || contains(msg, "HTTP 504"@)),
{
    lemma_retryable_mentions(msg, retryable_statuses());
    lemma_fallback_mentions(msg, fallback_statuses());
}

/// Every failure worth retrying also lets the client move on to the next
/// transport or model.
pub proof fn retryable_falls_back_law(msg: Seq<char>)
    ensures
        spec_is_retryable_error(msg) ==> spec_should_fallback(msg),
{
}

fn push_unique(result: &mut Vec<String>, c: &str)
    ensures
        strings_view(final(result)@) == add_unique(strings_view(old(result)@), c@),
{
    let mut k: usize = 0;
    while k < result.len()
        invariant
            k <= result@.len(),
            forall|j: int| 0 <= j < k ==> result@[j]@ != c@,
        decreases result@.len() - k,
    {
        if str_eq(result[k].as_str(), c) {
            assert(strings_view(result@)[k as int] == c@);
            return;
        }
        k = k + 1;
    }
    let ghost before = strings_view(result@);
    assert(!before.contains(c@)) by {
        assert forall|j: int| 0 <= j < before.len() implies before[j] != c@ by {
            assert(before[j] == result@[j]@);
        }
    }
    result.push(String::from_str(c));
    assert(strings_view(result@) =~= before.push(c@));
}

fn push_with_alias(result: &mut Vec<String>, c: &str)
    ensures
        strings_view(final(result)@) == add_with_alias(strings_view(old(result)@), c@),
{
    push_unique(result, c);
    if str_eq(c, "gpt-5-codex-mini") {
        push_unique(result, "gpt-5.1-codex-mini");
    } else if str_eq(c, "gpt-5-codex") {
        push_unique(result, "gpt-5.1-codex");
    }
}

/// The models to try for a request, in order.
pub fn build_model_candidates(config: &AiConfig, model: &str) -> (r: Vec<String>)
    ensures
        strings_view(r@) == model_candidates(model@, strings_view(config.failover_models@)),
{
    let ghost f = strings_view(config.failover_models@);
    let mut result: Vec<String> = Vec::new();
    assert((seq![model@] + f).drop_first() =~= f.skip(0));
    assert((seq![model@] + f)[0] == model@);
    assert(strings_view(result@) =~= Seq::<Seq<char>>::empty());
    push_with_alias(&mut result, model);
    assert(model_candidates(model@, f) == candidates_from(
        add_with_alias(Seq::<Seq<char>>::empty(), model@),
        f.skip(0),
    ));
    let n = config.failover_models.len();
    let mut i: usize = 0;
    while i < n
        invariant
            n == config.failover_models@.len(),
            f == strings_view(config.failover_models@),
            i <= n,
            model_candidates(model@, f) == candidates_from(strings_view(result@), f.skip(i as int)),
        decreases n - i,
    {
        assert(f.skip(i as int)[0] == f[i as int]);
        assert(f.skip(i as int).drop_first() =~= f.skip(i + 1));
        assert(f[i as int] == config.failover_models@[i as int]@);
        push_with_alias(&mut result, config.failover_models[i].as_str());
        i = i + 1;
    }
    assert(f.skip(n as int).len() == 0);
    result
}


/// One message of a conversation.
pub struct ChatMessage {
    pub role: String,
    pub content: String,
}

/// The string fields of an error body that name its cause, where the body is
/// JSON: `error.message`, `message` and `detail`.
pub struct ErrorFields {
    pub error_message: Option<String>,
    pub message: Option<String>,
    pub detail: Option<String>,
}

/// The texts of the cause fields, in order: `error.message`, `message`, `detail`.
pub open spec fn error_fields_view(f: Option<ErrorFields>) -> Option<
    (Option<Seq<char>>, Option<Seq<char>>, Option<Seq<char>>),
> {
    match f {
        Some(f) => Some(
            (
                match f.error_message {
                    Some(m) => Some(m@),
                    None => None,
                },
                match f.message {
                    Some(m) => Some(m@),
                    None => None,
                },
                match f.detail {
                    Some(m) => Some(m@),
                    None => None,
                },
            ),
        ),
        None => None,
    }
}

/// What `serde_json` reads of a body: `None` where it is not JSON, else the
/// cause fields that are strings.
pub uninterp spec fn spec_json_error_fields(text: Seq<char>) -> Option<
    (Option<Seq<char>>, Option<Seq<char>>, Option<Seq<char>>),
>;

/// Calls `serde_json::from_str::<serde_json::Value>` on an error body and
/// reads the string values at `error.message`, `message` and `detail`. The
/// claim is that the result depends on the text alone; the JSON grammar is
/// not stated.
#[verifier::external_body]
fn json_error_fields(text: &str) -> (r: Option<ErrorFields>)
    ensures
        error_fields_view(r) == spec_json_error_fields(text@),
{
    match serde_json::from_str::<serde_json::Value>(text) {
        Ok(value) => Some(ErrorFields {
            error_message: value.get("error").and_then(|item| item.get("message")).and_then(
                serde_json::Value::as_str,
            ).map(str::to_string),
            message: value.get("message").and_then(serde_json::Value::as_str).map(str::to_string),
            detail: value.get("detail").and_then(serde_json::Value::as_str).map(str::to_string),
        }),
        Err(_) => None,
    }
}

/// The first of the fields that is present.
pub open spec fn first_message(f: (Option<Seq<char>>, Option<Seq<char>>, Option<Seq<char>>)) -> Option<
    Seq<char>,
> {
    match f.0 {
        Some(m) => Some(m),
        None => match f.1 {
            Some(m) => Some(m),
            None => f.2,
        },
    }
}

/// The short form of an error body: its stated cause, trimmed, at most 400
/// characters; otherwise the body on one line, at most 240 characters.
/// `fields` is `None` when the body is not JSON.
pub open spec fn spec_normalize_error_text(
    text: Seq<char>,
    fields: Option<(Option<Seq<char>>, Option<Seq<char>>, Option<Seq<char>>)>,
) -> Seq<char> {
    match fields {
        Some(f) => match first_message(f) {
            Some(m) => take_chars(trim(m), 400),
            None => take_chars(blank_line_breaks(text), 240),
        },
        None => take_chars(blank_line_breaks(text), 240),
    }
}

/// The short form of an error body whose cause fields (`None` when it is not
/// JSON) are given.
pub fn normalize_error_text_with(text: &str, fields: &Option<ErrorFields>) -> (r: String)
    ensures
        r@ == spec_normalize_error_text(text@, error_fields_view(*fields)),
{
    let found: Option<&String> = match fields {
        Some(f) => match &f.error_message {
            Some(m) => Some(m),
            None => match &f.message {
                Some(m) => Some(m),
                None => match &f.detail {
                    Some(m) => Some(m),
                    None => None,
                },
            },
        },
        None => None,
    };
    match found {
        Some(m) => {
            let t = trim_str(m.as_str());
            take_str(t.as_str(), 400)
        },
        None => {
            let one_line = blank_line_breaks_str(text);
            take_str(one_line.as_str(), 240)
        },
    }
}

/// The short form of an error body.
pub fn normalize_error_text(text: &str) -> (r: String)
    ensures
        r@ == spec_normalize_error_text(text@, spec_json_error_fields(text@)),
{
    let fields = json_error_fields(text);
    normalize_error_text_with(text, &fields)
}

/// The answer text of a `chat/completions` reply, given its
/// `choices[0].message.content` string if there is one.
pub open spec fn spec_extract_chat_text(content: Option<Seq<char>>) -> Seq<char> {
    match content {
        Some(t) => trim(t),
        None => seq![],
    }
}

/// The answer text of a `chat/completions` reply.
pub fn extract_chat_text(content: Option<&str>) -> (r: String)
    ensures
        r@ == spec_extract_chat_text(
            match content {
                Some(t) => Some(t@),
                None => None,
            },
        ),
{
    match content {
        Some(t) => trim_str(t),
        None => String::new(),
    }
}

/// One entry of an output block's `content`: its `text`, `output_text` and
/// `value` strings where present.
pub struct ResponseItem {
    pub text: Option<String>,
    pub output_text: Option<String>,
    pub value: Option<String>,
}

/// One block of a `responses` reply's `output`; `content` where it is an array.
pub struct ResponseBlock {
    pub content: Option<Vec<ResponseItem>>,
}

/// What a `responses` reply says: `output_text` where it is a string and
/// `output` where it is an array.
pub struct ResponsesPayload {
    pub output_text: Option<String>,
    pub output: Option<Vec<ResponseBlock>>,
}

/// The first string of an entry.
pub open spec fn item_text(i: ResponseItem) -> Seq<char> {
    match i.text {
        Some(t) => t@,
        None => match i.output_text {
            Some(t) => t@,
            None => match i.value {
                Some(t) => t@,
                None => seq![],
            },
        },
    }
}

/// The entries' strings, concatenated.
pub open spec fn items_text(items: Seq<ResponseItem>) -> Seq<char>
    decreases items.len(),
{
    if items.len() == 0 {
        seq![]
    } else {
        items_text(items.drop_last()) + item_text(items.last())
    }
}

/// The text of one block.
pub open spec fn block_text(b: ResponseBlock) -> Seq<char> {
    match b.content {
        Some(items) => items_text(items@),
        None => seq![],
    }
}

/// The blocks' texts, concatenated.
pub open spec fn blocks_text(blocks: Seq<ResponseBlock>) -> Seq<char>
    decreases blocks.len(),
{
    if blocks.len() == 0 {
        seq![]
    } else {
        blocks_text(blocks.drop_last()) + block_text(blocks.last())
    }
}

/// The answer text of a `responses` reply: `output_text`, trimmed; else the
/// text of `output`, trimmed, unless that is blank; else nothing.
pub open spec fn spec_extract_responses_text(p: ResponsesPayload) -> Seq<char> {
    match p.output_text {
        Some(t) => trim(t@),
        None => match p.output {
            Some(blocks) => if trim(blocks_text(blocks@)).len() > 0 {
                trim(blocks_text(blocks@))
            } else {
                seq![]
            },
            None => seq![],
        },
    }
}

fn item_text_of(item: &ResponseItem) -> (r: &str)
    ensures
        r@ == item_text(*item),
{
    match &item.text {
        Some(t) => t.as_str(),
        None => match &item.output_text {
            Some(t) => t.as_str(),
            None => match &item.value {
                Some(t) => t.as_str(),
                None => {
                    proof {
                        reveal_strlit("");
                    }
                    ""
                },
            },
        },
    }
}

fn push_block_text(out: &mut String, block: &ResponseBlock)
    ensures
        final(out)@ == old(out)@ + block_text(*block),
{
    match &block.content {
        Some(items) => {
            let ghost start = out@;
            let mut k: usize = 0;
            while k < items.len()
                invariant
                    k <= items@.len(),
                    out@ == start + items_text(items@.take(k as int)),
                decreases items@.len() - k,
            {
                assert(items@.take(k + 1).drop_last() =~= items@.take(k as int));
                push_str(out, item_text_of(&items[k]));
                k = k + 1;
            }
            assert(items@.take(items@.len() as int) =~= items@);
        },
        None => {
            assert(out@ =~= old(out)@ + Seq::<char>::empty());
        },
    }
}

/// The answer text of a `responses` reply.
pub fn extract_responses_text(payload: &ResponsesPayload) -> (r: String)
    ensures
        r@ == spec_extract_responses_text(*payload),
{
    match &payload.output_text {
        Some(t) => {
            return trim_str(t.as_str());
        },
        None => {},
    }
    match &payload.output {
        Some(blocks) => {
            let mut text = String::new();
            let mut k: usize = 0;
            while k < blocks.len()
                invariant
                    k <= blocks@.len(),
                    text@ == blocks_text(blocks@.take(k as int)),
                decreases blocks@.len() - k,
            {
                assert(blocks@.take(k + 1).drop_last() =~= blocks@.take(k as int));
                push_block_text(&mut text, &blocks[k]);
                k = k + 1;
            }
            assert(blocks@.take(blocks@.len() as int) =~= blocks@);
            let t = trim_str(text.as_str());
            if !t.as_str().is_empty() {
                t
            } else {
                String::new()
            }
        },
        None => String::new(),
    }
}

/// Role and text of each message.
pub open spec fn messages_view(ms: Seq<ChatMessage>) -> Seq<(Seq<char>, Seq<char>)> {
    ms.map_values(|m: ChatMessage| (m.role@, m.content@))
}

/// The messages with text, each with its text trimmed.
pub open spec fn responses_input(ms: Seq<ChatMessage>) -> Seq<(Seq<char>, Seq<char>)>
    decreases ms.len(),
{
    if ms.len() == 0 {
        seq![]
    } else if trim(ms.last().content@).len() > 0 {
        responses_input(ms.drop_last()).push((ms.last().role@, trim(ms.last().content@)))
    } else {
        responses_input(ms.drop_last())
    }
}

/// The messages with text, each with its text trimmed.
pub fn build_responses_input(messages: &Vec<ChatMessage>) -> (r: Vec<ChatMessage>)
    ensures
        messages_view(r@) == responses_input(messages@),
{
    let mut out: Vec<ChatMessage> = Vec::new();
    let mut k: usize = 0;
    while k < messages.len()
        invariant
            k <= messages@.len(),
            messages_view(out@) == responses_input(messages@.take(k as int)),
        decreases messages@.len() - k,
    {
        assert(messages@.take(k + 1).drop_last() =~= messages@.take(k as int));
        assert(messages@.take(k + 1).last() == messages@[k as int]);
        let content = trim_str(messages[k].content.as_str());
        if !content.as_str().is_empty() {
            let ghost before = out@;
            out.push(ChatMessage { role: messages[k].role.clone(), content });
            assert(messages_view(out@) =~= messages_view(before).push(
                (messages@[k as int].role@, trim(messages@[k as int].content@)),
            ));
        }
        k = k + 1;
    }
    assert(messages@.take(messages@.len() as int) =~= messages@);
    out
}

/// The line block of each message with text: its role in capitals, a colon,
/// a line break and its trimmed text.
pub open spec fn flattened_pieces(ms: Seq<ChatMessage>) -> Seq<Seq<char>>
    decreases ms.len(),
{
    if ms.len() == 0 {
        seq![]
    } else if trim(ms.last().content@).len() > 0 {
        flattened_pieces(ms.drop_last()).push(
            spec_uppercase(ms.last().role@) + ":\n"@ + trim(ms.last().content@),
        )
    } else {
        flattened_pieces(ms.drop_last())
    }
}

/// The conversation as one text: the blocks separated by blank lines.
pub open spec fn flattened_input(ms: Seq<ChatMessage>) -> Seq<char> {
    join(flattened_pieces(ms), "\n\n"@)
}

/// The conversation as one text.
pub fn build_flattened_input(messages: &Vec<ChatMessage>) -> (r: String)
    ensures
        r@ == flattened_input(messages@),
{
    let mut out = String::new();
    let mut first = true;
    let mut k: usize = 0;
    while k < messages.len()
        invariant
            k <= messages@.len(),
            first == (flattened_pieces(messages@.take(k as int)).len() == 0),
            out@ == join(flattened_pieces(messages@.take(k as int)), "\n\n"@),
        decreases messages@.len() - k,
    {
        assert(messages@.take(k + 1).drop_last() =~= messages@.take(k as int));
        assert(messages@.take(k + 1).last() == messages@[k as int]);
        let content = trim_str(messages[k].content.as_str());
        if !content.as_str().is_empty() {
            let ghost pieces = flattened_pieces(messages@.take(k as int));
            let role = to_uppercase(messages[k].role.as_str());
            let mut piece = role;
            push_str(&mut piece, ":\n");
            push_str(&mut piece, content.as_str());
            if !first {
                push_str(&mut out, "\n\n");
            }
            push_str(&mut out, piece.as_str());
            assert(pieces.push(piece@).drop_last() =~= pieces);
            if first {
                assert(join(pieces.push(piece@), "\n\n"@) == piece@);
                assert(out@ =~= piece@);
            }
            first = false;
        }
        k = k + 1;
    }
    assert(messages@.take(messages@.len() as int) =~= messages@);
    out
}


proof fn lemma_inputs_agree(ms: Seq<ChatMessage>)
    ensures
        flattened_pieces(ms).len() == responses_input(ms).len(),
        forall|k: int| 0 <= k < flattened_pieces(ms).len() ==> #[trigger] flattened_pieces(ms)[k].len() >= 2,
        responses_input(ms).len() == 0 <==> forall|i: int| 0 <= i < ms.len() ==> trim(
            #[trigger] ms[i].content@,
        ).len() == 0,
    decreases ms.len(),
{
    reveal_strlit(":\n");
    if ms.len() > 0 {
        let rest = ms.drop_last();
        lemma_inputs_agree(rest);
        assert forall|i: int| 0 <= i < rest.len() implies rest[i] == ms[i] by {}
        if trim(ms.last().content@).len() == 0 {
            assert forall|i: int| 0 <= i < ms.len() && (forall|j: int| 0 <= j < rest.len() ==> trim(
                #[trigger] rest[j].content@,
            ).len() == 0) implies trim(#[trigger] ms[i].content@).len() == 0 by {
                if i < rest.len() {
                    assert(rest[i] == ms[i]);
                }
            }
        } else {
            assert(trim(ms[ms.len() - 1].content@).len() > 0);
        }
    }
}

/// A conversation has nothing to send to `responses` exactly when none of its
/// messages has text; otherwise both input forms are there.
pub proof fn nothing_to_send_law(ms: Seq<ChatMessage>)
    ensures
        (responses_input(ms).len() == 0 && flattened_input(ms).len() == 0) <==> forall|i: int|
            0 <= i < ms.len() ==> trim(#[trigger] ms[i].content@).len() == 0,
        responses_input(ms).len() > 0 ==> flattened_input(ms).len() > 0,
{
    lemma_inputs_agree(ms);
    let pieces = flattened_pieces(ms);
    if pieces.len() > 0 {
        assert(pieces.last().len() >= 2);
        if pieces.len() > 1 {
            assert(join(pieces, "\n\n"@).len() >= pieces.last().len());
        }
    }
}

/// One way of sending a conversation to `responses`.
pub enum ResponsesInput {
    /// One input entry per message.
    Structured(Vec<ChatMessage>),
    /// The whole conversation as one text.
    Flattened(String),
}

/// The inputs to try for `responses`, in order: the structured one, then the
/// flattened one, each where it is not empty; a failure when there is none.
pub fn responses_variants(messages: &Vec<ChatMessage>) -> (r: Result<Vec<ResponsesInput>, BotError>)
    ensures
        responses_input(messages@).len() == 0 && flattened_input(messages@).len() == 0 ==> (r matches Err(e)
            && e.message@ == "聊天接口未提供可发送内容"@),
        !(responses_input(messages@).len() == 0 && flattened_input(messages@).len() == 0) ==> (r matches Ok(v) && {
            let n_structured: int = if responses_input(messages@).len() > 0 { 1 } else { 0 };
            &&& v@.len() == n_structured + if flattened_input(messages@).len() > 0 { 1int } else { 0int }
            &&& n_structured == 1 ==> (v@[0] matches ResponsesInput::Structured(ms) && messages_view(ms@) == responses_input(messages@))
            &&& flattened_input(messages@).len() > 0 ==> (v@[n_structured] matches ResponsesInput::Flattened(t) && t@ == flattened_input(messages@))
        }),
{
    let structured = build_responses_input(messages);
    let flattened = build_flattened_input(messages);
    let mut variants: Vec<ResponsesInput> = Vec::new();
    let has_structured = structured.len() > 0;
    if has_structured {
        variants.push(ResponsesInput::Structured(structured));
    }
    if !flattened.as_str().is_empty() {
        variants.push(ResponsesInput::Flattened(flattened));
    }
    if variants.len() == 0 {
        return Err(BotError::from_str("聊天接口未提供可发送内容"));
    }
    Ok(variants)
}

/// The headers of a backend request: JSON content, the bearer token where a
/// key is set, and `Connection: close` behind the cc-switch proxy.
pub open spec fn header_list(config: AiConfig) -> Seq<(Seq<char>, Seq<char>)> {
    seq![("Content-Type"@, "application/json"@)] + (if trim(config.api_key@).len() > 0 {
        seq![("Authorization"@, "Bearer "@ + trim(config.api_key@))]
    } else {
        seq![]
    }) + (if spec_is_cc_switch_proxy(config.api_base@) {
        seq![("Connection"@, "close"@)]
    } else {
        seq![]
    })
}

/// Name and value of each header.
pub open spec fn pairs_view(v: Seq<(String, String)>) -> Seq<(Seq<char>, Seq<char>)> {
    v.map_values(|p: (String, String)| (p.0@, p.1@))
}

/// The headers of a backend request.
pub fn build_headers(config: &AiConfig) -> (r: Vec<(String, String)>)
    ensures
        pairs_view(r@) == header_list(*config),
{
    let mut headers: Vec<(String, String)> = Vec::new();
    headers.push((String::from_str("Content-Type"), String::from_str("application/json")));
    let ghost h0 = pairs_view(headers@);
    assert(h0 =~= seq![("Content-Type"@, "application/json"@)]);
    let key = trim_str(config.api_key.as_str());
    if !key.as_str().is_empty() {
        let mut bearer = String::from_str("Bearer ");
        push_str(&mut bearer, key.as_str());
        headers.push((String::from_str("Authorization"), bearer));
    }
    let ghost h1 = pairs_view(headers@);
    assert(h1 =~= h0 + (if trim(config.api_key@).len() > 0 {
        seq![("Authorization"@, "Bearer "@ + trim(config.api_key@))]
    } else {
        seq![]
    }));
    if is_cc_switch_proxy(config) {
        headers.push((String::from_str("Connection"), String::from_str("close")));
    }
    assert(pairs_view(headers@) =~= h1 + (if spec_is_cc_switch_proxy(config.api_base@) {
        seq![("Connection"@, "close"@)]
    } else {
        seq![]
    }));
    headers
}

/// A status the client treats as a failure: 400 to 599.
pub open spec fn spec_is_error_status(status: u16) -> bool {
    400 <= status <= 599
}

/// Whether the status is a client or server error.
pub fn is_error_status(status: u16) -> (b: bool)
    ensures
        b == spec_is_error_status(status),
{
    400 <= status && status <= 599
}

/// How one attempt of a backend request went wrong.
pub enum HttpOutcome {
    /// The backend answered with an error status and this body.
    ErrorStatus { status: u16, body: String },
    /// The request could not be sent; `text` describes why.
    SendFailed { text: String },
}

/// What to do after a failed attempt.
pub enum RequestStep {
    /// Wait this long, then send again.
    Retry { delay_ms: u64 },
    /// Give up with this failure.
    Fail(BotError),
}

/// The attempt (counted from 1) may be followed by another one.
pub open spec fn may_retry(config: AiConfig, attempt: u32, outcome: HttpOutcome) -> bool {
    &&& attempt < config.retry_attempts
    &&& match outcome {
        HttpOutcome::ErrorStatus { status, .. } => retryable_statuses().contains(status),
        HttpOutcome::SendFailed { text } => spec_is_retryable_text(text@),
    }
}

/// The failure an attempt ends in.
pub open spec fn outcome_error_text(outcome: HttpOutcome) -> Seq<char> {
    match outcome {
        HttpOutcome::ErrorStatus { status, body } => http_error_text(
            status as nat,
            spec_normalize_error_text(body@, spec_json_error_fields(body@)),
        ),
        HttpOutcome::SendFailed { text } => text@,
    }
}

/// The failure when a reply body is not the expected JSON.
pub fn decode_error() -> (e: BotError)
    ensures
        e.message@ == "failed to decode backend json"@,
{
    BotError::from_str("failed to decode backend json")
}

fn status_in(status: u16, list: &Vec<u16>) -> (b: bool)
    ensures
        b == list@.contains(status),
{
    let mut k: usize = 0;
    while k < list.len()
        invariant
            k <= list@.len(),
            forall|j: int| 0 <= j < k ==> list@[j] != status,
        decreases list@.len() - k,
    {
        if list[k] == status {
            assert(list@[k as int] == status);
            return true;
        }
        k = k + 1;
    }
    false
}

/// Decides what follows a failed attempt (counted from 1): another attempt
/// after `retry_delay_ms` times the attempt number when attempts are left and
/// the failure is transient, else the failure. `None` where that delay does
/// not fit in 64 bits.
pub fn request_step(config: &AiConfig, attempt: u32, outcome: HttpOutcome) -> (r: Option<RequestStep>)
    ensures
        may_retry(*config, attempt, outcome) ==> (if config.retry_delay_ms * attempt <= u64::MAX {
            r matches Some(RequestStep::Retry { delay_ms }) && delay_ms == config.retry_delay_ms * attempt
        } else {
            r is None
        }),
        !may_retry(*config, attempt, outcome) ==> (r matches Some(RequestStep::Fail(e))
            && e.message@ == outcome_error_text(outcome)),
{
    let (retryable, error) = match outcome {
        HttpOutcome::ErrorStatus { status, body } => {
            let detail = normalize_error_text(body.as_str());
            (status_in(status, &retryable_status_list()), http_error(status, detail.as_str()))
        },
        HttpOutcome::SendFailed { text } => {
            (is_retryable_text(text.as_str()), BotError { message: text })
        },
    };
    if attempt < config.retry_attempts && retryable {
        match config.retry_delay_ms.checked_mul(attempt as u64) {
            Some(d) => Some(RequestStep::Retry { delay_ms: d }),
            None => None,
        }
    } else {
        Some(RequestStep::Fail(error))
    }
}

/// The attempts of one transport: for each input form in turn, each model
/// candidate in turn, whatever the failures; the first attempt that returns
/// text ends them. `(form, candidate)` is the attempt to make next.
pub struct AttemptSeries {
    pub forms: usize,
    pub candidates: usize,
    pub form: usize,
    pub candidate: usize,
    pub last_error: Option<BotError>,
}

/// The attempt that follows `(form, candidate)`: the next candidate of the same
/// form, or the first candidate of the next form.
pub open spec fn following_attempt(form: int, candidate: int, candidates: int) -> (int, int) {
    if candidate + 1 < candidates {
        (form, candidate + 1)
    } else {
        (form + 1, 0)
    }
}

impl AttemptSeries {
    /// A series over `forms` input forms and `candidates` models, starting with
    /// the first candidate of the first form.
    pub fn new(forms: usize, candidates: usize) -> (s: AttemptSeries)
        ensures
            s.forms == forms,
            s.candidates == candidates,
            s.form == 0,
            s.candidate == 0,
            s.last_error is None,
    {
        AttemptSeries { forms, candidates, form: 0, candidate: 0, last_error: None }
    }

    /// The attempt to make next, as (input form, model candidate); `None` when
    /// every candidate of every form has been tried.
    pub fn next_attempt(&self) -> (r: Option<(usize, usize)>)
        ensures
            self.form < self.forms && self.candidate < self.candidates ==> r == Some(
                (self.form, self.candidate),
            ),
            !(self.form < self.forms && self.candidate < self.candidates) ==> r is None,
    {
        if self.form < self.forms && self.candidate < self.candidates {
            Some((self.form, self.candidate))
        } else {
            None
        }
    }

    /// Takes in the answer text or failure of the attempt at `(form,
    /// candidate)`: a non-empty text is the result (`Some`); an empty one, or a
    /// failure, is remembered, and the series moves on to the following attempt.
    pub fn record_attempt(&mut self, outcome: Result<String, BotError>) -> (r: Option<String>)
        requires
            old(self).form < old(self).forms,
            old(self).candidate < old(self).candidates,
        ensures
            final(self).forms == old(self).forms,
            final(self).candidates == old(self).candidates,
            outcome matches Ok(t) ==> (t@.len() > 0 ==> r == Some(t) && final(self).last_error
                == old(self).last_error && final(self).form == old(self).form && final(self).candidate
                == old(self).candidate),
            outcome matches Ok(t) ==> (t@.len() == 0 ==> (r is None && (final(self).last_error matches Some(
                e,
            ) && e.message@ == "聊天接口未返回可用文本"@))),
            outcome matches Err(err) ==> (r is None && (final(self).last_error matches Some(e)
                && e.message@ == err.message@)),
            r is None ==> (final(self).form as int, final(self).candidate as int) == following_attempt(
                old(self).form as int,
                old(self).candidate as int,
                old(self).candidates as int,
            ),
    {
        let r = match outcome {
            Ok(text) => {
                if !text.as_str().is_empty() {
                    return Some(text);
                } else {
                    self.last_error = Some(BotError::from_str("聊天接口未返回可用文本"));
                    None
                }
            },
            Err(e) => {
                self.last_error = Some(e);
                None
            },
        };
        if self.candidate + 1 < self.candidates {
            self.candidate = self.candidate + 1;
        } else {
            self.form = self.form + 1;
            self.candidate = 0;
        }
        r
    }

    /// The failure of a series that produced no text: the last attempt's, or
    /// `default` when there was none.
    pub fn finish(self, default: &str) -> (e: BotError)
        ensures
            self.last_error matches Some(l) ==> e.message@ == l.message@,
            self.last_error is None ==> e.message@ == default@,
    {
        match self.last_error {
            Some(e) => e,
            None => BotError::from_str(default),
        }
    }
}

/// Where the `k`-th attempt (from 0) of a series with `candidates` models
/// stands: each attempt follows the one before as `record_attempt` moves on.
pub open spec fn attempt_position(candidates: int, k: nat) -> (int, int)
    decreases k,
{
    if k == 0 {
        (0, 0)
    } else {
        let p = attempt_position(candidates, (k - 1) as nat);
        following_attempt(p.0, p.1, candidates)
    }
}

proof fn lemma_step_position(k: nat, c: nat)
    requires
        c > 0,
    ensures
        following_attempt((k / c) as int, (k % c) as int, c as int) == (((k + 1) / c) as int, ((k + 1) % c) as int),
{
    assert((k % c) + 1 < c ==> (k + 1) / c == k / c && (k + 1) % c == (k % c) + 1) by (nonlinear_arith)
        requires
            c > 0,
    ;
    assert((k % c) + 1 >= c ==> (k + 1) / c == k / c + 1 && (k + 1) % c == 0) by (nonlinear_arith)
        requires
            c > 0,
    ;
}

/// A series tries every candidate of every input form once, in order, form by
/// form, whatever the failures, until one returns text: attempt number `k`
/// (from 0) is candidate `k % candidates` of form `k / candidates`.
pub proof fn attempt_order_law(candidates: usize, k: nat)
    requires
        candidates > 0,
    ensures
        attempt_position(candidates as int, k) == ((k / (candidates as nat)) as int, (k % (candidates as nat)) as int),
    decreases k,
{
    let c = candidates as nat;
    if k > 0 {
        let j = (k - 1) as nat;
        attempt_order_law(candidates, j);
        lemma_step_position(j, c);
        assert(j + 1 == k);
    } else {
        assert(0nat / c == 0 && 0nat % c == 0) by (nonlinear_arith)
            requires
                c > 0,
        ;
    }
}

/// An attempt is followed by another one only while fewer than
/// `retry_attempts` attempts have been made.
pub proof fn retry_bound_law(config: AiConfig, attempt: u32, outcome: HttpOutcome)
    ensures
        may_retry(config, attempt, outcome) ==> attempt < config.retry_attempts,
        config.retry_attempts <= 1 && attempt >= 1 ==> !may_retry(config, attempt, outcome),
{
}

/// The short form of an error body is at most 400 characters long.
pub proof fn normalized_error_length_law(
    text: Seq<char>,
    fields: Option<(Option<Seq<char>>, Option<Seq<char>>, Option<Seq<char>>)>,
)
    ensures
        spec_normalize_error_text(text, fields).len() <= 400,
{
}

/// The default backend settings pass validation.
pub proof fn default_ai_config_valid_law(config: AiConfig)
    requires
        crate::defaults::is_default_ai(config),
    ensures
        validation_error(config) is None,
{
    reveal_strlit("http://127.0.0.1:15721/v1");
    reveal_strlit("gpt-5.4-mini");
    let b = config.api_base@;
    let m = config.model@;
    assert(!crate::text::is_ws(b[0]) && !crate::text::is_ws(b.last()));
    assert(!crate::text::is_ws(m[0]) && !crate::text::is_ws(m.last()));
    assert(crate::text::trim_start(b) == b);
    assert(crate::text::trim_start(m) == m);
}

/// A failure text names a network fault exactly when, lowercased, it contains
/// one of `timeout`, `timed out`, `network`, `socket`, `econnreset`,
/// `enotfound`, `eai_again`.
pub proof fn network_fault_law(msg: Seq<char>)
    ensures
        spec_is_retryable_text(msg) <==> (contains(spec_lowercase(msg), "timeout"@) || contains(spec_lowercase(msg), "timed out"@) || contains(spec_lowercase(msg), "network"@) || contains(spec_lowercase(msg), "socket"@) || contains(spec_lowercase(msg), "econnreset"@) || contains(spec_lowercase(msg), "enotfound"@) || contains(spec_lowercase(msg), "eai_again"@)),
{
}

/// Every request sends JSON; it carries the trimmed API key as a bearer token
/// exactly when that key is not blank, and asks to close the connection
/// exactly behind the cc-switch proxy.
pub proof fn request_headers_law(config: AiConfig)
    ensures
        header_list(config).len() >= 1,
        header_list(config)[0] == ("Content-Type"@, "application/json"@),
        header_list(config).contains(("Authorization"@, "Bearer "@ + trim(config.api_key@))) <== trim(
            config.api_key@,
        ).len() > 0,
        trim(config.api_key@).len() == 0 ==> forall|i: int|
            0 <= i < header_list(config).len() ==> (#[trigger] header_list(config)[i]).0 != "Authorization"@,
        header_list(config).len() == 1 + (if trim(config.api_key@).len() > 0 {
            1int
        } else {
            0int
        }) + (if spec_is_cc_switch_proxy(config.api_base@) {
            1int
        } else {
            0int
        }),
{
    reveal_strlit("Content-Type");
    reveal_strlit("Authorization");
    reveal_strlit("Connection");
    let h = header_list(config);
    if trim(config.api_key@).len() > 0 {
        assert(h[1] == ("Authorization"@, "Bearer "@ + trim(config.api_key@)));
    } else {
        assert forall|i: int| 0 <= i < h.len() implies (#[trigger] h[i]).0 != "Authorization"@ by {
            if i == 0 {
                assert("Content-Type"@[0] != "Authorization"@[0]);
            } else {
                assert("Connection"@[1] != "Authorization"@[1]);
            }
        }
    }
}

} // verus!
