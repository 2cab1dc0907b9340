//! The chat client's state and the decisions of each request.
//!
//! The client waits on the network, so the loops that drive a request stand
//! outside the library: they ask the functions here what to do next, perform
//! it, and hand back what happened. Time is a millisecond reading of a
//! monotonic clock, taken by the caller.
use vstd::prelude::*;
use vstd::string::*;
use crate::config::AiConfig;
use crate::error::BotError;
use crate::http::{effective_timeout_ms, http_client};
use crate::openai::{
    is_cc_switch_proxy, is_retryable_error, resolve_model, resolved_model,
    should_fallback_transport, spec_is_cc_switch_proxy, spec_is_retryable_error,
    spec_should_fallback, validate, validation_error,
};

verus! {

/// The two ways of asking the backend for text.
#[derive(Clone, Copy, Debug, PartialEq, Eq, Structural)]
pub enum Transport {
    /// `chat/completions`
    Chat,
    /// `responses`
    Responses,
}

/// The order in which the transports are tried: the cc-switch proxy prefers
/// `responses`.
pub open spec fn transport_order(cc_switch: bool) -> Seq<Transport> {
    if cc_switch {
        seq![Transport::Responses, Transport::Chat]
    } else {
        seq![Transport::Chat, Transport::Responses]
    }
}

/// The transports in the order they are tried.
pub fn transport_list(cc_switch: bool) -> (v: Vec<Transport>)
    ensures
        v@ == transport_order(cc_switch),
{
    if cc_switch {
        vec![Transport::Responses, Transport::Chat]
    } else {
        vec![Transport::Chat, Transport::Responses]
    }
}

/// One request in progress: its settings and how far it has got.
pub struct CompleteRun {
    pub model: String,
    pub temperature_bits: u32,
    pub max_tokens: u32,
    pub order: Vec<Transport>,
    /// Index in `order` of the transport being tried.
    pub index: usize,
    pub last_error: Option<BotError>,
}

/// The client: its configuration and what it remembers of past failures.
pub struct OpenAiCompatClient {
    /// The HTTP client requests are sent with.
    pub http: reqwest::Client,
    pub config: AiConfig,
    /// Until when (clock reading) requests are refused.
    pub cooldown_until_ms: Option<u64>,
    /// The failure that started the cooldown.
    pub cooldown_reason: String,
    /// Requests in a row that ended in a retryable failure.
    pub retryable_failure_streak: u32,
    /// Until when the `chat` transport is skipped.
    pub chat_suppressed_until_ms: Option<u64>,
    /// Until when the `responses` transport is skipped.
    pub responses_suppressed_until_ms: Option<u64>,
}

/// How long the `chat` transport is skipped after it failed behind the proxy.
pub open spec fn chat_suppression_ms() -> u64 {
    600_000
}

/// Text of the refusal during a cooldown.
pub open spec fn cooldown_text(reason: Seq<char>) -> Seq<char> {
    "聊天接口暂时不可用，已进入冷却："@ + reason
}

impl OpenAiCompatClient {
    /// A client with no failure history.
    pub fn new(config: AiConfig) -> (r: Result<OpenAiCompatClient, BotError>)
        ensures
            r matches Ok(c) ==> {
                &&& c.config == config
                &&& c.cooldown_until_ms is None
                &&& c.cooldown_reason@.len() == 0
                &&& c.retryable_failure_streak == 0
                &&& c.chat_suppressed_until_ms is None
                &&& c.responses_suppressed_until_ms is None
            },
    {
        let timeout = effective_timeout_ms(config.request_timeout_ms);
        Self::from_http(config, http_client(timeout))
    }

    /// A client with no failure history around the outcome of building its
    /// HTTP client: that client, or the failure to build it.
    pub fn from_http(config: AiConfig, http: Result<reqwest::Client, BotError>) -> (r: Result<
        OpenAiCompatClient,
        BotError,
    >)
        ensures
            http matches Ok(h) ==> r matches Ok(c) && {
                &&& c.http == h
                &&& c.config == config
                &&& c.cooldown_until_ms is None
                &&& c.cooldown_reason@.len() == 0
                &&& c.retryable_failure_streak == 0
                &&& c.chat_suppressed_until_ms is None
                &&& c.responses_suppressed_until_ms is None
            },
            http matches Err(e) ==> r matches Err(x) && x.message@ == e.message@,
    {
        match http {
            Ok(http) => Ok(
                OpenAiCompatClient {
                    http,
                    config,
                    cooldown_until_ms: None,
                    cooldown_reason: String::new(),
                    retryable_failure_streak: 0,
                    chat_suppressed_until_ms: None,
                    responses_suppressed_until_ms: None,
                },
            ),
            Err(e) => Err(e),
        }
    }

    /// Until when a transport is skipped.
    pub open spec fn suppressed_until(&self, t: Transport) -> Option<u64> {
        match t {
            Transport::Chat => self.chat_suppressed_until_ms,
            Transport::Responses => self.responses_suppressed_until_ms,
        }
    }

    /// The transport is skipped at `now`.
    pub open spec fn is_suppressed(&self, t: Transport, now: u64) -> bool {
        match self.suppressed_until(t) {
            Some(u) => now < u,
            None => false,
        }
    }

    /// The first index at or after `i` whose transport is not skipped, or the
    /// length of `order` when there is none.
    pub open spec fn next_open_index(&self, order: Seq<Transport>, i: int, now: u64) -> int
        decreases order.len() - i,
    {
        if i < order.len() && self.is_suppressed(order[i], now) {
            self.next_open_index(order, i + 1, now)
        } else {
            i
        }
    }

    /// Requests are refused at `now` because of an earlier run of failures.
    pub open spec fn in_cooldown(&self, now: u64) -> bool {
        match self.cooldown_until_ms {
            Some(u) => now < u,
            None => false,
        }
    }

    /// `new` is `old` after a request ended in the failure `msg` at `now`: a
    /// retryable failure extends the streak and, at the threshold, starts a
    /// cooldown; any other failure ends the streak.
    pub open spec fn failure_recorded(old: Self, new: Self, msg: Seq<char>, now: u64) -> bool {
        &&& new.config == old.config
        &&& new.http == old.http
        &&& new.chat_suppressed_until_ms == old.chat_suppressed_until_ms
        &&& new.responses_suppressed_until_ms == old.responses_suppressed_until_ms
        &&& if spec_is_retryable_error(msg) {
            &&& new.retryable_failure_streak == old.retryable_failure_streak + 1
            &&& if new.retryable_failure_streak >= old.config.failure_cooldown_threshold {
                &&& new.cooldown_until_ms == Some(
                    if now + old.config.failure_cooldown_ms <= u64::MAX {
                        (now + old.config.failure_cooldown_ms) as u64
                    } else {
                        u64::MAX
                    },
                )
                &&& new.cooldown_reason@ == msg
            } else {
                &&& new.cooldown_until_ms == old.cooldown_until_ms
                &&& new.cooldown_reason@ == old.cooldown_reason@
            }
        } else {
            &&& new.retryable_failure_streak == 0
            &&& new.cooldown_until_ms == old.cooldown_until_ms
            &&& new.cooldown_reason@ == old.cooldown_reason@
        }
    }

    /// `new` is `old` after a request succeeded: no streak and no cooldown.
    pub open spec fn success_recorded(old: Self, new: Self) -> bool {
        &&& new.config == old.config
        &&& new.http == old.http
        &&& new.chat_suppressed_until_ms == old.chat_suppressed_until_ms
        &&& new.responses_suppressed_until_ms == old.responses_suppressed_until_ms
        &&& new.retryable_failure_streak == 0
        &&& new.cooldown_until_ms is None
        &&& new.cooldown_reason@.len() == 0
    }

    fn transport_suppressed(&self, t: Transport, now_ms: u64) -> (b: bool)
        ensures
            b == self.is_suppressed(t, now_ms),
    {
        let until = match t {
            Transport::Chat => self.chat_suppressed_until_ms,
            Transport::Responses => self.responses_suppressed_until_ms,
        };
        match until {
            Some(u) => now_ms < u,
            None => false,
        }
    }

    /// Starts a text request: refuses a bad configuration, then a request
    /// during a cooldown; otherwise fixes the model, temperature, token limit
    /// and transport order. The client's state is not changed.
    pub fn start_complete(
        &self,
        now_ms: u64,
        model: Option<&str>,
        temperature_bits: Option<u32>,
        max_tokens: Option<u32>,
    ) -> (r: Result<CompleteRun, BotError>)
        ensures
            validation_error(self.config) matches Some(m) ==> r matches Err(e) && e.message@ == m,
            validation_error(self.config) is None && self.in_cooldown(now_ms) ==> (r matches Err(e)
                && e.message@ == cooldown_text(self.cooldown_reason@)),
            validation_error(self.config) is None && !self.in_cooldown(now_ms) ==> (r matches Ok(
                run,
            ) && {
                &&& run.model@ == resolved_model(
                    match model {
                        Some(m) => Some(m@),
                        None => None,
                    },
                    self.config.model@,
                )
                &&& run.temperature_bits == match temperature_bits {
                    Some(t) => t,
                    None => self.config.temperature_bits,
                }
                &&& run.max_tokens == match max_tokens {
                    Some(t) => t,
                    None => self.config.max_tokens,
                }
                &&& run.order@ == transport_order(spec_is_cc_switch_proxy(self.config.api_base@))
                &&& run.index == 0
                &&& run.last_error is None
            }),
    {
        match validate(&self.config) {
            Err(e) => {
                return Err(e);
            },
            Ok(()) => {},
        }
        match self.cooldown_until_ms {
            Some(until) => {
                if now_ms < until {
                    return Err(
                        BotError::with_detail(
                            "聊天接口暂时不可用，已进入冷却：",
                            self.cooldown_reason.as_str(),
                        ),
                    );
                }
            },
            None => {},
        }
        self.start_run(model, temperature_bits, max_tokens)
    }

    fn start_run(
        &self,
        model: Option<&str>,
        temperature_bits: Option<u32>,
        max_tokens: Option<u32>,
    ) -> (r: Result<CompleteRun, BotError>)
        ensures
            r matches Ok(run) && {
                &&& run.model@ == resolved_model(
                    match model {
                        Some(m) => Some(m@),
                        None => None,
                    },
                    self.config.model@,
                )
                &&& run.temperature_bits == match temperature_bits {
                    Some(t) => t,
                    None => self.config.temperature_bits,
                }
                &&& run.max_tokens == match max_tokens {
                    Some(t) => t,
                    None => self.config.max_tokens,
                }
                &&& run.order@ == transport_order(spec_is_cc_switch_proxy(self.config.api_base@))
                &&& run.index == 0
                &&& run.last_error is None
            },
    {
        let model = resolve_model(model, &self.config.model);
        let temperature_bits = match temperature_bits {
            Some(t) => t,
            None => self.config.temperature_bits,
        };
        let max_tokens = match max_tokens {
            Some(t) => t,
            None => self.config.max_tokens,
        };
        let order = transport_list(is_cc_switch_proxy(&self.config));
        Ok(CompleteRun { model, temperature_bits, max_tokens, order, index: 0, last_error: None })
    }

    /// The next transport to try, skipping those suppressed at `now`; `None`
    /// when none is left.
    pub fn next_transport(&self, run: &mut CompleteRun, now_ms: u64) -> (t: Option<Transport>)
        requires
            old(run).index <= old(run).order@.len(),
        ensures
            final(run).model == old(run).model,
            final(run).temperature_bits == old(run).temperature_bits,
            final(run).max_tokens == old(run).max_tokens,
            final(run).order == old(run).order,
            final(run).last_error == old(run).last_error,
            final(run).index == self.next_open_index(old(run).order@, old(run).index as int, now_ms),
            final(run).index < final(run).order@.len() ==> t == Some(
                final(run).order@[final(run).index as int],
            ),
            final(run).index >= final(run).order@.len() ==> t is None,
    {
        while run.index < run.order.len() && self.transport_suppressed(run.order[run.index], now_ms)
            invariant
                run.index <= run.order@.len(),
                run.model == old(run).model,
                run.temperature_bits == old(run).temperature_bits,
                run.max_tokens == old(run).max_tokens,
                run.order == old(run).order,
                run.last_error == old(run).last_error,
                self.next_open_index(old(run).order@, old(run).index as int, now_ms)
                    == self.next_open_index(run.order@, run.index as int, now_ms),
            decreases run.order@.len() - run.index,
        {
            run.index = run.index + 1;
        }
        if run.index < run.order.len() {
            Some(run.order[run.index])
        } else {
            None
        }
    }

    fn account_failure(&mut self, error: BotError, now_ms: u64) -> (e: BotError)
        requires
            old(self).retryable_failure_streak < u32::MAX,
        ensures
            e.message@ == error.message@,
            Self::failure_recorded(*old(self), *final(self), error.message@, now_ms),
    {
        if is_retryable_error(&error) {
            self.retryable_failure_streak = self.retryable_failure_streak + 1;
            if self.retryable_failure_streak >= self.config.failure_cooldown_threshold {
                self.cooldown_until_ms = Some(now_ms.saturating_add(self.config.failure_cooldown_ms));
                self.cooldown_reason = error.message.clone();
            }
        } else {
            self.retryable_failure_streak = 0;
        }
        error
    }

    /// Takes in what the transport at `run.index` returned. A text ends the
    /// request and clears the failure history. A failure behind the proxy that
    /// allows fallback suppresses `chat` for ten minutes when it came from
    /// `chat`; it moves on to the next transport when there is one and the
    /// failure allows fallback, and otherwise ends the request, counted in the
    /// failure history. `None` means: go on.
    pub fn record_transport(
        &mut self,
        run: &mut CompleteRun,
        now_ms: u64,
        result: Result<String, BotError>,
    ) -> (r: Option<Result<String, BotError>>)
        requires
            old(run).index < old(run).order@.len(),
            old(self).retryable_failure_streak < u32::MAX,
        ensures
            result matches Ok(text) ==> {
                &&& r == Some(Ok::<String, BotError>(text))
                &&& Self::success_recorded(*old(self), *final(self))
                &&& *final(run) == *old(run)
            },
            result matches Err(err) ==> {
                let moved_on = old(run).index + 1 < old(run).order@.len() && spec_should_fallback(
                    err.message@,
                );
                let suppress = old(run).order@[old(run).index as int] == Transport::Chat
                    && spec_is_cc_switch_proxy(old(self).config.api_base@) && spec_should_fallback(
                    err.message@,
                );
                let mid = OpenAiCompatClient {
                    chat_suppressed_until_ms: if suppress {
                        Some(
                            if now_ms + chat_suppression_ms() <= u64::MAX {
                                (now_ms + chat_suppression_ms()) as u64
                            } else {
                                u64::MAX
                            },
                        )
                    } else {
                        old(self).chat_suppressed_until_ms
                    },
                    ..*old(self)
                };
                &&& moved_on ==> {
                    &&& r is None
                    &&& *final(self) == mid
                    &&& final(run).index == old(run).index + 1
                    &&& final(run).last_error matches Some(e) && e.message@ == err.message@
                    &&& final(run).model == old(run).model
                    &&& final(run).temperature_bits == old(run).temperature_bits
                    &&& final(run).max_tokens == old(run).max_tokens
                    &&& final(run).order == old(run).order
                }
                &&& !moved_on ==> {
                    &&& r matches Some(Err(e)) && e.message@ == err.message@
                    &&& Self::failure_recorded(mid, *final(self), err.message@, now_ms)
                }
            },
    {
        match result {
            Ok(text) => {
                self.retryable_failure_streak = 0;
                self.cooldown_until_ms = None;
                self.cooldown_reason = String::new();
                Some(Ok(text))
            },
            Err(error) => {
                let transport = run.order[run.index];
                let fallback = should_fallback_transport(&error);
                if transport == Transport::Chat && is_cc_switch_proxy(&self.config) && fallback {
                    self.chat_suppressed_until_ms = Some(now_ms.saturating_add(600_000));
                }
                if run.index < run.order.len() - 1 && fallback {
                    run.index = run.index + 1;
                    run.last_error = Some(error);
                    None
                } else {
                    let e = self.account_failure(error, now_ms);
                    Some(Err(e))
                }
            },
        }
    }

    /// Ends a request that ran out of transports: its last failure, or a
    /// generic one when every transport was skipped, counted in the failure
    /// history.
    pub fn finish_complete(&mut self, run: CompleteRun, now_ms: u64) -> (e: BotError)
        requires
            old(self).retryable_failure_streak < u32::MAX,
        ensures
            run.last_error matches Some(l) ==> e.message@ == l.message@,
            run.last_error is None ==> e.message@ == "unknown chat backend error"@,
            Self::failure_recorded(*old(self), *final(self), e.message@, now_ms),
    {
        let error = match run.last_error {
            Some(e) => e,
            None => BotError::from_str("unknown chat backend error"),
        };
        self.account_failure(error, now_ms)
    }

    /// Starts an image request: refuses a bad configuration, otherwise fixes
    /// the model, temperature, token limit and transport order.
    pub fn start_image(
        &self,
        model: Option<&str>,
        temperature_bits: Option<u32>,
        max_tokens: Option<u32>,
    ) -> (r: Result<CompleteRun, BotError>)
        ensures
            validation_error(self.config) matches Some(m) ==> r matches Err(e) && e.message@ == m,
            validation_error(self.config) is None ==> (r matches Ok(run) && {
                &&& run.model@ == resolved_model(
                    match model {
                        Some(m) => Some(m@),
                        None => None,
                    },
                    self.config.model@,
                )
                &&& run.temperature_bits == match temperature_bits {
                    Some(t) => t,
                    None => self.config.temperature_bits,
                }
                &&& run.max_tokens == match max_tokens {
                    Some(t) => t,
                    None => self.config.max_tokens,
                }
                &&& run.order@ == transport_order(spec_is_cc_switch_proxy(self.config.api_base@))
                &&& run.index == 0
                &&& run.last_error is None
            }),
    {
        match validate(&self.config) {
            Err(e) => {
                return Err(e);
            },
            Ok(()) => {},
        }
        self.start_run(model, temperature_bits, max_tokens)
    }
}

/// A request that ends in a retryable failure which brings the streak to the
/// threshold starts a cooldown: from then until `failure_cooldown_ms` later,
/// requests are refused with that failure as the reason, and afterwards they
/// are taken again.
pub proof fn cooldown_after_threshold_law(
    old: OpenAiCompatClient,
    new: OpenAiCompatClient,
    msg: Seq<char>,
    now: u64,
    later: u64,
)
    requires
        OpenAiCompatClient::failure_recorded(old, new, msg, now),
        spec_is_retryable_error(msg),
        old.retryable_failure_streak + 1 >= old.config.failure_cooldown_threshold,
        now + old.config.failure_cooldown_ms <= u64::MAX,
        now <= later,
    ensures
        new.retryable_failure_streak == old.retryable_failure_streak + 1,
        new.cooldown_reason@ == msg,
        later < now + old.config.failure_cooldown_ms ==> new.in_cooldown(later),
        later >= now + old.config.failure_cooldown_ms ==> !new.in_cooldown(later),
{
}

/// A retryable failure below the threshold leaves the cooldown as it was,
/// and any other failure ends the streak.
pub proof fn failure_below_threshold_law(
    old: OpenAiCompatClient,
    new: OpenAiCompatClient,
    msg: Seq<char>,
    now: u64,
    t: u64,
)
    requires
        OpenAiCompatClient::failure_recorded(old, new, msg, now),
    ensures
        spec_is_retryable_error(msg) && old.retryable_failure_streak + 1
            < old.config.failure_cooldown_threshold ==> new.in_cooldown(t) == old.in_cooldown(t),
        !spec_is_retryable_error(msg) ==> new.retryable_failure_streak == 0 && new.in_cooldown(t)
            == old.in_cooldown(t),
{
}

/// After a request that returned text, no request is refused for a cooldown
/// and the failure streak starts over.
pub proof fn success_clears_cooldown_law(old: OpenAiCompatClient, new: OpenAiCompatClient, t: u64)
    requires
        OpenAiCompatClient::success_recorded(old, new),
    ensures
        !new.in_cooldown(t),
        new.retryable_failure_streak == 0,
{
}

/// Both transports are tried, each once, in the order the proxy setting picks.
pub proof fn transport_order_law(cc_switch: bool)
    ensures
        transport_order(cc_switch).len() == 2,
        transport_order(cc_switch).contains(Transport::Chat),
        transport_order(cc_switch).contains(Transport::Responses),
        transport_order(cc_switch)[0] != transport_order(cc_switch)[1],
        transport_order(cc_switch)[0] == if cc_switch {
            Transport::Responses
        } else {
            Transport::Chat
        },
{
    let o = transport_order(cc_switch);
    assert(o[0] == Transport::Chat || o[1] == Transport::Chat);
    assert(o[0] == Transport::Responses || o[1] == Transport::Responses);
}

/// Takes in what the transport at `run.index` returned for an image request:
/// a text ends it; a failure moves on to the next transport when there is one
/// and the failure allows fallback, and otherwise ends it. `None` means: go on.
pub fn record_image_transport(run: &mut CompleteRun, result: Result<String, BotError>) -> (r: Option<
    Result<String, BotError>,
>)
    requires
        old(run).index < old(run).order@.len(),
    ensures
        result matches Ok(text) ==> r == Some(Ok::<String, BotError>(text)) && *final(run) == *old(
            run,
        ),
        result matches Err(err) ==> {
            let moved_on = old(run).index + 1 < old(run).order@.len() && spec_should_fallback(
                err.message@,
            );
            &&& moved_on ==> {
                &&& r is None
                &&& final(run).index == old(run).index + 1
                &&& final(run).last_error matches Some(e) && e.message@ == err.message@
                &&& final(run).model == old(run).model
                &&& final(run).temperature_bits == old(run).temperature_bits
                &&& final(run).max_tokens == old(run).max_tokens
                &&& final(run).order == old(run).order
            }
            &&& !moved_on ==> (r matches Some(Err(e)) && e.message@ == err.message@)
        },
{
    match result {
        Ok(text) => Some(Ok(text)),
        Err(error) => {
            if run.index < run.order.len() - 1 && should_fallback_transport(&error) {
                run.index = run.index + 1;
                run.last_error = Some(error);
                None
            } else {
                Some(Err(error))
            }
        },
    }
}

/// Ends an image request that ran out of transports.
pub fn finish_image(run: CompleteRun) -> (e: BotError)
    ensures
        run.last_error matches Some(l) ==> e.message@ == l.message@,
        run.last_error is None ==> e.message@ == "image completion failed"@,
{
    match run.last_error {
        Some(e) => e,
        None => BotError::from_str("image completion failed"),
    }
}

} // verus!
