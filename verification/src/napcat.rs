//! The NapCat side: message payloads, the event stream's framing, replies of
//! the HTTP API, and the reconnect delay.
use vstd::prelude::*;
use vstd::string::*;
use crate::config::NapcatConfig;
use crate::error::BotError;
use crate::http::{effective_timeout_ms, http_client};
use crate::text::{
    chars_of, decimal, find_first, first_index_from, join, push_decimal, push_str, starts_with,
    str_eq, str_starts_with, string_of, string_push, strings_view, take_chars, take_str, trim_end_char,
    trim_end_char_str, trim_start, trim_start_char, trim_start_char_str,
};

verus! {

#[verifier::external_type_specification]
#[verifier::external_body]
pub struct ExJsonValue(serde_json::Value);

/// The client of the NapCat HTTP API.
pub struct NapcatClient {
    pub http: reqwest::Client,
    pub config: NapcatConfig,
}

impl NapcatClient {
    /// A client for the configured API.
    pub fn new(config: NapcatConfig) -> (r: Result<NapcatClient, BotError>)
        ensures
            r matches Ok(c) ==> c.config == config,
    {
        let timeout = effective_timeout_ms(config.request_timeout_ms);
        Self::from_http(config, http_client(timeout))
    }

    /// A client around the outcome of building its HTTP client: that client,
    /// or the failure to build it.
    pub fn from_http(config: NapcatConfig, http: Result<reqwest::Client, BotError>) -> (r: Result<
        NapcatClient,
        BotError,
    >)
        ensures
            http matches Ok(h) ==> r matches Ok(c) && c.http == h && c.config == config,
            http matches Err(e) ==> r matches Err(x) && x.message@ == e.message@,
    {
        match http {
            Ok(http) => Ok(NapcatClient { http, config }),
            Err(e) => Err(e),
        }
    }
}

/// `base` and `path` joined by exactly the one slash between them.
pub open spec fn spec_join_url(base: Seq<char>, path: Seq<char>) -> Seq<char> {
    trim_end_char(base, '/') + "/"@ + trim_start_char(path, '/')
}

/// `base` and `path` joined by one slash.
pub fn join_url(base: &str, path: &str) -> (r: String)
    ensures
        r@ == spec_join_url(base@, path@),
{
    let mut r = trim_end_char_str(base, '/');
    push_str(&mut r, "/");
    let p = trim_start_char_str(path, '/');
    push_str(&mut r, p.as_str());
    r
}

/// The first `limit` characters of `text`.
pub fn truncate(text: &str, limit: usize) -> (r: String)
    ensures
        r@ == take_chars(text@, limit as nat),
{
    take_str(text, limit)
}

/// One part of a group message.
pub enum MessageSegment {
    /// A reply to the message with this id.
    Reply { id: String },
    /// Plain text.
    Text { text: String },
}

/// The parts of a group message: the reply marker, when replying, then the text.
pub fn group_message_segments(text: &str, reply_to_message_id: Option<&str>) -> (r: Vec<
    MessageSegment,
>)
    ensures
        reply_to_message_id matches Some(id) ==> {
            &&& r@.len() == 2
            &&& r@[0] matches MessageSegment::Reply { id: rid } && rid@ == id@
            &&& r@[1] matches MessageSegment::Text { text: t } && t@ == text@
        },
        reply_to_message_id is None ==> {
            &&& r@.len() == 1
            &&& r@[0] matches MessageSegment::Text { text: t } && t@ == text@
        },
{
    let mut message: Vec<MessageSegment> = Vec::new();
    match reply_to_message_id {
        Some(id) => message.push(MessageSegment::Reply { id: String::from_str(id) }),
        None => {},
    }
    message.push(MessageSegment::Text { text: String::from_str(text) });
    message
}

/// The wait before reconnecting to the event stream: back to two seconds after
/// a stream that ended cleanly, doubled (at most thirty) after a failure.
pub open spec fn spec_next_backoff(backoff: u64, failed: bool) -> u64 {
    if !failed {
        2
    } else if 2 * backoff <= 30 {
        (2 * backoff) as u64
    } else {
        30
    }
}

/// The wait, in seconds, before reconnecting to the event stream.
pub fn next_backoff(backoff: u64, failed: bool) -> (r: u64)
    requires
        failed ==> 2 * backoff <= u64::MAX,
    ensures
        r == spec_next_backoff(backoff, failed),
{
    if !failed {
        2
    } else {
        let doubled = backoff * 2;
        if doubled <= 30 {
            doubled
        } else {
            30
        }
    }
}

/// The first event block of the stream buffer, if a blank line has arrived:
/// the text before the first `"\n\n"` and the text after it.
pub open spec fn spec_take_sse_block(buffer: Seq<char>) -> Option<(Seq<char>, Seq<char>)> {
    match first_index_from(buffer, "\n\n"@, 0) {
        Some(p) => Some((buffer.take(p), buffer.skip(p + 2))),
        None => None,
    }
}

/// Splits the first event block off the stream buffer.
pub fn take_sse_block(buffer: &str) -> (r: Option<(String, String)>)
    ensures
        r matches Some(p) ==> spec_take_sse_block(buffer@) == Some((p.0@, p.1@)),
        r is None ==> spec_take_sse_block(buffer@) is None,
{
    let v = chars_of(buffer);
    let sep = chars_of("\n\n");
    proof {
        reveal_strlit("\n\n");
    }
    match find_first(&v, &sep) {
        Some(p) => {
            proof {
                crate::text::lemma_first_index_from(v@, sep@, 0);
                assert(sep@.len() == 2);
            }
            let n = v.len();
            assert(p + 2 <= n);
            let block = string_of(&v, 0, p);
            let rest = string_of(&v, p + 2, n);
            assert(v@.subrange(0, p as int) =~= v@.take(p as int));
            assert(v@.subrange(p + 2, v@.len() as int) =~= v@.skip(p + 2));
            Some((block, rest))
        },
        None => None,
    }
}

/// The reconnect wait stays between two and thirty seconds, and a clean end
/// of the stream brings it back to two.
pub proof fn backoff_bounds_law(backoff: u64, failed: bool)
    requires
        2 <= backoff <= 30,
    ensures
        2 <= spec_next_backoff(backoff, failed) <= 30,
        !failed ==> spec_next_backoff(backoff, false) == 2,
        failed ==> spec_next_backoff(backoff, true) >= backoff,
        failed && 2 * backoff <= 30 ==> spec_next_backoff(backoff, true) == 2 * backoff,
        failed && 2 * backoff > 30 ==> spec_next_backoff(backoff, true) == 30,
{
}

/// Slashes at the end of the base or the start of the path make no
/// difference: exactly one slash joins them.
pub proof fn join_url_slash_law(base: Seq<char>, path: Seq<char>)
    ensures
        spec_join_url(base.push('/'), path) == spec_join_url(base, path),
        spec_join_url(base, seq!['/'] + path) == spec_join_url(base, path),
        (base.len() == 0 || base.last() != '/') && (path.len() == 0 || path[0] != '/')
            ==> spec_join_url(base, path) == base + "/"@ + path,
{
    reveal_strlit("/");
    assert(base.push('/').drop_last() =~= base);
    assert((seq!['/'] + path).drop_first() =~= path);
}

/// A block split off the stream buffer is followed by the blank line that
/// ended it and the rest: nothing is lost, and the block holds no blank line
/// itself. With no blank line in the buffer, nothing is split off.
pub proof fn sse_block_split_law(buffer: Seq<char>)
    ensures
        spec_take_sse_block(buffer) matches Some((block, rest)) ==> buffer == block + "\n\n"@ + rest
            && !crate::text::contains(block, "\n\n"@),
        spec_take_sse_block(buffer) is None ==> !crate::text::contains(buffer, "\n\n"@),
{
    let sep = "\n\n"@;
    crate::text::lemma_first_index_from(buffer, sep, 0);
    match first_index_from(buffer, sep, 0) {
        Some(p) => {
            reveal_strlit("\n\n");
            let block = buffer.take(p);
            let rest = buffer.skip(p + 2);
            assert(buffer.subrange(p, p + 2) == sep);
            assert(buffer =~= block + sep + rest);
            if crate::text::contains(block, sep) {
                let k = choose|k: int| crate::text::occurs_at(block, sep, k);
                assert(block.subrange(k, k + 2) =~= buffer.subrange(k, k + 2));
                assert(crate::text::occurs_at(buffer, sep, k));
            }
        },
        None => {},
    }
}

/// The complete event blocks of a stream buffer, in order, and the
/// unfinished text after the last blank line.
pub open spec fn spec_sse_blocks(buffer: Seq<char>) -> (Seq<Seq<char>>, Seq<char>)
    decreases buffer.len(),
{
    match first_index_from(buffer, "\n\n"@, 0) {
        Some(p) => if 0 <= p && p + 2 <= buffer.len() {
            let r = spec_sse_blocks(buffer.skip(p + 2));
            (seq![buffer.take(p)] + r.0, r.1)
        } else {
            (seq![], buffer)
        },
        None => (seq![], buffer),
    }
}

proof fn lemma_sse_blocks_step(buffer: Seq<char>)
    ensures
        spec_take_sse_block(buffer) matches Some((block, rest)) ==> rest.len() < buffer.len()
            && spec_sse_blocks(buffer) == (seq![block] + spec_sse_blocks(rest).0, spec_sse_blocks(rest).1),
        spec_take_sse_block(buffer) is None ==> spec_sse_blocks(buffer) == (Seq::<Seq<char>>::empty(), buffer),
{
    reveal_strlit("\n\n");
    crate::text::lemma_first_index_from(buffer, "\n\n"@, 0);
}

/// Splits every complete event block off the stream buffer: the blocks in
/// order, and what is left.
pub fn take_sse_blocks(buffer: &str) -> (r: (Vec<String>, String))
    ensures
        strings_view(r.0@) == spec_sse_blocks(buffer@).0,
        r.1@ == spec_sse_blocks(buffer@).1,
{
    let mut blocks: Vec<String> = Vec::new();
    let mut rest = String::from_str(buffer);
    loop
        invariant
            spec_sse_blocks(buffer@) == (strings_view(blocks@) + spec_sse_blocks(rest@).0, spec_sse_blocks(rest@).1),
        decreases rest@.len(),
    {
        proof {
            lemma_sse_blocks_step(rest@);
        }
        match take_sse_block(rest.as_str()) {
            Some((block, after)) => {
                let ghost before = strings_view(blocks@);
                let ghost tail = spec_sse_blocks(after@);
                blocks.push(block);
                assert(strings_view(blocks@) =~= before.push(block@));
                assert(before + (seq![block@] + tail.0) =~= before.push(block@) + tail.0);
                rest = after;
            },
            None => {
                assert(strings_view(blocks@) + Seq::<Seq<char>>::empty() =~= strings_view(blocks@));
                return (blocks, rest);
            },
        }
    }
}

proof fn lemma_first_sep_extends(a: Seq<char>, c: Seq<char>, p: int)
    requires
        crate::text::is_first_occurrence(a, "\n\n"@, 0, p),
    ensures
        first_index_from(a + c, "\n\n"@, 0) == Some(p),
{
    let sep = "\n\n"@;
    let ac = a + c;
    assert(ac.subrange(p, p + sep.len()) =~= a.subrange(p, p + sep.len()));
    assert forall|k: int| 0 <= k < p implies !crate::text::occurs_at(ac, sep, k) by {
        if crate::text::occurs_at(ac, sep, k) {
            assert(ac.subrange(k, k + sep.len()) =~= a.subrange(k, k + sep.len()));
            assert(crate::text::occurs_at(a, sep, k));
        }
    }
    crate::text::lemma_first_index_at(ac, sep, 0, p);
}

/// However the stream is cut into pieces, the same blocks come out: taking
/// the blocks of `a`, then those of what is left followed by `c`, gives the
/// blocks of `a + c` and the same text left over.
pub proof fn sse_chunking_law(a: Seq<char>, c: Seq<char>)
    ensures
        spec_sse_blocks(a + c) == (
            spec_sse_blocks(a).0 + spec_sse_blocks(spec_sse_blocks(a).1 + c).0,
            spec_sse_blocks(spec_sse_blocks(a).1 + c).1,
        ),
    decreases a.len(),
{
    let sep = "\n\n"@;
    reveal_strlit("\n\n");
    crate::text::lemma_first_index_from(a, sep, 0);
    match first_index_from(a, sep, 0) {
        Some(p) => {
            lemma_first_sep_extends(a, c, p);
            let rest = a.skip(p + 2);
            assert((a + c).skip(p + 2) =~= rest + c);
            assert((a + c).take(p) =~= a.take(p));
            sse_chunking_law(rest, c);
            let r = spec_sse_blocks(rest);
            assert(seq![a.take(p)] + (r.0 + spec_sse_blocks(r.1 + c).0) =~= (seq![a.take(p)] + r.0)
                + spec_sse_blocks(r.1 + c).0);
        },
        None => {
            assert(a =~= spec_sse_blocks(a).1);
            assert(Seq::<Seq<char>>::empty() + spec_sse_blocks(a + c).0 =~= spec_sse_blocks(a + c).0);
        },
    }
}

/// The events of a list of blocks: the event of each block that has one, in order.
pub open spec fn spec_sse_events(blocks: Seq<Seq<char>>) -> Seq<serde_json::Value>
    decreases blocks.len(),
{
    if blocks.len() == 0 {
        seq![]
    } else {
        let before = spec_sse_events(blocks.drop_last());
        match spec_sse_event(blocks.last()) {
            Some(v) => before.push(v),
            None => before,
        }
    }
}

/// The events of two lists of blocks, one after the other, are the events of
/// the first followed by those of the second; with the chunking law, the
/// events delivered do not depend on how the stream is cut.
pub proof fn sse_events_concat_law(x: Seq<Seq<char>>, y: Seq<Seq<char>>)
    ensures
        spec_sse_events(x + y) == spec_sse_events(x) + spec_sse_events(y),
    decreases y.len(),
{
    if y.len() == 0 {
        assert(x + y =~= x);
    } else {
        assert((x + y).drop_last() =~= x + y.drop_last());
        assert((x + y).last() == y.last());
        sse_events_concat_law(x, y.drop_last());
    }
}

/// The lines of `s` after the unfinished line `cur` (`str::lines`): split at
/// each `\n`, a `\r` before it dropped; no line after a final `\n`.
pub open spec fn lines_after(s: Seq<char>, cur: Seq<char>) -> Seq<Seq<char>>
    decreases s.len(),
{
    if s.len() == 0 {
        if cur.len() > 0 {
            seq![cur]
        } else {
            seq![]
        }
    } else if s[0] == '\n' {
        seq![
            if cur.len() > 0 && cur.last() == '\r' {
                cur.drop_last()
            } else {
                cur
            },
        ] + lines_after(s.drop_first(), seq![])
    } else {
        lines_after(s.drop_first(), cur.push(s[0]))
    }
}

/// The lines of `s`.
pub open spec fn lines(s: Seq<char>) -> Seq<Seq<char>> {
    lines_after(s, seq![])
}

/// The payloads of the `data:` lines, each without the prefix and leading
/// whitespace.
pub open spec fn data_lines(ls: Seq<Seq<char>>) -> Seq<Seq<char>>
    decreases ls.len(),
{
    if ls.len() == 0 {
        seq![]
    } else if starts_with(ls.last(), "data:"@) {
        data_lines(ls.drop_last()).push(trim_start(ls.last().skip(5)))
    } else {
        data_lines(ls.drop_last())
    }
}

/// The data of an event block: its `data:` payloads joined by line breaks, or
/// nothing when it has no `data:` line.
pub open spec fn spec_sse_data(block: Seq<char>) -> Option<Seq<char>> {
    let d = data_lines(lines(block));
    if d.len() == 0 {
        None
    } else {
        Some(join(d, "\n"@))
    }
}

/// The lines of a text.
pub fn lines_of(s: &str) -> (r: Vec<String>)
    ensures
        strings_view(r@) == lines(s@),
{
    let v = chars_of(s);
    let mut out: Vec<String> = Vec::new();
    let mut cur = String::new();
    let mut i: usize = 0;
    assert(v@.skip(0) =~= v@);
    while i < v.len()
        invariant
            i <= v@.len(),
            lines(v@) == strings_view(out@) + lines_after(v@.skip(i as int), cur@),
        decreases v@.len() - i,
    {
        let ghost rest = v@.skip(i as int);
        assert(rest[0] == v@[i as int]);
        assert(rest.drop_first() =~= v@.skip(i + 1));
        if v[i] == '\n' {
            let cv = chars_of(cur.as_str());
            let line = if cv.len() > 0 && cv[cv.len() - 1] == '\r' {
                assert(cv@.drop_last() =~= cv@.subrange(0, cv@.len() - 1));
                string_of(&cv, 0, cv.len() - 1)
            } else {
                cur
            };
            let ghost before = strings_view(out@);
            out.push(line);
            assert(strings_view(out@) =~= before.push(line@));
            assert(before + (seq![line@] + lines_after(v@.skip(i + 1), seq![])) =~= before.push(
                line@,
            ) + lines_after(v@.skip(i + 1), seq![]));
            cur = String::new();
        } else {
            string_push(&mut cur, v[i]);
        }
        i = i + 1;
    }
    assert(v@.skip(i as int).len() == 0);
    if !cur.as_str().is_empty() {
        let ghost before = strings_view(out@);
        assert(lines_after(v@.skip(i as int), cur@) == seq![cur@]);
        out.push(cur);
        assert(strings_view(out@) =~= before + seq![cur@]);
    } else {
        assert(strings_view(out@) + Seq::<Seq<char>>::empty() =~= strings_view(out@));
    }
    out
}

/// The data of an event block, if it has any.
pub fn sse_data(block: &str) -> (r: Option<String>)
    ensures
        r matches Some(d) ==> spec_sse_data(block@) == Some(d@),
        r is None ==> spec_sse_data(block@) is None,
{
    let ls = lines_of(block);
    let ghost all = strings_view(ls@);
    let mut out = String::new();
    let mut count: usize = 0;
    let mut i: usize = 0;
    proof {
        reveal_strlit("data:");
    }
    while i < ls.len()
        invariant
            all == strings_view(ls@),
            all == lines(block@),
            i <= ls@.len(),
            count as int == data_lines(all.take(i as int)).len(),
            count <= i,
            out@ == join(data_lines(all.take(i as int)), "\n"@),
            "data:"@.len() == 5,
        decreases ls@.len() - i,
    {
        assert(all.take(i + 1).drop_last() =~= all.take(i as int));
        assert(all.take(i + 1).last() == ls@[i as int]@);
        let line = ls[i].as_str();
        if str_starts_with(line, "data:") {
            let lv = chars_of(line);
            let rest = string_of(&lv, 5, lv.len());
            assert(rest@ =~= ls@[i as int]@.skip(5));
            let payload = crate::text::trim_str_start(rest.as_str());
            let ghost d = data_lines(all.take(i as int));
            assert(d.push(payload@).drop_last() =~= d);
            if count > 0 {
                push_str(&mut out, "\n");
            } else {
                assert(out@ =~= Seq::<char>::empty());
            }
            push_str(&mut out, payload.as_str());
            count = count + 1;
        }
        i = i + 1;
    }
    assert(all.take(ls@.len() as int) =~= all);
    if count == 0 {
        None
    } else {
        Some(out)
    }
}

/// Whether `serde_json` accepts the text as JSON.
pub uninterp spec fn spec_json_parses(text: Seq<char>) -> bool;

/// The value `serde_json` parses from a JSON text.
pub uninterp spec fn spec_json_value(text: Seq<char>) -> serde_json::Value;

/// Calls `serde_json::from_str::<serde_json::Value>`. Whether it succeeds, and
/// the value it returns, are claimed to depend on the text alone; the JSON
/// grammar is not stated.
#[verifier::external_body]
fn parse_json_value(text: &str) -> (r: Option<serde_json::Value>)
    ensures
        r is Some == spec_json_parses(text@),
        r is Some ==> r == Some(spec_json_value(text@)),
{
    match serde_json::from_str::<serde_json::Value>(text) {
        Ok(v) => Some(v),
        Err(_) => None,
    }
}

/// The event of a stream block, where it has one: the JSON value of its data.
pub open spec fn spec_sse_event(block: Seq<char>) -> Option<serde_json::Value> {
    match spec_sse_data(block) {
        Some(d) => if spec_json_parses(d) {
            Some(spec_json_value(d))
        } else {
            None
        },
        None => None,
    }
}

/// The event of a stream block: the JSON value of its data, when it has data
/// and the data is JSON.
pub fn parse_sse_block(block: &str) -> (r: Option<serde_json::Value>)
    ensures
        r is Some <==> (spec_sse_data(block@) matches Some(d) && spec_json_parses(d)),
        r is Some ==> (spec_sse_data(block@) matches Some(d) && r == Some(spec_json_value(d))),
        r == spec_sse_event(block@),
{
    match sse_data(block) {
        Some(d) => parse_json_value(d.as_str()),
        None => None,
    }
}

/// A signed integer in decimal, as `Display` writes it.
pub open spec fn signed_decimal(x: int) -> Seq<char> {
    if x < 0 {
        "-"@ + decimal((-x) as nat)
    } else {
        decimal(x as nat)
    }
}

fn push_signed_decimal(out: &mut String, x: i64)
    ensures
        final(out)@ == old(out)@ + signed_decimal(x as int),
{
    if x < 0 {
        push_str(out, "-");
        let magnitude: u64 = ((-(x + 1)) as u64) + 1;
        push_decimal(out, magnitude);
    } else {
        push_decimal(out, x as u64);
    }
}

/// Why an API reply counts as a failure, if it does: its `status` is not
/// `"ok"`, or its `retcode` is not zero.
pub open spec fn api_reply_refusal(action: Seq<char>, status: Option<Seq<char>>, retcode: Option<i64>) -> Option<
    Seq<char>,
> {
    match status {
        Some(s) if s != "ok"@ => Some("NapCat API "@ + action + " 失败: "@ + s),
        _ => match retcode {
            Some(r) if r != 0 => Some("NapCat API "@ + action + " retcode="@ + signed_decimal(r as int)),
            _ => None,
        },
    }
}

/// Checks the `status` and `retcode` of an API reply (where they are a string
/// and an integer).
pub fn check_api_reply(action: &str, status: Option<&str>, retcode: Option<i64>) -> (r: Result<
    (),
    BotError,
>)
    ensures
        api_reply_refusal(
            action@,
            match status {
                Some(s) => Some(s@),
                None => None,
            },
            retcode,
        ) matches Some(m) ==> (r matches Err(e) && e.message@ == m),
        api_reply_refusal(
            action@,
            match status {
                Some(s) => Some(s@),
                None => None,
            },
            retcode,
        ) is None ==> r is Ok,
{
    match status {
        Some(s) => {
            if !str_eq(s, "ok") {
                let mut m = String::from_str("NapCat API ");
                push_str(&mut m, action);
                push_str(&mut m, " 失败: ");
                push_str(&mut m, s);
                return Err(BotError { message: m });
            }
        },
        None => {},
    }
    match retcode {
        Some(code) => {
            if code != 0 {
                let mut m = String::from_str("NapCat API ");
                push_str(&mut m, action);
                push_str(&mut m, " retcode=");
                push_signed_decimal(&mut m, code);
                return Err(BotError { message: m });
            }
        },
        None => {},
    }
    Ok(())
}

/// The failure for an API call answered with an error status (`status` as the
/// status code displays itself), quoting the first 300 characters of the body.
pub fn api_http_error(action: &str, status: &str, body: &str) -> (e: BotError)
    ensures
        e.message@ == "NapCat API "@ + action@ + " 返回 HTTP "@ + status@ + ": "@ + take_chars(
            body@,
            300,
        ),
{
    let mut m = String::from_str("NapCat API ");
    push_str(&mut m, action);
    push_str(&mut m, " 返回 HTTP ");
    push_str(&mut m, status);
    push_str(&mut m, ": ");
    let cut = truncate(body, 300);
    push_str(&mut m, cut.as_str());
    BotError { message: m }
}

/// The failure for an event stream answered with an error status.
pub fn sse_http_error(status: &str) -> (e: BotError)
    ensures
        e.message@ == "NapCat SSE 返回 HTTP "@ + status@,
{
    BotError::with_detail("NapCat SSE 返回 HTTP ", status)
}

/// The failure for an event stream that ended.
pub fn sse_closed_error() -> (e: BotError)
    ensures
        e.message@ == "NapCat SSE 连接已结束"@,
{
    BotError::from_str("NapCat SSE 连接已结束")
}

} // verus!
