//! The per-connection pipeline: what to do with a client request, and what
//! to keep of the server's response.
//!
//! Nothing here touches a socket, the cache store or a clock. A request is
//! classified from the bytes of its packet and the current rules; the cache
//! store's replies and the time come in as arguments; what has to be done
//! next comes back as a value.

use crate::cache::{
    cache_key, cache_key_of, cache_ttl, lemma_cache_key_injective, ttl_of, CacheTaskInfo,
};
use crate::meta::CacheConfigEntity;
use crate::metrics::ExecLog;
use crate::protocol::{
    command_code, is_command_code, payload_text, read_payload_text, Packet, PacketType,
};
use crate::sql::fingerprint::{fingerprint, mysql_dialect, sql_to_pattern};
use crate::sql::pattern::match_template;
use crate::sql::token::{sql_tokens, tokenize, trim_tokens, trimmed};
use crate::text::{
    contains_query_marker, has_query_marker, holds_text, normalize, normalized, remove_comments,
    select_prefix, starts_with_select, strip_comments, to_chars, to_uppercase, trim, uppercased,
};
use sqlparser::dialect::MySqlDialect;
use vstd::prelude::*;

verus! {

/// What the proxy does with a client packet.
#[derive(Debug, PartialEq, Eq)]
pub enum Action {
    /// Hand the packet to the upstream database unchanged.
    FORWARD,
    /// Neither forward nor answer.
    DROP,
    /// Answer with these bytes, without contacting upstream.
    RESPONSED(Vec<u8>),
}

/// What is known about the query in flight on one connection. Times are
/// milliseconds on a clock that does not run backwards.
#[derive(Debug, Clone, Eq, PartialEq)]
pub struct ProxyContext {
    /// The SQL text as received.
    pub sql: Option<String>,
    /// Whether the response is to be written to the cache.
    pub should_update_cache: bool,
    /// When the request arrived.
    pub fn_start_time: u64,
    /// When the request was handed to upstream.
    pub mysql_exec_start_time: Option<u64>,
    /// How long the cache lookup took.
    pub redis_duration: i64,
    /// Whether the response was served from the cache.
    pub from_cache: bool,
    /// Time to live of the cache entry that may be written, in seconds.
    pub cache_duration: i32,
    /// How long the request has taken in all.
    pub total_duration: i64,
    /// How long upstream has taken.
    pub mysql_duration: i64,
    /// Pure proxying: the request is never cached.
    pub skip: bool,
}

/// A question to the cache store about one key.
#[derive(Debug, PartialEq, Eq)]
pub struct CacheLookup {
    /// The key of the SQL text.
    pub key: String,
    /// Time to live, in seconds, of an entry written for this request.
    pub ttl: i32,
}

/// The next step in answering a client request.
#[derive(Debug, PartialEq, Eq)]
pub enum CacheStep {
    /// The decision is made.
    Done(Action),
    /// Ask the cache store whether the key exists.
    Exists(CacheLookup),
    /// Ask the cache store for the value of the key.
    Get(CacheLookup),
}

/// What ends with a response: the cache write it leads to, and its record.
#[derive(Debug)]
pub struct Finalized {
    pub cache_task: Option<CacheTaskInfo>,
    pub exec_log: Option<ExecLog>,
}

/// The decision on a request, before the cache store is asked.
pub enum Verdict {
    /// Forward; the request is no candidate for caching.
    Forward,
    /// Forward, and keep the response out of the cache: the packet holds
    /// more than one query.
    Skip,
    /// The rule at this index is the first that the query falls under.
    Lookup(int),
}

/// Milliseconds from `start` to `now`; 0 where `now` is the earlier one.
pub open spec fn elapsed(now: u64, start: u64) -> i64 {
    if now < start {
        0
    } else if now - start > i64::MAX {
        i64::MAX
    } else {
        (now - start) as i64
    }
}

/// The SQL text that a query is handled by: without comments, and without
/// white space at either end.
pub open spec fn stripped(sql: Seq<char>) -> Seq<char> {
    trim(strip_comments(sql))
}

/// Whether a query is a SELECT, whatever the case of its letters.
pub open spec fn is_select(sql: Seq<char>) -> bool {
    select_prefix(uppercased(stripped(sql)))
}

/// Whether the rule covers the query.
pub open spec fn rule_matches(rule: CacheConfigEntity, sql: Seq<char>) -> bool {
    rule.covers(stripped(sql))
}

/// The index of the first rule from `start` on that covers the query.
pub open spec fn first_match_from(rules: Seq<CacheConfigEntity>, sql: Seq<char>, start: int) -> Option<
    int,
>
    decreases rules.len() - start,
{
    if start < 0 || start >= rules.len() {
        None
    } else if rule_matches(rules[start], sql) {
        Some(start)
    } else {
        first_match_from(rules, sql, start + 1)
    }
}

/// The index of the first rule that covers the query: rules are tried in the
/// order in which they were published.
pub open spec fn first_match(rules: Seq<CacheConfigEntity>, sql: Seq<char>) -> Option<int> {
    first_match_from(rules, sql, 0)
}

/// The decision on a request with the given command and SQL text.
pub open spec fn verdict(
    packet_type: PacketType,
    sql: Option<Seq<char>>,
    rules: Seq<CacheConfigEntity>,
) -> Verdict {
    match sql {
        None => Verdict::Forward,
        Some(text) => if packet_type != PacketType::ComQuery {
            Verdict::Forward
        } else if !is_select(text) {
            Verdict::Forward
        } else if has_query_marker(uppercased(stripped(text))) {
            Verdict::Skip
        } else {
            match first_match(rules, text) {
                Some(i) => Verdict::Lookup(i),
                None => Verdict::Forward,
            }
        },
    }
}

/// The SQL text of a client packet: what follows the command byte, where
/// that is valid UTF-8.
pub open spec fn sql_of(packet: Seq<u8>) -> Option<Seq<char>> {
    payload_text(packet)
}

impl ProxyContext {
    /// The context of a request that arrives at `now` and of which nothing
    /// else is known yet.
    pub fn new(now: u64) -> (ctx: ProxyContext)
        ensures
            ctx == fresh(now),
    {
        ProxyContext {
            sql: None,
            should_update_cache: false,
            fn_start_time: now,
            mysql_exec_start_time: None,
            redis_duration: 0,
            from_cache: false,
            cache_duration: 0,
            total_duration: 0,
            mysql_duration: 0,
            skip: false,
        }
    }

    /// The text of the SQL, where there is one.
    pub open spec fn sql_text(&self) -> Option<Seq<char>> {
        match self.sql {
            Some(s) => Some(s@),
            None => None,
        }
    }
}

/// Computes the milliseconds from `start` to `now`.
pub fn elapsed_ms(now: u64, start: u64) -> (ms: i64)
    ensures
        ms == elapsed(now, start),
{
    if now < start {
        0
    } else if now - start > 0x7fff_ffff_ffff_ffff {
        0x7fff_ffff_ffff_ffff
    } else {
        (now - start) as i64
    }
}

/// Reads the command of a client packet: none where the packet has no
/// payload or its first byte names no command.
pub fn packet_command(packet: &Packet) -> (r: Option<PacketType>)
    ensures
        r is Some <==> packet@.len() > 4 && is_command_code(packet@[4]),
        r matches Some(t) ==> command_code(t) == packet@[4],
{
    if packet.bytes.len() > 4 {
        match packet.packet_type() {
            Ok(t) => Some(t),
            Err(_) => None,
        }
    } else {
        None
    }
}

/// Reads the SQL text of a client packet.
pub fn packet_sql(packet: &Packet) -> (r: Option<String>)
    ensures
        holds_text(r, sql_of(packet@)),
{
    read_payload_text(packet)
}

/// The decisions of one connection.
pub struct VirtDBConnectionHandler {
    dialect: MySqlDialect,
}

impl VirtDBConnectionHandler {
    pub fn new() -> VirtDBConnectionHandler {
        VirtDBConnectionHandler { dialect: mysql_dialect() }
    }

    /// Finds the first rule that covers a query.
    fn find_rule(&self, sql: &str, rules: &Vec<CacheConfigEntity>) -> (r: Option<usize>)
        ensures
            match r {
                Some(i) => first_match(rules@, sql@) == Some(i as int) && i < rules@.len(),
                None => first_match(rules@, sql@) is None,
            },
    {
        let text = normalize(remove_comments(sql.to_owned()).as_str());
        match tokenize(&self.dialect, text.as_str()) {
            None => {
                proof {
                    lemma_no_match(rules@, sql@, 0);
                }
                None
            },
            Some(tokens) => {
                let concrete = trim_tokens(tokens);
                let mut i: usize = 0;
                while i < rules.len()
                    invariant
                        i <= rules@.len(),
                        sql_tokens(text@) is Some,
                        concrete@ == trimmed(sql_tokens(text@).unwrap()),
                        text@ == normalized(stripped(sql@)),
                        first_match(rules@, sql@) == first_match_from(rules@, sql@, i as int),
                    decreases rules@.len() - i,
                {
                    if match_template(&rules[i].cached_sql_parser_token, &concrete) {
                        assert(rule_matches(rules@[i as int], sql@));
                        return Some(i);
                    }
                    assert(!rule_matches(rules@[i as int], sql@));
                    i = i + 1;
                }
                None
            },
        }
    }

    /// Decides on a request before the cache store is asked.
    ///
    /// The handling of a request begins here: what the context held of the
    /// outcome of an earlier request is cleared.
    ///
    /// Anything but a SELECT query is forwarded. So is a packet that holds
    /// more than one query, which is marked never to be cached, and a query
    /// that no rule covers. For a query that a rule covers the cache store
    /// is to be asked, under the key of the SQL text as it was received.
    pub fn handle_request(
        &mut self,
        ctx: &mut ProxyContext,
        packet_type: PacketType,
        rules: &Vec<CacheConfigEntity>,
        now: u64,
    ) -> (step: CacheStep)
        ensures
            *final(ctx) == begun(
                *old(ctx),
                now,
                verdict(packet_type, old(ctx).sql_text(), rules@) is Skip,
            ),
            match verdict(packet_type, old(ctx).sql_text(), rules@) {
                Verdict::Forward => step == CacheStep::Done(Action::FORWARD),
                Verdict::Skip => step == CacheStep::Done(Action::FORWARD),
                Verdict::Lookup(i) => {
                    &&& 0 <= i < rules@.len()
                    &&& step matches CacheStep::Exists(lookup)
                    &&& lookup.key@ == cache_key_of(old(ctx).sql_text().unwrap())
                    &&& lookup.ttl == ttl_of(rules@[i].duration)
                },
            },
    {
        ctx.fn_start_time = now;
        ctx.should_update_cache = false;
        ctx.from_cache = false;
        ctx.skip = false;
        let is_query = match packet_type {
            PacketType::ComQuery => true,
            _ => false,
        };
        if !is_query {
            return CacheStep::Done(Action::FORWARD);
        }
        match &ctx.sql {
            None => CacheStep::Done(Action::FORWARD),
            Some(origin_sql) => {
                let sql = remove_comments(origin_sql.clone());
                let upper = to_chars(to_uppercase(sql.as_str()).as_str());
                if !starts_with_select(&upper) {
                    return CacheStep::Done(Action::FORWARD);
                }
                if contains_query_marker(&upper) {
                    ctx.skip = true;
                    return CacheStep::Done(Action::FORWARD);
                }
                match self.find_rule(origin_sql.as_str(), rules) {
                    None => CacheStep::Done(Action::FORWARD),
                    Some(i) => {
                        let key = cache_key(origin_sql.as_str());
                        let ttl = cache_ttl(rules[i].duration);
                        CacheStep::Exists(CacheLookup { key, ttl })
                    },
                }
            },
        }
    }

    /// Takes the cache store's answer to "does the key exist" (`None` where
    /// the store failed). A key that exists is fetched next. Anything else is
    /// a miss: the request goes upstream, and its response is to be cached.
    pub fn handle_exists_reply(
        &mut self,
        ctx: &mut ProxyContext,
        lookup: CacheLookup,
        reply: Option<bool>,
        elapsed_ms: i64,
    ) -> (step: CacheStep)
        ensures
            reply == Some(true) ==> step == CacheStep::Get(lookup) && *final(ctx) == *old(ctx),
            reply != Some(true) ==> step == CacheStep::Done(Action::FORWARD) && *final(ctx)
                == missed(*old(ctx), lookup.ttl, elapsed_ms),
    {
        match reply {
            Some(true) => CacheStep::Get(lookup),
            _ => {
                ctx.should_update_cache = true;
                ctx.cache_duration = lookup.ttl;
                ctx.redis_duration = elapsed_ms;
                CacheStep::Done(Action::FORWARD)
            },
        }
    }

    /// Takes the cache store's answer to "what is the value" (`None` where
    /// the store failed). A value that is not empty is the reply to the
    /// client, byte for byte. Anything else is a miss.
    pub fn handle_value_reply(
        &mut self,
        ctx: &mut ProxyContext,
        lookup: CacheLookup,
        reply: Option<Vec<u8>>,
        elapsed_ms: i64,
    ) -> (action: Action)
        ensures
            action == reply_for(reply),
            action is RESPONSED ==> *final(ctx) == hit(*old(ctx), elapsed_ms),
            !(action is RESPONSED) ==> *final(ctx) == missed(*old(ctx), lookup.ttl, elapsed_ms),
    {
        ctx.redis_duration = elapsed_ms;
        match reply {
            Some(value) => {
                if value.len() < 1 {
                    ctx.should_update_cache = true;
                    ctx.cache_duration = lookup.ttl;
                    Action::FORWARD
                } else {
                    ctx.from_cache = true;
                    Action::RESPONSED(value)
                }
            },
            None => {
                ctx.should_update_cache = true;
                ctx.cache_duration = lookup.ttl;
                Action::FORWARD
            },
        }
    }

    /// Notes that the request went upstream at `now`.
    pub fn handle_forward(&mut self, ctx: &mut ProxyContext, now: u64)
        ensures
            *final(ctx) == (ProxyContext { mysql_exec_start_time: Some(now), ..*old(ctx) }),
    {
        ctx.mysql_exec_start_time = Some(now);
    }

    /// Brings the durations of a context up to `now`, as one more piece of
    /// the response arrives.
    pub fn handle_response(&mut self, ctx: &mut ProxyContext, now: u64)
        ensures
            *final(ctx) == timed(*old(ctx), now),
    {
        ctx.total_duration = elapsed_ms(now, ctx.fn_start_time);
        match ctx.mysql_exec_start_time {
            Some(start) => {
                ctx.mysql_duration = elapsed_ms(now, start);
            },
            None => {},
        }
    }

    /// Records a request that was answered from the cache, at `now`.
    pub fn finish_cache_hit(&mut self, ctx: &mut ProxyContext, now: u64) -> (log: Option<ExecLog>)
        ensures
            *final(ctx) == timed(*old(ctx), now),
            log is Some <==> old(ctx).sql is Some && fingerprint(old(ctx).sql.unwrap()@) is Some,
            log matches Some(l) ==> {
                &&& l.sql_str@ == fingerprint(old(ctx).sql.unwrap()@).unwrap()
                &&& l.total_duration == elapsed(now, old(ctx).fn_start_time)
                &&& l.mysql_duration == final(ctx).mysql_duration
                &&& l.redis_duration == old(ctx).redis_duration
                &&& l.from_cache == old(ctx).from_cache
            },
    {
        self.handle_response(ctx, now);
        let pattern = match &ctx.sql {
            Some(sql) => sql_to_pattern(sql.as_str()),
            None => None,
        };
        match pattern {
            Some(sql_pattern) => Some(
                ExecLog {
                    sql_str: sql_pattern,
                    total_duration: ctx.total_duration,
                    mysql_duration: ctx.mysql_duration,
                    redis_duration: ctx.redis_duration,
                    from_cache: ctx.from_cache,
                },
            ),
            None => None,
        }
    }

    /// Takes in one client packet at `now`: makes the context of the request
    /// and decides on it as `handle_request` does. The context of a packet
    /// that is no query, or whose text is not valid UTF-8, holds no SQL text,
    /// and the packet is forwarded. Every packet has its context, so that
    /// what is captured of a response ends with the next request, whatever
    /// that request is.
    pub fn start_request(&mut self, packet: &Packet, rules: &Vec<CacheConfigEntity>, now: u64) -> (r:
        (ProxyContext, CacheStep))
        ensures
            !is_query(packet@) ==> r.0 == fresh(now) && r.1 == CacheStep::Done(Action::FORWARD),
            is_query(packet@) ==> {
                &&& r.0.sql_text() == sql_of(packet@)
                &&& r.0 == (ProxyContext {
                    sql: r.0.sql,
                    skip: verdict(PacketType::ComQuery, sql_of(packet@), rules@) is Skip,
                    ..fresh(now)
                })
                &&& match verdict(PacketType::ComQuery, sql_of(packet@), rules@) {
                    Verdict::Forward => r.1 == CacheStep::Done(Action::FORWARD),
                    Verdict::Skip => r.1 == CacheStep::Done(Action::FORWARD),
                    Verdict::Lookup(i) => {
                        &&& 0 <= i < rules@.len()
                        &&& r.1 matches CacheStep::Exists(lookup)
                        &&& lookup.key@ == cache_key_of(sql_of(packet@).unwrap())
                        &&& lookup.ttl == ttl_of(rules@[i].duration)
                    },
                }
            },
    {
        let mut ctx = ProxyContext::new(now);
        match packet_command(packet) {
            Some(PacketType::ComQuery) => {
                match packet_sql(packet) {
                    Some(sql) => {
                        ctx.sql = Some(sql);
                        let step = self.handle_request(&mut ctx, PacketType::ComQuery, rules, now);
                        (ctx, step)
                    },
                    None => (ctx, CacheStep::Done(Action::FORWARD)),
                }
            },
            _ => (ctx, CacheStep::Done(Action::FORWARD)),
        }
    }

    /// Ends a request whose response has arrived in full: hands back the
    /// cache write and the record that it leads to.
    pub fn handle_remote_response_finished(
        &mut self,
        ctx: &ProxyContext,
        full_response: &Vec<u8>,
    ) -> (done: Finalized)
        ensures
            finalizes(
                done,
                *ctx,
                full_response@,
                match ctx.sql {
                    Some(sql) => fingerprint(sql@),
                    None => None,
                },
            ),
    {
        let pattern = match &ctx.sql {
            Some(sql) => sql_to_pattern(sql.as_str()),
            None => None,
        };
        finalize(ctx, full_response, pattern)
    }
}

/// The context at the start of the handling of a request: the request
/// arrived at `now`, nothing is marked for the cache, nothing was served from
/// it, and the request is kept out of the cache where `skip` says so.
pub open spec fn begun(ctx: ProxyContext, now: u64, skip: bool) -> ProxyContext {
    ProxyContext { fn_start_time: now, should_update_cache: false, from_cache: false, skip, ..ctx }
}

/// The context of a request after a miss: its response is to be written to
/// the cache, to live for `ttl` seconds, and the lookup took `elapsed_ms`.
pub open spec fn missed(ctx: ProxyContext, ttl: i32, elapsed_ms: i64) -> ProxyContext {
    ProxyContext {
        should_update_cache: true,
        cache_duration: ttl,
        redis_duration: elapsed_ms,
        ..ctx
    }
}

/// The context of a request after a hit: it was served from the cache, and
/// the lookup took `elapsed_ms`.
pub open spec fn hit(ctx: ProxyContext, elapsed_ms: i64) -> ProxyContext {
    ProxyContext { from_cache: true, redis_duration: elapsed_ms, ..ctx }
}

/// The reply to the client that a value from the cache store leads to: the
/// value itself where there is one and it is not empty, and else none, so
/// that the request goes upstream.
pub open spec fn reply_for(value: Option<Vec<u8>>) -> Action {
    match value {
        Some(v) => if v@.len() >= 1 {
            Action::RESPONSED(v)
        } else {
            Action::FORWARD
        },
        None => Action::FORWARD,
    }
}

/// A context with its durations brought up to `now`.
pub open spec fn timed(ctx: ProxyContext, now: u64) -> ProxyContext {
    ProxyContext {
        total_duration: elapsed(now, ctx.fn_start_time),
        mysql_duration: match ctx.mysql_exec_start_time {
            Some(start) => elapsed(now, start),
            None => ctx.mysql_duration,
        },
        ..ctx
    }
}

/// Whether a finished request counts: it had a SQL text and went upstream.
pub open spec fn completed(ctx: ProxyContext) -> bool {
    ctx.sql is Some && ctx.mysql_exec_start_time is Some
}

/// Whether the response of a finished request is written to the cache: the
/// request was a miss under some rule, is not marked for pure proxying, and
/// at least one byte was captured.
pub open spec fn writes_cache(ctx: ProxyContext, response: Seq<u8>) -> bool {
    completed(ctx) && ctx.should_update_cache && !ctx.skip && response.len() > 0
}

/// Whether `done` is what the end of a request leads to, given the context
/// of the request, the response captured, and the fingerprint of its SQL.
pub open spec fn finalizes(
    done: Finalized,
    ctx: ProxyContext,
    response: Seq<u8>,
    pattern: Option<Seq<char>>,
) -> bool {
    &&& done.cache_task is Some <==> writes_cache(ctx, response)
    &&& done.cache_task matches Some(task) ==> {
        &&& task.spec_sql() == ctx.sql.unwrap()@
        &&& task.spec_body() == response
        &&& task.spec_duration() == ctx.cache_duration
    }
    &&& done.exec_log is Some <==> completed(ctx) && pattern is Some
    &&& done.exec_log matches Some(log) ==> {
        &&& log.sql_str@ == pattern.unwrap()
        &&& log.total_duration == ctx.total_duration
        &&& log.mysql_duration == ctx.mysql_duration
        &&& log.redis_duration == ctx.redis_duration
        &&& log.from_cache == ctx.from_cache
    }
}

/// Ends a request, given the fingerprint of its SQL text.
pub fn finalize(ctx: &ProxyContext, full_response: &Vec<u8>, pattern: Option<String>) -> (done:
    Finalized)
    ensures
        finalizes(
            done,
            *ctx,
            full_response@,
            match pattern {
                Some(p) => Some(p@),
                None => None,
            },
        ),
{
    match &ctx.sql {
        None => Finalized { cache_task: None, exec_log: None },
        Some(sql) => {
            if ctx.mysql_exec_start_time.is_none() {
                return Finalized { cache_task: None, exec_log: None };
            }
            let cache_task = if ctx.should_update_cache && !ctx.skip && full_response.len() > 0 {
                let body = copy_bytes(full_response);
                Some(CacheTaskInfo::new(sql.clone(), body, ctx.cache_duration))
            } else {
                None
            };
            let exec_log = match pattern {
                Some(sql_pattern) => Some(
                    ExecLog {
                        sql_str: sql_pattern,
                        total_duration: ctx.total_duration,
                        mysql_duration: ctx.mysql_duration,
                        redis_duration: ctx.redis_duration,
                        from_cache: ctx.from_cache,
                    },
                ),
                None => None,
            };
            Finalized { cache_task, exec_log }
        },
    }
}

/// A copy of a byte vector.
fn copy_bytes(bytes: &Vec<u8>) -> (r: Vec<u8>)
    ensures
        r@ == bytes@,
{
    let mut r: Vec<u8> = Vec::new();
    r.extend_from_slice(bytes.as_slice());
    assert(r@ =~= bytes@);
    r
}

/// The context of a request that arrived at `now`, before anything else is
/// known of it.
pub open spec fn fresh(now: u64) -> ProxyContext {
    ProxyContext {
        sql: None,
        should_update_cache: false,
        fn_start_time: now,
        mysql_exec_start_time: None,
        redis_duration: 0,
        from_cache: false,
        cache_duration: 0,
        total_duration: 0,
        mysql_duration: 0,
        skip: false,
    }
}

/// Whether a client packet is a text query that can be read: its command
/// byte is that of a query, and what follows is valid UTF-8.
pub open spec fn is_query(packet: Seq<u8>) -> bool {
    packet.len() > 4 && packet[4] == 0x03 && sql_of(packet) is Some
}

/// A query that is no SELECT is forwarded, whatever the rules.
pub proof fn lemma_non_select_is_forwarded(
    packet_type: PacketType,
    sql: Seq<char>,
    rules: Seq<CacheConfigEntity>,
)
    requires
        !is_select(sql),
    ensures
        verdict(packet_type, Some(sql), rules) is Forward,
{
}

/// With no rule, every request is forwarded.
pub proof fn lemma_no_rule_forwards_all(packet_type: PacketType, sql: Option<Seq<char>>)
    ensures
        !(verdict(packet_type, sql, Seq::empty()) is Lookup),
{
}

/// Where the text of a query cannot be cut into tokens, no rule covers it.
proof fn lemma_no_match(rules: Seq<CacheConfigEntity>, sql: Seq<char>, start: int)
    requires
        sql_tokens(normalized(stripped(sql))) is None,
        0 <= start,
    ensures
        first_match_from(rules, sql, start) is None,
    decreases rules.len() - start,
{
    if start < rules.len() {
        lemma_no_match(rules, sql, start + 1);
    }
}

/// What `first_match_from` finds is the first rule from `start` on that
/// covers the query.
pub proof fn lemma_first_match_from(
    rules: Seq<CacheConfigEntity>,
    sql: Seq<char>,
    start: int,
)
    requires
        0 <= start,
    ensures
        match first_match_from(rules, sql, start) {
            Some(i) => {
                &&& start <= i < rules.len()
                &&& rule_matches(rules[i], sql)
                &&& forall|j: int| start <= j < i ==> !rule_matches(#[trigger] rules[j], sql)
            },
            None => forall|j: int|
                start <= j < rules.len() ==> !rule_matches(#[trigger] rules[j], sql),
        },
    decreases rules.len() - start,
{
    if start < rules.len() && !rule_matches(rules[start], sql) {
        lemma_first_match_from(rules, sql, start + 1);
    }
}

/// A rule is looked up only for a SELECT query that it covers and that no
/// earlier rule covers.
pub proof fn lemma_first_match_wins(
    packet_type: PacketType,
    sql: Seq<char>,
    rules: Seq<CacheConfigEntity>,
    i: int,
)
    requires
        verdict(packet_type, Some(sql), rules) == Verdict::Lookup(i),
    ensures
        packet_type == PacketType::ComQuery,
        is_select(sql),
        0 <= i < rules.len(),
        rule_matches(rules[i], sql),
        forall|j: int| 0 <= j < i ==> !rule_matches(#[trigger] rules[j], sql),
{
    lemma_first_match_from(rules, sql, 0);
}

/// What a lookup ends in, for a query that a rule covers. Where the key is
/// missing, the response is marked for the cache, to live as long as the rule
/// says and a minute at least, and the request was not served from the cache.
/// Where the key holds a value that is not empty, the value is the reply, and
/// nothing is marked for the cache.
pub proof fn lemma_lookup_ends_in_miss_or_hit(
    rules: Seq<CacheConfigEntity>,
    sql: Seq<char>,
    i: int,
    ctx: ProxyContext,
    now: u64,
    elapsed_ms: i64,
    value: Vec<u8>,
)
    requires
        verdict(PacketType::ComQuery, Some(sql), rules) == Verdict::Lookup(i),
        value@.len() > 0,
    ensures
        ({
            let after_miss = missed(begun(ctx, now, false), ttl_of(rules[i].duration), elapsed_ms);
            &&& after_miss.should_update_cache
            &&& after_miss.cache_duration == rules[i].duration || after_miss.cache_duration == 60
            &&& after_miss.cache_duration >= 60
            &&& !after_miss.from_cache
        }),
        ({
            let after_hit = hit(begun(ctx, now, false), elapsed_ms);
            &&& reply_for(Some(value)) == Action::RESPONSED(value)
            &&& after_hit.from_cache
            &&& !after_hit.should_update_cache
        }),
        reply_for(None) == Action::FORWARD,
{
}

/// A request that is forwarded without a lookup leaves nothing marked for
/// the cache and nothing served from it: so it is with every request where
/// there is no rule, and with every query that is no SELECT.
pub proof fn lemma_forwarded_marks_nothing(
    packet_type: PacketType,
    sql: Option<Seq<char>>,
    rules: Seq<CacheConfigEntity>,
    ctx: ProxyContext,
    now: u64,
)
    requires
        rules.len() == 0 || (sql matches Some(text) && !is_select(text)),
    ensures
        !(verdict(packet_type, sql, rules) is Lookup),
        !begun(ctx, now, verdict(packet_type, sql, rules) is Skip).should_update_cache,
        !begun(ctx, now, verdict(packet_type, sql, rules) is Skip).from_cache,
{
}

/// A hit returns what was stored. The write that the end of a request leads
/// to stores the captured response, no byte more or less, under the key of
/// its SQL text. A later request finds that entry only with the same SQL text,
/// and where the store hands the entry back, the reply to the client is the
/// captured response byte for byte.
pub proof fn lemma_hit_returns_stored(
    done: Finalized,
    ctx: ProxyContext,
    response: Seq<u8>,
    pattern: Option<Seq<char>>,
    later_sql: Seq<char>,
    fetched: Vec<u8>,
)
    requires
        finalizes(done, ctx, response, pattern),
        done.cache_task is Some,
        cache_key_of(later_sql) == cache_key_of(done.cache_task.unwrap().spec_sql()),
        fetched@ == done.cache_task.unwrap().spec_body(),
    ensures
        later_sql == ctx.sql.unwrap()@,
        reply_for(Some(fetched)) == Action::RESPONSED(fetched),
        fetched@ == response,
{
    lemma_cache_key_injective(later_sql, done.cache_task.unwrap().spec_sql());
}

/// The slot through which the request half of a connection hands the context
/// of a forwarded query to the response half. It holds one context at most.
pub struct Handoff {
    slot: Option<ProxyContext>,
}

impl View for Handoff {
    type V = Option<ProxyContext>;

    closed spec fn view(&self) -> Option<ProxyContext> {
        self.slot
    }
}

impl Handoff {
    /// An empty slot.
    pub fn new() -> (h: Handoff)
        ensures
            h@ is None,
    {
        Handoff { slot: None }
    }

    /// Puts a context into the slot. A slot that is taken stays as it is,
    /// and the context comes back.
    pub fn offer(&mut self, ctx: ProxyContext) -> (r: Result<(), ProxyContext>)
        ensures
            old(self)@ is None ==> r is Ok && final(self)@ == Some(ctx),
            old(self)@ is Some ==> r == Err::<(), ProxyContext>(ctx) && final(self)@ == old(self)@,
    {
        if self.slot.is_none() {
            self.slot = Some(ctx);
            Ok(())
        } else {
            Err(ctx)
        }
    }

    /// Takes the context out of the slot, if there is one.
    pub fn take(&mut self) -> (r: Option<ProxyContext>)
        ensures
            r == old(self)@,
            final(self)@ is None,
    {
        self.slot.take()
    }
}

/// The response half of a connection: the context of the query whose
/// response is arriving, and the bytes of that response so far.
pub struct ResponseCapturer {
    pending: Option<ProxyContext>,
    buffer: Vec<u8>,
}

/// What ends with nothing: no cache write, no record.
pub open spec fn nothing(done: Finalized) -> bool {
    done.cache_task is None && done.exec_log is None
}

impl ResponseCapturer {
    /// The context of the query whose response is arriving.
    pub closed spec fn pending(&self) -> Option<ProxyContext> {
        self.pending
    }

    /// The bytes captured since the pending context was installed.
    pub closed spec fn captured(&self) -> Seq<u8> {
        self.buffer@
    }

    /// A capturer with no query pending and nothing captured.
    pub fn new() -> (c: ResponseCapturer)
        ensures
            c.pending() is None,
            c.captured() == Seq::<u8>::empty(),
    {
        ResponseCapturer { pending: None, buffer: Vec::new() }
    }

    /// Whether a query is pending.
    pub fn has_pending(&self) -> (b: bool)
        ensures
            b == self.pending() is Some,
    {
        self.pending.is_some()
    }

    /// Number of bytes captured.
    pub fn captured_len(&self) -> (n: usize)
        ensures
            n == self.captured().len(),
    {
        self.buffer.len()
    }

    /// Takes in one chunk of bytes from upstream, at `now`, together with
    /// the context that the request half has handed over since the last
    /// chunk, if any.
    ///
    /// A new context ends the pending one first: what the pending one leads
    /// to is computed from the bytes captured for it, before the new context
    /// takes its place and the capture starts again with this chunk. Without
    /// a new context the chunk is added to the capture.
    pub fn on_chunk(
        &mut self,
        handler: &mut VirtDBConnectionHandler,
        incoming: Option<ProxyContext>,
        data: &[u8],
        now: u64,
    ) -> (done: Finalized)
        ensures
            match incoming {
                Some(ctx) => {
                    &&& final(self).pending() == Some(timed(ctx, now))
                    &&& final(self).captured() == data@
                    &&& match old(self).pending() {
                        Some(previous) => finalizes(
                            done,
                            previous,
                            old(self).captured(),
                            match previous.sql {
                                Some(sql) => fingerprint(sql@),
                                None => None,
                            },
                        ),
                        None => nothing(done),
                    }
                },
                None => {
                    &&& final(self).pending() == (match old(self).pending() {
                        Some(previous) => Some(timed(previous, now)),
                        None => None,
                    })
                    &&& final(self).captured() == old(self).captured() + data@
                    &&& nothing(done)
                },
            },
    {
        let mut done = Finalized { cache_task: None, exec_log: None };
        match incoming {
            Some(ctx) => {
                match self.pending.take() {
                    Some(previous) => {
                        done = handler.handle_remote_response_finished(&previous, &self.buffer);
                    },
                    None => {},
                }
                self.buffer.clear();
                self.pending = Some(ctx);
            },
            None => {},
        }
        let ghost before = self.buffer@;
        self.buffer.extend_from_slice(data);
        assert(self.buffer@ =~= before + data@);
        match self.pending.take() {
            Some(ctx) => {
                let mut ctx = ctx;
                handler.handle_response(&mut ctx, now);
                self.pending = Some(ctx);
            },
            None => {},
        }
        done
    }

    /// Ends the capture as the connection closes: the pending context and the
    /// bytes captured for it are thrown away. No cache write and no record
    /// come of a response that did not arrive in full.
    pub fn close(&mut self)
        ensures
            final(self).pending() is None,
            final(self).captured() == Seq::<u8>::empty(),
    {
        self.pending = None;
        self.buffer.clear();
    }
}

} // verus!
