//! What the proxy says to the cache store: the key of a SQL text, the time
//! to live of an entry, and the write that a captured response leads to.

use vstd::prelude::*;

verus! {

/// Shortest time, in seconds, that a cache entry lives.
pub const MIN_TTL_SECONDS: i32 = 60;

/// The key under which the response to a SQL text is stored: the text as it
/// was received, between double quotes, behind `cache:`.
pub open spec fn cache_key_of(sql: Seq<char>) -> Seq<char> {
    seq!['c', 'a', 'c', 'h', 'e', ':', '"'] + sql + seq!['"']
}

/// The time to live of an entry written under a rule: the rule's duration,
/// and the minimum where the rule asks for less.
pub open spec fn ttl_of(duration: i32) -> i32 {
    if duration < MIN_TTL_SECONDS {
        MIN_TTL_SECONDS
    } else {
        duration
    }
}

/// Builds the cache key of a SQL text.
pub fn cache_key(sql: &str) -> (key: String)
    ensures
        key@ == cache_key_of(sql@),
{
    proof {
        reveal_strlit("cache:\"");
        reveal_strlit("\"");
    }
    let mut key = String::from_str("cache:\"");
    key.append(sql);
    key.append("\"");
    assert(key@ =~= cache_key_of(sql@));
    key
}

/// Two texts have the same key exactly when they are the same text.
pub proof fn lemma_cache_key_injective(a: Seq<char>, b: Seq<char>)
    ensures
        cache_key_of(a) == cache_key_of(b) <==> a == b,
{
    if cache_key_of(a) == cache_key_of(b) {
        assert(cache_key_of(a).len() == a.len() + 8);
        assert(cache_key_of(b).len() == b.len() + 8);
        assert forall|i: int| 0 <= i < a.len() implies a[i] == b[i] by {
            assert(cache_key_of(a)[i + 7] == a[i]);
            assert(cache_key_of(b)[i + 7] == b[i]);
        }
        assert(a =~= b);
    }
}

/// Computes the time to live of an entry from its rule's duration.
pub fn cache_ttl(duration: i32) -> (ttl: i32)
    ensures
        ttl == ttl_of(duration),
        ttl >= MIN_TTL_SECONDS,
{
    if duration < MIN_TTL_SECONDS {
        MIN_TTL_SECONDS
    } else {
        duration
    }
}

/// A captured response that waits to be written to the cache.
#[derive(Debug, Eq, PartialEq, Clone)]
pub struct CacheTaskInfo {
    sql: String,
    body: Vec<u8>,
    duration: i32,
}

/// One write to the cache store: overwrite `key` with `value`, to expire
/// after `ttl_seconds`.
#[derive(Debug, Eq, PartialEq, Clone)]
pub struct CacheWrite {
    pub key: String,
    pub value: Vec<u8>,
    pub ttl_seconds: u64,
}

impl CacheTaskInfo {
    /// The SQL text whose response was captured.
    pub closed spec fn spec_sql(&self) -> Seq<char> {
        self.sql@
    }

    /// The captured response.
    pub closed spec fn spec_body(&self) -> Seq<u8> {
        self.body@
    }

    /// The duration of the rule under which the response was captured.
    pub closed spec fn spec_duration(&self) -> i32 {
        self.duration
    }

    /// The task to cache `body` as the response to `sql`.
    pub fn new(sql: String, body: Vec<u8>, duration: i32) -> (task: CacheTaskInfo)
        ensures
            task.spec_sql() == sql@,
            task.spec_body() == body@,
            task.spec_duration() == duration,
    {
        CacheTaskInfo { sql, body, duration }
    }

    /// The SQL text whose response was captured.
    pub fn sql(&self) -> (sql: &String)
        ensures
            sql@ == self.spec_sql(),
    {
        &self.sql
    }

    /// The captured response.
    pub fn body(&self) -> (body: &Vec<u8>)
        ensures
            body@ == self.spec_body(),
    {
        &self.body
    }

    /// The duration of the rule under which the response was captured.
    pub fn duration(&self) -> (duration: i32)
        ensures
            duration == self.spec_duration(),
    {
        self.duration
    }

    /// The write that stores the captured response: under the key of its SQL
    /// text, for the rule's duration but no less than the minimum.
    pub fn into_write(self) -> (w: CacheWrite)
        ensures
            w.key@ == cache_key_of(self.spec_sql()),
            w.value@ == self.spec_body(),
            w.ttl_seconds == ttl_of(self.spec_duration()),
    {
        let key = cache_key(self.sql.as_str());
        let ttl = cache_ttl(self.duration);
        CacheWrite { key, value: self.body, ttl_seconds: ttl as u64 }
    }
}

} // verus!
