//! Execution records and their aggregation into the rows that are reported
//! to the admin service.

use crate::config::VirtDBConfig;
use crate::math::avg::{clamp_i32, mean, AveragedCollection};
use crate::text::{decimal, int_to_string};
use itertools::Itertools;
use vstd::prelude::*;

verus! {

/// The record of one completed query.
#[derive(Clone, Debug, Eq, PartialEq)]
pub struct ExecLog {
    /// The fingerprint of the query.
    pub sql_str: String,
    /// Milliseconds from the arrival of the request to the end of its response.
    pub total_duration: i64,
    /// Milliseconds that the upstream database took.
    pub mysql_duration: i64,
    /// Milliseconds that the cache lookup took.
    pub redis_duration: i64,
    /// Whether the response came from the cache.
    pub from_cache: bool,
}

/// The records of one fingerprint over one reporting window, summed up.
#[derive(Debug)]
pub struct MetricHistory {
    pub sql_str: String,
    pub db_server_port: String,
    pub database_name: String,
    pub avg_duration: i32,
    pub max_duration: i64,
    pub min_duration: i64,
    pub exec_count: usize,
    pub cache_hit_count: i32,
    pub created_at: i64,
}

/// What the proxy reports to the admin service: its listening port and the
/// rows of one window.
#[derive(Debug)]
pub struct VtNodeRegisterParam {
    pub port: String,
    pub metric_history_list: Vec<MetricHistory>,
}

impl ExecLog {
    /// A copy of the record.
    pub fn duplicate(&self) -> (r: ExecLog)
        ensures
            r == *self,
    {
        ExecLog {
            sql_str: self.sql_str.clone(),
            total_duration: self.total_duration,
            mysql_duration: self.mysql_duration,
            redis_duration: self.redis_duration,
            from_cache: self.from_cache,
        }
    }

    /// Whether two records agree in every field.
    pub open spec fn same(&self, other: &ExecLog) -> bool {
        &&& self.sql_str@ == other.sql_str@
        &&& self.total_duration == other.total_duration
        &&& self.mysql_duration == other.mysql_duration
        &&& self.redis_duration == other.redis_duration
        &&& self.from_cache == other.from_cache
    }

    /// Compares two records field by field.
    pub fn is_same(&self, other: &ExecLog) -> (b: bool)
        ensures
            b == self.same(other),
    {
        self.sql_str == other.sql_str && self.total_duration == other.total_duration
            && self.mysql_duration == other.mysql_duration && self.redis_duration
            == other.redis_duration && self.from_cache == other.from_cache
    }
}

/// A copy of the list of records held for the next report.
pub fn get_exec_log_list_copy(list: &Vec<ExecLog>) -> (copy: Option<Vec<ExecLog>>)
    ensures
        copy matches Some(v) && v@ == list@,
{
    let mut v: Vec<ExecLog> = Vec::new();
    let mut i: usize = 0;
    while i < list.len()
        invariant
            i <= list@.len(),
            v@ == list@.take(i as int),
        decreases list@.len() - i,
    {
        v.push(list[i].duplicate());
        i = i + 1;
        assert(v@ =~= list@.take(i as int));
    }
    assert(list@.take(i as int) =~= list@);
    Some(v)
}

/// Adds a record to the list held for the next report.
pub fn record_exec_log(list: &mut Vec<ExecLog>, exec_log: ExecLog)
    ensures
        final(list)@ == old(list)@.push(exec_log),
{
    list.push(exec_log);
}

/// Whether a record agrees with one of the reported ones.
pub open spec fn is_expired(log: ExecLog, expired: Seq<ExecLog>) -> bool {
    exists|j: int| 0 <= j < expired.len() && log.same(&#[trigger] expired[j])
}

/// The records that stay after the reported ones are taken out.
pub open spec fn unexpired(list: Seq<ExecLog>, expired: Seq<ExecLog>) -> Seq<ExecLog>
    decreases list.len(),
{
    if list.len() == 0 {
        Seq::empty()
    } else if is_expired(list.last(), expired) {
        unexpired(list.drop_last(), expired)
    } else {
        unexpired(list.drop_last(), expired).push(list.last())
    }
}

/// Tests whether a record agrees with one of the reported ones.
fn expired_contains(log: &ExecLog, expired: &Vec<ExecLog>) -> (b: bool)
    ensures
        b == is_expired(*log, expired@),
{
    let mut j: usize = 0;
    while j < expired.len()
        invariant
            j <= expired@.len(),
            forall|k: int| 0 <= k < j ==> !log.same(&#[trigger] expired@[k]),
        decreases expired@.len() - j,
    {
        if log.is_same(&expired[j]) {
            return true;
        }
        j = j + 1;
    }
    false
}

/// Takes every record that agrees with a reported one out of the list, and
/// keeps the others in their order.
pub fn remove_exec_logs(list: &mut Vec<ExecLog>, expired_exec_log_list: &Vec<ExecLog>)
    ensures
        final(list)@ == unexpired(old(list)@, expired_exec_log_list@),
{
    let mut kept: Vec<ExecLog> = Vec::new();
    let mut i: usize = 0;
    while i < list.len()
        invariant
            i <= list@.len(),
            list@ == old(list)@,
            kept@ == unexpired(list@.take(i as int), expired_exec_log_list@),
        decreases list@.len() - i,
    {
        assert(list@.take(i + 1).drop_last() =~= list@.take(i as int));
        if !expired_contains(&list[i], expired_exec_log_list) {
            kept.push(list[i].duplicate());
        }
        i = i + 1;
    }
    assert(list@.take(i as int) =~= list@);
    *list = kept;
}

/// Whether text `a` comes before text `b` or equals it, in the order of
/// strings: character by character, by code point, a prefix first.
pub open spec fn str_le(a: Seq<char>, b: Seq<char>) -> bool
    decreases a.len(),
{
    if a.len() == 0 {
        true
    } else if b.len() == 0 {
        false
    } else if a[0] != b[0] {
        (a[0] as u32) < (b[0] as u32)
    } else {
        str_le(a.drop_first(), b.drop_first())
    }
}

/// The records with the given fingerprint, in their order.
pub open spec fn with_key(logs: Seq<ExecLog>, key: Seq<char>) -> Seq<ExecLog>
    decreases logs.len(),
{
    if logs.len() == 0 {
        Seq::empty()
    } else if logs.last().sql_str@ == key {
        with_key(logs.drop_last(), key).push(logs.last())
    } else {
        with_key(logs.drop_last(), key)
    }
}

/// The records of a list of groups, one group behind the other.
pub open spec fn joined(groups: Seq<Vec<ExecLog>>) -> Seq<ExecLog>
    decreases groups.len(),
{
    if groups.len() == 0 {
        Seq::empty()
    } else {
        joined(groups.drop_last()) + groups.last()@
    }
}

/// Whether the records stand in ascending order of their fingerprints.
pub open spec fn ascending(logs: Seq<ExecLog>) -> bool {
    forall|i: int, j: int|
        0 <= i < j < logs.len() ==> str_le(#[trigger] logs[i].sql_str@, #[trigger] logs[j].sql_str@)
}

/// Whether `groups` cuts a list of records into its runs: every group holds
/// at least one record, the records of a group share their fingerprint, and
/// two groups that follow each other differ in it.
pub open spec fn are_runs(groups: Seq<Vec<ExecLog>>) -> bool {
    &&& forall|g: int| 0 <= g < groups.len() ==> (#[trigger] groups[g])@.len() > 0
    &&& forall|g: int, i: int|
        0 <= g < groups.len() && 0 <= i < groups[g]@.len() ==> (#[trigger] groups[g]@[i]).sql_str@
            == groups[g]@[0].sql_str@
    &&& forall|g: int|
        0 <= g && g + 1 < groups.len() ==> (#[trigger] groups[g])@[0].sql_str@ != groups[g
            + 1]@[0].sql_str@
}

/// Trusted: `itertools::Itertools::sorted_by_key` sorts the records by their
/// fingerprint, ascending in the order of strings, and is stable: records
/// with the same fingerprint keep their order. The records that come out are
/// copies of those that went in.
#[verifier::external_body]
fn sort_by_sql(logs: &Vec<ExecLog>) -> (sorted: Vec<ExecLog>)
    ensures
        ascending(sorted@),
        forall|key: Seq<char>| #[trigger] with_key(sorted@, key) == with_key(logs@, key),
{
    logs.iter().sorted_by_key(|v| v.sql_str.clone()).cloned().collect()
}

/// Trusted: `itertools::Itertools::group_by` cuts the records into runs of
/// equal fingerprint, in their order: no record is lost, added or moved.
#[verifier::external_body]
fn group_by_sql(logs: &Vec<ExecLog>) -> (groups: Vec<Vec<ExecLog>>)
    ensures
        joined(groups@) == logs@,
        are_runs(groups@),
{
    let runs = logs.iter().group_by(|v| v.sql_str.to_string());
    runs.into_iter().map(|(_, group)| group.cloned().collect()).collect()
}

/// The total durations of a list of records.
pub open spec fn durations(logs: Seq<ExecLog>) -> Seq<i64> {
    logs.map_values(|l: ExecLog| l.total_duration)
}

/// The longest total duration among the records, and -1 where none is longer.
pub open spec fn max_duration(logs: Seq<ExecLog>) -> int
    decreases logs.len(),
{
    if logs.len() == 0 {
        -1
    } else if max_duration(logs.drop_last()) < logs.last().total_duration {
        logs.last().total_duration as int
    } else {
        max_duration(logs.drop_last())
    }
}

/// The shortest total duration among the records, and the largest number of
/// 64 bits where there is no record.
pub open spec fn min_duration(logs: Seq<ExecLog>) -> int
    decreases logs.len(),
{
    if logs.len() == 0 {
        i64::MAX as int
    } else if min_duration(logs.drop_last()) > logs.last().total_duration {
        logs.last().total_duration as int
    } else {
        min_duration(logs.drop_last())
    }
}

/// How many of the records were served from the cache.
pub open spec fn cache_hits(logs: Seq<ExecLog>) -> nat
    decreases logs.len(),
{
    if logs.len() == 0 {
        0
    } else if logs.last().from_cache {
        cache_hits(logs.drop_last()) + 1
    } else {
        cache_hits(logs.drop_last())
    }
}

/// Whether `row` sums up the records of one fingerprint: how many there are,
/// how many of them were cache hits, and the mean, the shortest and the
/// longest of their total durations.
pub open spec fn sums_up(row: MetricHistory, logs: Seq<ExecLog>, port: Seq<char>, now: i64) -> bool {
    &&& logs.len() > 0
    &&& row.sql_str@ == logs[0].sql_str@
    &&& row.db_server_port@ == port
    &&& row.database_name@ == Seq::<char>::empty()
    &&& row.avg_duration == clamp_i32(mean(durations(logs)))
    &&& row.max_duration == max_duration(logs)
    &&& row.min_duration == min_duration(logs)
    &&& row.exec_count == logs.len()
    &&& row.cache_hit_count == clamp_i32(cache_hits(logs) as int)
    &&& row.created_at == now
}

/// Sums up the records of one fingerprint.
pub fn summarize(group: &Vec<ExecLog>, port: &str, now: i64) -> (row: MetricHistory)
    requires
        group@.len() > 0,
    ensures
        sums_up(row, group@, port@, now),
{
    let mut avg_calculator = AveragedCollection::new();
    let mut max_duration: i64 = -1;
    let mut min_duration: i64 = i64::MAX;
    let mut cache_hit_count: usize = 0;
    let mut total_count: usize = 0;
    while total_count < group.len()
        invariant
            total_count <= group@.len(),
            avg_calculator@ == durations(group@.take(total_count as int)),
            max_duration == self::max_duration(group@.take(total_count as int)),
            min_duration == self::min_duration(group@.take(total_count as int)),
            cache_hit_count == cache_hits(group@.take(total_count as int)),
            cache_hit_count <= total_count,
        decreases group@.len() - total_count,
    {
        let exec_log = &group[total_count];
        proof {
            let next = group@.take(total_count + 1);
            assert(next.drop_last() =~= group@.take(total_count as int));
            assert(next.last() == group@[total_count as int]);
            assert(durations(next) =~= durations(group@.take(total_count as int)).push(
                exec_log.total_duration,
            ));
        }
        avg_calculator.add(exec_log.total_duration);
        if max_duration < exec_log.total_duration {
            max_duration = exec_log.total_duration;
        }
        if min_duration > exec_log.total_duration {
            min_duration = exec_log.total_duration;
        }
        if exec_log.from_cache {
            cache_hit_count = cache_hit_count + 1;
        }
        total_count = total_count + 1;
    }
    assert(group@.take(total_count as int) =~= group@);
    let hits: i32 = if cache_hit_count > 2147483647 {
        2147483647
    } else {
        cache_hit_count as i32
    };
    MetricHistory {
        sql_str: group[0].sql_str.clone(),
        db_server_port: port.to_owned(),
        database_name: String::new(),
        avg_duration: avg_calculator.whole_average(),
        max_duration,
        min_duration,
        exec_count: total_count,
        cache_hit_count: hits,
        created_at: now,
    }
}

/// The fingerprint that the records of group `g` share.
pub open spec fn key_of(groups: Seq<Vec<ExecLog>>, g: int) -> Seq<char> {
    groups[g]@[0].sql_str@
}

/// Whether some group has the given fingerprint.
pub open spec fn has_group(groups: Seq<Vec<ExecLog>>, key: Seq<char>) -> bool {
    exists|g: int| 0 <= g < groups.len() && #[trigger] key_of(groups, g) == key
}

/// Whether some record of the list has the given fingerprint.
pub open spec fn has_key(logs: Seq<ExecLog>, key: Seq<char>) -> bool {
    exists|p: int| 0 <= p < logs.len() && (#[trigger] logs[p]).sql_str@ == key
}

/// Whether some row has the given fingerprint.
pub open spec fn has_row(rows: Seq<MetricHistory>, key: Seq<char>) -> bool {
    exists|r: int| 0 <= r < rows.len() && (#[trigger] rows[r]).sql_str@ == key
}

/// Whether `rows` is the report on `logs`: one row for each fingerprint that
/// occurs, which sums up the records of that fingerprint, and the rows in
/// ascending order of their fingerprints.
pub open spec fn aggregates(
    rows: Seq<MetricHistory>,
    logs: Seq<ExecLog>,
    port: Seq<char>,
    now: i64,
) -> bool {
    &&& forall|r: int|
        0 <= r < rows.len() ==> sums_up(
            #[trigger] rows[r],
            with_key(logs, rows[r].sql_str@),
            port,
            now,
        )
    &&& forall|i: int| 0 <= i < logs.len() ==> has_row(rows, (#[trigger] logs[i]).sql_str@)
    &&& forall|r: int, q: int|
        0 <= r < q < rows.len() ==> (#[trigger] rows[r]).sql_str@ != (#[trigger] rows[q]).sql_str@
            && str_le(rows[r].sql_str@, rows[q].sql_str@)
}

/// Two texts of which each comes before the other or equals it are equal.
pub proof fn lemma_str_le_antisymmetric(a: Seq<char>, b: Seq<char>)
    requires
        str_le(a, b),
        str_le(b, a),
    ensures
        a == b,
    decreases a.len(),
{
    if a.len() == 0 {
        assert(a =~= b);
    } else {
        lemma_str_le_antisymmetric(a.drop_first(), b.drop_first());
        assert(a =~= seq![a[0]] + a.drop_first());
        assert(b =~= seq![b[0]] + b.drop_first());
    }
}

/// Picking the records of one fingerprint goes through concatenation.
proof fn lemma_with_key_add(a: Seq<ExecLog>, b: Seq<ExecLog>, key: Seq<char>)
    ensures
        with_key(a + b, key) == with_key(a, key) + with_key(b, key),
    decreases b.len(),
{
    if b.len() == 0 {
        assert(a + b =~= a);
        assert(with_key(a, key) + with_key(b, key) =~= with_key(a, key));
    } else {
        lemma_with_key_add(a, b.drop_last(), key);
        assert((a + b).drop_last() =~= a + b.drop_last());
        assert((a + b).last() == b.last());
        assert(with_key(a, key) + with_key(b.drop_last(), key).push(b.last()) =~= (with_key(a, key)
            + with_key(b.drop_last(), key)).push(b.last()));
    }
}

/// Of records that share one fingerprint, picking by that fingerprint keeps
/// all and picking by another keeps none.
proof fn lemma_with_key_uniform(logs: Seq<ExecLog>, own: Seq<char>, key: Seq<char>)
    requires
        forall|i: int| 0 <= i < logs.len() ==> (#[trigger] logs[i]).sql_str@ == own,
    ensures
        with_key(logs, key) == if key == own {
            logs
        } else {
            Seq::empty()
        },
    decreases logs.len(),
{
    if logs.len() > 0 {
        lemma_with_key_uniform(logs.drop_last(), own, key);
        assert(logs.last() == logs[logs.len() - 1]);
        assert(logs.drop_last().push(logs.last()) =~= logs);
    } else {
        assert(logs =~= Seq::empty());
    }
}

/// Picking by a fingerprint keeps records of that fingerprint only, and
/// keeps at least one where one occurs.
proof fn lemma_with_key_content(logs: Seq<ExecLog>, key: Seq<char>)
    ensures
        forall|i: int|
            0 <= i < with_key(logs, key).len() ==> (#[trigger] with_key(logs, key)[i]).sql_str@
                == key,
        with_key(logs, key).len() > 0 <==> has_key(logs, key),
    decreases logs.len(),
{
    if logs.len() > 0 {
        let init = logs.drop_last();
        lemma_with_key_content(init, key);
        if has_key(init, key) {
            let p = choose|p: int| 0 <= p < init.len() && (#[trigger] init[p]).sql_str@ == key;
            assert(logs[p] == init[p]);
        }
        if logs.last().sql_str@ == key {
            assert(logs[logs.len() - 1].sql_str@ == key);
        }
        if has_key(logs, key) {
            let p = choose|p: int| 0 <= p < logs.len() && (#[trigger] logs[p]).sql_str@ == key;
            if p < init.len() {
                assert(init[p] == logs[p]);
            }
        }
    }
}

/// What holds of the runs of an ascending list: each run is all the records
/// of its fingerprint, the runs stand in ascending order of fingerprints that
/// are all different, and every fingerprint of the list has its run.
proof fn lemma_runs(groups: Seq<Vec<ExecLog>>)
    requires
        are_runs(groups),
        ascending(joined(groups)),
    ensures
        forall|g: int|
            0 <= g < groups.len() ==> with_key(joined(groups), #[trigger] key_of(groups, g))
                == groups[g]@,
        forall|g: int, h: int|
            0 <= g < h < groups.len() ==> #[trigger] key_of(groups, g) != #[trigger] key_of(
                groups,
                h,
            ) && str_le(key_of(groups, g), key_of(groups, h)),
        forall|p: int|
            0 <= p < joined(groups).len() ==> has_group(
                groups,
                (#[trigger] joined(groups)[p]).sql_str@,
            ),
        forall|g: int| 0 <= g < groups.len() ==> has_key(joined(groups), #[trigger] key_of(groups, g)),
    decreases groups.len(),
{
    if groups.len() > 0 {
        let n = groups.len() as int;
        let init = groups.drop_last();
        let last = groups.last()@;
        let all = joined(groups);
        let head = joined(init);
        let own = key_of(groups, n - 1);
        assert(all == head + last);
        assert forall|g: int| 0 <= g < init.len() implies #[trigger] key_of(init, g) == key_of(
            groups,
            g,
        ) by {
            assert(init[g] == groups[g]);
        }
        assert(are_runs(init)) by {
            assert forall|g: int| 0 <= g < init.len() implies (#[trigger] init[g])@.len() > 0 by {
                assert(init[g] == groups[g]);
            }
            assert forall|g: int, i: int|
                0 <= g < init.len() && 0 <= i < init[g]@.len() implies (#[trigger] init[g]@[i]).sql_str@
                == init[g]@[0].sql_str@ by {
                assert(init[g] == groups[g]);
                assert(groups[g]@[i].sql_str@ == groups[g]@[0].sql_str@);
            }
            assert forall|g: int| 0 <= g && g + 1 < init.len() implies (#[trigger] init[g])@[0].sql_str@
                != init[g + 1]@[0].sql_str@ by {
                assert(init[g] == groups[g]);
                assert(init[g + 1] == groups[g + 1]);
            }
        }
        assert(ascending(head)) by {
            assert forall|i: int, j: int| 0 <= i < j < head.len() implies str_le(
                #[trigger] head[i].sql_str@,
                #[trigger] head[j].sql_str@,
            ) by {
                assert(all[i] == head[i] && all[j] == head[j]);
            }
        }
        lemma_runs(init);
        // every record of the last run has the run's fingerprint
        assert forall|i: int| 0 <= i < last.len() implies (#[trigger] last[i]).sql_str@ == own by {
            assert(groups[n - 1]@[i].sql_str@ == groups[n - 1]@[0].sql_str@);
        }
        // the last run starts behind every earlier one, so its fingerprint is no smaller
        assert forall|g: int| 0 <= g < n - 1 implies str_le(#[trigger] key_of(groups, g), own) by {
            assert(has_key(head, key_of(init, g)));
            let p = choose|p: int|
                0 <= p < head.len() && (#[trigger] head[p]).sql_str@ == key_of(init, g);
            assert(all[p] == head[p]);
            assert(all[head.len() as int] == last[0]);
            assert(str_le(all[p].sql_str@, all[head.len() as int].sql_str@));
        }
        // and is different from each of theirs
        assert forall|g: int| 0 <= g < n - 1 implies #[trigger] key_of(groups, g) != own by {
            if key_of(groups, g) == own {
                assert(groups[n - 2]@[0].sql_str@ != groups[n - 2 + 1]@[0].sql_str@);
                if g < n - 2 {
                    assert(key_of(init, g) != key_of(init, n - 2) && str_le(
                        key_of(init, g),
                        key_of(init, n - 2),
                    ));
                    assert(str_le(key_of(groups, n - 2), own));
                    lemma_str_le_antisymmetric(key_of(groups, g), key_of(groups, n - 2));
                }
            }
        }
        assert forall|g: int, h: int| 0 <= g < h < groups.len() implies #[trigger] key_of(
            groups,
            g,
        ) != #[trigger] key_of(groups, h) && str_le(key_of(groups, g), key_of(groups, h)) by {
            if h < n - 1 {
                assert(key_of(init, g) != key_of(init, h) && str_le(
                    key_of(init, g),
                    key_of(init, h),
                ));
            }
        }
        assert forall|g: int| 0 <= g < groups.len() implies with_key(
            all,
            #[trigger] key_of(groups, g),
        ) == groups[g]@ by {
            let key = key_of(groups, g);
            lemma_with_key_add(head, last, key);
            lemma_with_key_uniform(last, own, key);
            if g < n - 1 {
                assert(with_key(head, key_of(init, g)) == init[g]@);
                assert(groups[g]@ + Seq::<ExecLog>::empty() =~= groups[g]@);
            } else {
                lemma_with_key_content(head, own);
                if has_key(head, own) {
                    let p = choose|p: int| 0 <= p < head.len() && (#[trigger] head[p]).sql_str@ == own;
                    assert(has_group(init, head[p].sql_str@));
                    let k = choose|k: int| 0 <= k < init.len() && #[trigger] key_of(init, k) == own;
                    assert(key_of(groups, k) != own);
                }
                assert(with_key(head, own) =~= Seq::<ExecLog>::empty());
                assert(Seq::<ExecLog>::empty() + last =~= last);
            }
        }
        assert forall|p: int| 0 <= p < all.len() implies has_group(
            groups,
            (#[trigger] all[p]).sql_str@,
        ) by {
            if p < head.len() {
                assert(all[p] == head[p]);
                assert(has_group(init, head[p].sql_str@));
                let k = choose|k: int|
                    0 <= k < init.len() && #[trigger] key_of(init, k) == head[p].sql_str@;
                assert(key_of(groups, k) == all[p].sql_str@);
            } else {
                assert(all[p] == last[p - head.len()]);
                assert(key_of(groups, n - 1) == all[p].sql_str@);
            }
        }
        assert forall|g: int| 0 <= g < groups.len() implies has_key(
            all,
            #[trigger] key_of(groups, g),
        ) by {
            if g < n - 1 {
                assert(has_key(head, key_of(init, g)));
                let p = choose|p: int|
                    0 <= p < head.len() && (#[trigger] head[p]).sql_str@ == key_of(init, g);
                assert(all[p] == head[p]);
            } else {
                assert(all[head.len() as int] == last[0]);
            }
        }
    }
}

/// Sums up the records of one reporting window: one row for each
/// fingerprint, in ascending order of the fingerprints.
pub fn aggregate(exec_log_list: &Vec<ExecLog>, port: &str, now: i64) -> (rows: Vec<MetricHistory>)
    ensures
        aggregates(rows@, exec_log_list@, port@, now),
{
    let sorted = sort_by_sql(exec_log_list);
    let groups = group_by_sql(&sorted);
    let mut rows: Vec<MetricHistory> = Vec::new();
    let mut g: usize = 0;
    while g < groups.len()
        invariant
            g <= groups@.len(),
            rows@.len() == g,
            are_runs(groups@),
            forall|r: int| 0 <= r < g ==> sums_up(#[trigger] rows@[r], groups@[r]@, port@, now),
        decreases groups@.len() - g,
    {
        let row = summarize(&groups[g], port, now);
        rows.push(row);
        g = g + 1;
    }
    proof {
        let logs = exec_log_list@;
        lemma_runs(groups@);
        assert forall|r: int| 0 <= r < rows@.len() implies sums_up(
            #[trigger] rows@[r],
            with_key(logs, rows@[r].sql_str@),
            port@,
            now,
        ) by {
            assert(rows@[r].sql_str@ == key_of(groups@, r));
            assert(with_key(sorted@, key_of(groups@, r)) == groups@[r]@);
            assert(with_key(sorted@, key_of(groups@, r)) == with_key(logs, key_of(groups@, r)));
        }
        assert forall|i: int| 0 <= i < logs.len() implies has_row(
            rows@,
            (#[trigger] logs[i]).sql_str@,
        ) by {
            let key = logs[i].sql_str@;
            lemma_with_key_content(logs, key);
            lemma_with_key_content(sorted@, key);
            assert(with_key(sorted@, key) == with_key(logs, key));
            assert(has_key(logs, key));
            let p = choose|p: int| 0 <= p < sorted@.len() && (#[trigger] sorted@[p]).sql_str@ == key;
            assert(has_group(groups@, sorted@[p].sql_str@));
            let k = choose|k: int| 0 <= k < groups@.len() && #[trigger] key_of(groups@, k) == key;
            assert(rows@[k].sql_str@ == key);
        }
        assert forall|r: int, q: int| 0 <= r < q < rows@.len() implies (#[trigger] rows@[r]).sql_str@
            != (#[trigger] rows@[q]).sql_str@ && str_le(rows@[r].sql_str@, rows@[q].sql_str@) by {
            assert(rows@[r].sql_str@ == key_of(groups@, r));
            assert(rows@[q].sql_str@ == key_of(groups@, q));
        }
    }
    rows
}

/// Makes the report on one window: the rows of its records, stamped with
/// `now` in seconds since the epoch, under the port on which this proxy
/// listens.
pub fn handle_metrics(exec_log_list: Vec<ExecLog>, sys_config: &VirtDBConfig, now: i64) -> (param:
    VtNodeRegisterParam)
    ensures
        param.port@ == decimal(sys_config.server.port as int),
        aggregates(param.metric_history_list@, exec_log_list@, param.port@, now),
{
    let port = int_to_string(sys_config.server.port);
    let metric_history_list = aggregate(&exec_log_list, port.as_str(), now);
    VtNodeRegisterParam { port, metric_history_list }
}

} // verus!
