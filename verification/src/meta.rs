//! The rule table: the cache rules that the administrator configured, as one
//! snapshot that is replaced whole on every refresh.

use crate::sql::pattern::pattern_matches;
use crate::sql::token::{sql_tokens, tokenize, trim_tokens, trimmed, SqlToken};
use crate::text::{normalize, normalized};
use sqlparser::dialect::MySqlDialect;
use vstd::prelude::*;

verus! {

/// One cache rule: a SQL template in which `?` stands for a literal value,
/// for how many seconds a response cached under it stays valid, and the
/// tokens of the template.
#[derive(Debug)]
pub struct CacheConfigEntity {
    pub id: i32,
    pub sql_template: String,
    pub duration: i32,
    pub cache_name: String,
    pub remark: String,
    pub enabled: i32,
    pub created_by: i64,
    pub updated_by: i64,
    /// The tokens of `sql_template`, without blank tokens.
    pub cached_sql_parser_token: Vec<SqlToken>,
}

/// One row of the rule source: id, SQL template, duration in seconds.
pub struct RuleRow {
    pub id: i32,
    pub sql_template: String,
    pub duration: i32,
}

/// The tokens that stand for a template: those of its normalized text,
/// without blank tokens; none where the tokenizer fails on it.
pub open spec fn template_tokens(template: Seq<char>) -> Seq<SqlToken> {
    match sql_tokens(normalized(template)) {
        Some(tokens) => trimmed(tokens),
        None => Seq::empty(),
    }
}

impl CacheConfigEntity {
    /// Whether the stored tokens are those of the stored template.
    pub open spec fn wf(&self) -> bool {
        self.cached_sql_parser_token@ == template_tokens(self.sql_template@)
    }

    /// Whether the rule was built from the given row.
    pub open spec fn is_of(&self, row: RuleRow) -> bool {
        &&& self.id == row.id
        &&& self.sql_template == row.sql_template
        &&& self.duration == row.duration
        &&& self.cache_name@ == Seq::<char>::empty()
        &&& self.remark@ == Seq::<char>::empty()
        &&& self.enabled == -1
        &&& self.created_by == -1
        &&& self.updated_by == -1
        &&& self.wf()
    }

    /// The rule of one row of the rule source. The template is tokenized
    /// here, once, so that no request has to do it again.
    pub fn from_row(row: RuleRow, dialect: &MySqlDialect) -> (rule: CacheConfigEntity)
        ensures
            rule.is_of(row),
    {
        let text = normalize(row.sql_template.as_str());
        let tokens = match tokenize(dialect, text.as_str()) {
            Some(tokens) => trim_tokens(tokens),
            None => Vec::new(),
        };
        CacheConfigEntity {
            id: row.id,
            sql_template: row.sql_template,
            duration: row.duration,
            cache_name: String::new(),
            remark: String::new(),
            enabled: -1,
            created_by: -1,
            updated_by: -1,
            cached_sql_parser_token: tokens,
        }
    }

    /// Whether a SQL text falls under this rule.
    pub open spec fn covers(&self, sql: Seq<char>) -> bool {
        pattern_matches(self.cached_sql_parser_token@, normalized(sql))
    }
}

/// Whether `rules` is the snapshot that a refresh builds from `rows`: one rule
/// per row, in the order of the rows.
pub open spec fn snapshot_of(rules: Seq<CacheConfigEntity>, rows: Seq<RuleRow>) -> bool {
    &&& rules.len() == rows.len()
    &&& forall|i: int| 0 <= i < rules.len() ==> (#[trigger] rules[i]).is_of(rows[i])
}

/// The published snapshot of the cache rules.
pub struct RuleTable {
    list: Vec<CacheConfigEntity>,
}

impl View for RuleTable {
    type V = Seq<CacheConfigEntity>;

    closed spec fn view(&self) -> Seq<CacheConfigEntity> {
        self.list@
    }
}

impl RuleTable {
    /// A table without rules.
    pub fn new() -> (t: RuleTable)
        ensures
            t@.len() == 0,
    {
        RuleTable { list: Vec::new() }
    }

    /// The current snapshot.
    pub fn get_cache_config_entity_list(&self) -> (list: &Vec<CacheConfigEntity>)
        ensures
            list@ == self@,
    {
        &self.list
    }

    /// Publishes a new snapshot in place of the current one.
    pub fn set_cache_config_entity_list(&mut self, entity_list: Vec<CacheConfigEntity>)
        ensures
            final(self)@ == entity_list@,
    {
        self.list = entity_list;
    }

    /// Ends one refresh cycle. Where the rule source answered, the snapshot
    /// built from its rows is published, whole; where it failed, the previous
    /// snapshot stays as it is.
    pub fn refresh(&mut self, outcome: Option<Vec<RuleRow>>, dialect: &MySqlDialect)
        ensures
            outcome is None ==> final(self)@ == old(self)@,
            outcome matches Some(rows) ==> snapshot_of(final(self)@, rows@),
    {
        match outcome {
            None => {},
            Some(rows) => {
                let list = build_snapshot(rows, dialect);
                self.set_cache_config_entity_list(list);
            },
        }
    }
}

/// Builds the snapshot of a list of rows.
pub fn build_snapshot(rows: Vec<RuleRow>, dialect: &MySqlDialect) -> (rules: Vec<
    CacheConfigEntity,
>)
    ensures
        snapshot_of(rules@, rows@),
{
    let ghost all = rows@;
    let mut rows = rows;
    // rows are taken from the back, so the list is built in reverse and turned round
    let mut reversed: Vec<CacheConfigEntity> = Vec::new();
    while rows.len() > 0
        invariant
            rows@.len() + reversed@.len() == all.len(),
            rows@ == all.take(rows@.len() as int),
            forall|i: int|
                0 <= i < reversed@.len() ==> (#[trigger] reversed@[i]).is_of(
                    all[all.len() - 1 - i],
                ),
        decreases rows@.len(),
    {
        let row = rows.pop().unwrap();
        reversed.push(CacheConfigEntity::from_row(row, dialect));
    }
    let mut rules: Vec<CacheConfigEntity> = Vec::new();
    while reversed.len() > 0
        invariant
            rules@.len() + reversed@.len() == all.len(),
            forall|i: int|
                0 <= i < reversed@.len() ==> (#[trigger] reversed@[i]).is_of(
                    all[all.len() - 1 - i],
                ),
            forall|i: int| 0 <= i < rules@.len() ==> (#[trigger] rules@[i]).is_of(all[i]),
        decreases reversed@.len(),
    {
        let rule = reversed.pop().unwrap();
        rules.push(rule);
    }
    rules
}

} // verus!
