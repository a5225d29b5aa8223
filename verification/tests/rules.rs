use sqlparser::dialect::MySqlDialect;
use virt_db::meta::{build_snapshot, CacheConfigEntity, RuleRow, RuleTable};
use virt_db::sql::token::{tokenize, trim_tokens, SqlToken};
use virt_db::text::{is_white_space, normalize, remove_comments};

fn row(id: i32, template: &str, duration: i32) -> RuleRow {
    RuleRow {
        id,
        sql_template: template.to_string(),
        duration,
    }
}

#[test]
fn stored_tokens_are_those_of_the_template() {
    let dialect = MySqlDialect {};
    let template = "  select * from article  where id = ? -- by id\n";
    let rule = CacheConfigEntity::from_row(row(7, template, 30), &dialect);
    assert_eq!(rule.id, 7);
    assert_eq!(rule.sql_template, template);
    assert_eq!(rule.duration, 30);
    assert_eq!(rule.cache_name, "");
    assert_eq!(rule.remark, "");
    assert_eq!(rule.enabled, -1);
    assert_eq!(rule.created_by, -1);
    assert_eq!(rule.updated_by, -1);
    let expected = trim_tokens(tokenize(&dialect, &normalize(template)).unwrap());
    assert_eq!(rule.cached_sql_parser_token, expected);
    assert_eq!(
        rule.cached_sql_parser_token,
        vec![
            SqlToken::Word("SELECT".to_string()),
            SqlToken::Other("*".to_string()),
            SqlToken::Word("FROM".to_string()),
            SqlToken::Word("ARTICLE".to_string()),
            SqlToken::Word("WHERE".to_string()),
            SqlToken::Word("ID".to_string()),
            SqlToken::Other("=".to_string()),
            SqlToken::Placeholder("?".to_string()),
        ]
    );
    let broken = CacheConfigEntity::from_row(row(8, "select 'abc", 30), &dialect);
    assert!(broken.cached_sql_parser_token.is_empty());
}

#[test]
fn refresh_publishes_whole_snapshots_only() {
    let dialect = MySqlDialect {};
    let mut table = RuleTable::new();
    assert!(table.get_cache_config_entity_list().is_empty());
    table.refresh(None, &dialect);
    assert!(table.get_cache_config_entity_list().is_empty());
    table.refresh(
        Some(vec![row(1, "select 1", 10), row(2, "select 2", 20), row(3, "select 3", 30)]),
        &dialect,
    );
    let ids: Vec<i32> = table.get_cache_config_entity_list().iter().map(|r| r.id).collect();
    assert_eq!(ids, vec![1, 2, 3]);
    // a failed refresh leaves the snapshot as it is
    table.refresh(None, &dialect);
    let ids: Vec<i32> = table.get_cache_config_entity_list().iter().map(|r| r.id).collect();
    assert_eq!(ids, vec![1, 2, 3]);
    table.refresh(Some(vec![row(9, "select 9", 90)]), &dialect);
    let list = table.get_cache_config_entity_list();
    assert_eq!(list.len(), 1);
    assert_eq!((list[0].id, list[0].duration), (9, 90));
    table.set_cache_config_entity_list(build_snapshot(vec![], &dialect));
    assert!(table.get_cache_config_entity_list().is_empty());
}

#[test]
fn comments_are_stripped_and_the_text_trimmed() {
    let strip = |s: &str| remove_comments(s.to_string());
    assert_eq!(strip("select 1"), "select 1");
    assert_eq!(strip("  select 1 \n"), "select 1");
    assert_eq!(strip("select /* a */ 1"), "select  1");
    assert_eq!(strip("select 1 -- tail"), "select 1");
    assert_eq!(strip("select 1 -- c\nfrom t"), "select 1 from t");
    assert_eq!(strip("-- c\n-- d\nselect 1"), "select 1");
    assert_eq!(strip("/* never closed"), "");
    assert_eq!(strip("/**/select/* */1/*"), "select1");
    assert_eq!(strip("a - b / c * d"), "a - b / c * d");
    assert_eq!(strip("a /*/ b */ c"), "a  c");
    assert_eq!(strip("-"), "-");
    assert_eq!(strip("/"), "/");
    assert_eq!(strip(""), "");
    assert_eq!(strip("\u{a0}select 1\u{3000}"), "select 1");
}

#[test]
fn normal_text_is_upper_case_and_trimmed() {
    assert_eq!(normalize("  select a from T \t"), "SELECT A FROM T");
    assert_eq!(normalize("straße"), "STRASSE");
    assert_eq!(normalize(""), "");
}

#[test]
fn white_space_characters() {
    for c in [
        '\t', '\n', '\u{b}', '\u{c}', '\r', ' ', '\u{85}', '\u{a0}', '\u{1680}', '\u{2000}',
        '\u{2005}', '\u{200a}', '\u{2028}', '\u{2029}', '\u{202f}', '\u{205f}', '\u{3000}',
    ] {
        assert!(is_white_space(c), "{:?}", c);
    }
    for c in ['a', '0', '\u{8}', '\u{e}', '\u{200b}', '\u{180e}', '\u{feff}', '_'] {
        assert!(!is_white_space(c), "{:?}", c);
    }
    for n in 0..0x3100u32 {
        if let Some(c) = char::from_u32(n) {
            assert_eq!(is_white_space(c), c.is_whitespace(), "{:x}", n);
        }
    }
}
