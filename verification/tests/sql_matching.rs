use std::collections::HashMap;

use sqlparser::dialect::MySqlDialect;
use virt_db::sql::pattern::{is_sql_pattern_match, match_tokens, token_match};
use virt_db::sql::token::{tokenize, trim_tokens, SqlToken};
use virt_db::utils::{is_pattern_match, normally, try_normally};

fn pairs() -> HashMap<&'static str, &'static str> {
    let mut sqls: HashMap<&str, &str> = HashMap::new();
    sqls.insert(
        "select count(1) from article where channel_id = ?  and tenant_id = ?",
        "select count(1) from article where channel_id = 312  and tenant_id = 1",
    );
    sqls.insert("select count(1) from article where belong_user_id = ? and article_oper_type <> ? and article_status = ? and app_id = ? and tenant_id = ?", "select count(1) from article where belong_user_id = 1 and article_oper_type <> 2 and article_status = 11 and app_id = 0 and tenant_id = 1");
    sqls.insert(
        "select count(1) from article",
        "select count(1) from article",
    );
    sqls.insert(
        "select * from article order by article_id desc limit ?",
        "select * from article order by article_id desc limit 100",
    );
    sqls.insert("select channel_id,count(channel_id) from article group by channel_id having count(channel_id) > ? order by count(channel_id) desc", "select channel_id,count(channel_id) from article group by channel_id having count(channel_id) > 123 order by count(channel_id) desc");
    sqls.insert("select count(1) from article where belong_dept_id = ? and article_oper_type <> ? and article_status =? and app_id = ? and tenant_id = ?", "select count(1) from article where belong_dept_id = 123 and article_oper_type <> 2 and article_status =43 and app_id = 0 and tenant_id = 1");
    sqls.insert("select  str_to_date(publish_time,'%Y-%m-%d') as date,count(publish_time) as count from article where channel_id = ? and article_status = ? and tenant_id = ? and str_to_date(publish_time,'%Y-%m-%d') >= str_to_date(?,'%Y-%m-%d') and str_to_date(publish_time,'%Y-%m-%d')  <= str_to_date(?,'%Y-%m-%d') GROUP BY str_to_date(publish_time,'%Y-%m-%d') ORDER BY publish_time asc", "select  str_to_date(publish_time,'%Y-%m-%d') as date,count(publish_time) as count from article where channel_id = 21 and article_status =3 and tenant_id = 1 and str_to_date(publish_time,'%Y-%m-%d') >= str_to_date('2000-01-01 00:00:00','%Y-%m-%d') and str_to_date(publish_time,'%Y-%m-%d')  <= str_to_date('2000-01-01','%Y-%m-%d') GROUP BY str_to_date(publish_time,'%Y-%m-%d') ORDER BY publish_time asc");
    sqls.insert("SELECT a.article_title,a.article_id,a.article_type,c.channel_name,a.article_status,a.update_time from article a LEFT JOIN channel c on a.channel_id = c.channel_id where a.tenant_id = ? and a.article_id IN(?,?,?) order by field( a.article_id,?,?,?)", "SELECT a.article_title,a.article_id,a.article_type,c.channel_name,a.article_status,a.update_time from article a LEFT JOIN channel c on a.channel_id = c.channel_id where a.tenant_id = 1 and a.article_id IN(1,2,3) order by field( a.article_id,4,5,6)");
    sqls.insert("SELECT a.article_id from article a where a.tenant_id = ? and a.app_id = ? and a.article_status = ? order by a.publish_time desc limit ?,?", "SELECT a.article_id from article a where a.tenant_id = 1 and a.app_id = 4 and a.article_status = 12 order by a.publish_time desc limit 0,123");
    sqls.insert("SELECT a.article_id,a.article_title,a.article_author,a.publish_time,a.click_num from article a  where a.tenant_id = ? and a.article_id IN (?,?,?) order by field( a.article_id,?,?,?)", "SELECT a.article_id,a.article_title,a.article_author,a.publish_time,a.click_num from article a  where a.tenant_id = 1 and a.article_id IN (1,2,3) order by field( a.article_id,1,2,3)");
    sqls.insert("SELECT a.*, b.content FROM article a LEFT JOIN article_content b ON a.article_content_id = b.article_content_id WHERE a.tenant_id = ? AND app_id = ? AND a.article_id IN ( ?, ?, ? )", "SELECT a.*, b.content FROM article a LEFT JOIN article_content b ON a.article_content_id = b.article_content_id WHERE a.tenant_id = 1 AND app_id = 0 AND a.article_id IN ( 1,2,3 )");
    sqls.insert("select /*+ QUERY_TIMEOUT(100000000) */ count(1) from article where channel_id = ? and article_oper_type <> ? and article_status = ? and tenant_id = ? and publish_time LIKE CONCAT(?,'%')", "select /*+ QUERY_TIMEOUT(100000000) */ count(1) from article where channel_id = 2 and article_oper_type <> 2 and article_status =1 and tenant_id = 1 and publish_time LIKE CONCAT(11,'%')");
    sqls
}

#[test]
fn utils_test_match() {
    let sql = "SELECT * FROM article limit 1000,10;";
    let pattern = "SELECT * FROM `article` limit 1000,10;";
    let dialect = MySqlDialect {};
    let matched = is_pattern_match(sql, pattern, &dialect);
    println!("pattern:{:?}\nsql:{:?}\neq:{:?}", pattern, sql, matched);
}

#[test]
fn utils_test_matchs() {
    let dialect = MySqlDialect {};
    for (pattern, sql) in pairs() {
        let matched = is_pattern_match(pattern, sql, &dialect);
        println!("pattern:{:?}\nsql:{:?}\neq:{:?}\n", pattern, sql, matched);
        assert_eq!(true, matched);
    }
}

#[test]
fn sys_sql_test_match() {
    let sql = "SELECT * FROM article where article_id = 116728608290413363";
    let pattern = "SELECT * FROM article where article_id = ?";
    let dialect = MySqlDialect {};
    let matched = is_sql_pattern_match(sql, pattern, &dialect);
    println!("pattern:{:?}\nsql:{:?}\neq:{:?}", pattern, sql, matched);
}

#[test]
fn sys_sql_test_matchs() {
    let dialect = MySqlDialect {};
    for (pattern, sql) in pairs() {
        let matched = is_sql_pattern_match(pattern, sql, &dialect);
        println!("pattern:{:?}\nsql:{:?}\neq:{:?}\n", pattern, sql, matched);
        assert_eq!(true, matched);
    }
}

#[test]
fn tests_test_match() {
    let sql = "SELECT * from user_01 where ID = 123 and name = 'abc123'";
    let pattern = "select * from user where id = ? and name = ?";
    let dialect = MySqlDialect {};
    let matched = is_pattern_match(sql, pattern, &dialect);
    println!("pattern:{:?}\nsql:{:?}\neq:{:?}", pattern, sql, matched);
}

#[test]
fn tests_test_matchs() {
    let dialect = MySqlDialect {};
    for (pattern, sql) in pairs() {
        let matched = is_pattern_match(pattern, sql, &dialect);
        println!("pattern:{:?}\nsql:{:?}\neq:{:?}\n", pattern, sql, matched);
        assert_eq!(true, matched);
    }
}

#[test]
fn test_sql_verify() {
    let sql = r#" SELECT zu.id,zu.account,zu.realname,

 (
	select GROUP_CONCAT(zg.`name` separator ',') from zt_group zg join zt_usergroup zug on zg.id = zug.`group` where zug.account = zu.account
 )
	from zt_user zu
 "#;
    let dialect = &MySqlDialect {};
    let normally_sql = normally(dialect, sql);
    assert_ne!(sql, normally_sql)
}

#[test]
fn normal_form_spaces_tokens_but_not_punctuation() {
    let dialect = MySqlDialect {};
    assert_eq!(
        normally(&dialect, "select  a ,b from t where f( x ) = 1"),
        "select a, b from t where f( x) = 1"
    );
    assert_eq!(normally(&dialect, "select t.a from t"), "select t. a from t");
    assert_eq!(normally(&dialect, "( a )"), "(a)");
    assert_eq!(normally(&dialect, ""), "");
}

#[test]
fn normal_form_of_unlexable_text_is_none() {
    let dialect = MySqlDialect {};
    assert_eq!(try_normally(&dialect, "select 'abc"), None);
    assert_eq!(
        try_normally(&dialect, "select 1"),
        Some("select 1".to_string())
    );
}

#[test]
fn pattern_wildcard() {
    let dialect = MySqlDialect {};
    let template = "SELECT a FROM t WHERE b IN (?, ?, ?)";
    assert!(is_sql_pattern_match(
        template,
        "SELECT a FROM t WHERE b IN (1, 2, 3)",
        &dialect
    ));
    assert!(!is_sql_pattern_match(
        template,
        "SELECT a FROM t WHERE b IN (1, 2)",
        &dialect
    ));
}

#[test]
fn template_matches_itself_and_not_an_unrelated_query() {
    let dialect = MySqlDialect {};
    let template = "SELECT * FROM article WHERE id = ?";
    assert!(is_sql_pattern_match(template, template, &dialect));
    assert!(is_sql_pattern_match(
        template,
        "SELECT * FROM article WHERE id = 7",
        &dialect
    ));
    assert!(!is_sql_pattern_match(
        template,
        "SELECT * FROM author WHERE id = 7",
        &dialect
    ));
    assert!(!is_sql_pattern_match(
        template,
        "SELECT * FROM article WHERE id = 7 AND x = 1",
        &dialect
    ));
}

#[test]
fn placeholder_matches_on_either_side() {
    let dialect = MySqlDialect {};
    assert!(is_sql_pattern_match(
        "select 1 from t where a = 5",
        "select 1 from t where a = ?",
        &dialect
    ));
    assert!(is_sql_pattern_match(
        "select 1 from t where a = ?",
        "select 1 from t where a = 'x'",
        &dialect
    ));
}

#[test]
fn words_compare_by_value_and_case() {
    let dialect = MySqlDialect {};
    assert!(is_sql_pattern_match(
        "SELECT * FROM article",
        "SELECT * FROM `article`",
        &dialect
    ));
    assert!(!is_sql_pattern_match(
        "SELECT * FROM article",
        "select * from article",
        &dialect
    ));
}

#[test]
fn unlexable_sql_matches_nothing() {
    let dialect = MySqlDialect {};
    assert!(!is_sql_pattern_match("", "select 'abc", &dialect));
    assert!(!is_sql_pattern_match("select ?", "select 'abc", &dialect));
    // an unlexable template counts as the empty one
    assert!(is_sql_pattern_match("select 'abc", "  ", &dialect));
    assert!(!is_sql_pattern_match("select 'abc", "select 1", &dialect));
}

#[test]
fn tokenize_gives_the_kinds_of_tokens() {
    let dialect = MySqlDialect {};
    let tokens = tokenize(&dialect, "select `a`, 'b', 12, ? from t").unwrap();
    let tokens = trim_tokens(tokens);
    assert_eq!(
        tokens,
        vec![
            SqlToken::Word("select".to_string()),
            SqlToken::Word("a".to_string()),
            SqlToken::Other(",".to_string()),
            SqlToken::SingleQuotedString("b".to_string()),
            SqlToken::Other(",".to_string()),
            SqlToken::Number("12".to_string(), false),
            SqlToken::Other(",".to_string()),
            SqlToken::Placeholder("?".to_string()),
            SqlToken::Word("from".to_string()),
            SqlToken::Word("t".to_string()),
        ]
    );
    assert_eq!(tokenize(&dialect, "select 'abc"), None);
}

#[test]
fn tokenize_keeps_blank_tokens_and_trim_drops_them() {
    let dialect = MySqlDialect {};
    let tokens = tokenize(&dialect, "a /* c */ b").unwrap();
    assert_eq!(
        tokens,
        vec![
            SqlToken::Word("a".to_string()),
            SqlToken::Whitespace,
            SqlToken::Whitespace,
            SqlToken::Whitespace,
            SqlToken::Word("b".to_string()),
        ]
    );
    let trimmed = trim_tokens(vec![
        SqlToken::Eof,
        SqlToken::Word("a".to_string()),
        SqlToken::Whitespace,
        SqlToken::Word("b".to_string()),
        SqlToken::Eof,
    ]);
    assert_eq!(
        trimmed,
        vec![
            SqlToken::Word("a".to_string()),
            SqlToken::Word("b".to_string())
        ]
    );
}

#[test]
fn token_rules() {
    let w = |s: &str| SqlToken::Word(s.to_string());
    let p = SqlToken::Placeholder("?".to_string());
    assert!(token_match(&w("A"), &w("A")));
    assert!(!token_match(&w("A"), &w("a")));
    assert!(token_match(&p, &w("A")));
    assert!(token_match(&w("A"), &p));
    assert!(token_match(&p, &p));
    assert!(token_match(
        &SqlToken::Number("1".to_string(), false),
        &SqlToken::Number("1".to_string(), false)
    ));
    assert!(!token_match(
        &SqlToken::Number("1".to_string(), false),
        &SqlToken::Number("1".to_string(), true)
    ));
    assert!(!token_match(
        &SqlToken::Number("1".to_string(), false),
        &SqlToken::Number("2".to_string(), false)
    ));
    assert!(token_match(&SqlToken::Char('x'), &SqlToken::Char('x')));
    assert!(!token_match(&SqlToken::Char('x'), &SqlToken::Char('y')));
    assert!(token_match(
        &SqlToken::EscapedStringLiteral("a".to_string()),
        &SqlToken::EscapedStringLiteral("b".to_string())
    ));
    assert!(!token_match(
        &SqlToken::SingleQuotedString("a".to_string()),
        &SqlToken::SingleQuotedString("b".to_string())
    ));
    assert!(!token_match(
        &SqlToken::NationalStringLiteral("a".to_string()),
        &SqlToken::NationalStringLiteral("b".to_string())
    ));
    assert!(token_match(
        &SqlToken::HexStringLiteral("ff".to_string()),
        &SqlToken::HexStringLiteral("ff".to_string())
    ));
    assert!(token_match(&SqlToken::Whitespace, &SqlToken::Whitespace));
    assert!(token_match(&SqlToken::Eof, &SqlToken::Eof));
    assert!(token_match(
        &SqlToken::Other("(".to_string()),
        &SqlToken::Other("(".to_string())
    ));
    assert!(!token_match(
        &SqlToken::Other("(".to_string()),
        &SqlToken::Other(")".to_string())
    ));
    assert!(!token_match(&w("1"), &SqlToken::Number("1".to_string(), false)));
    assert!(!match_tokens(&vec![w("A")], &vec![w("A"), w("B")]));
    assert!(match_tokens(&vec![], &vec![]));
}
