use virt_db::config::{
    AdminConfig, BackendMySQLServerConfig, MetaDbConfig, MetricConfig, RedisServerConfig,
    ServerConfig, VirtDBConfig,
};
use virt_db::math::avg::AveragedCollection;
use virt_db::metrics::{
    aggregate, get_exec_log_list_copy, handle_metrics, record_exec_log, remove_exec_logs,
    summarize, ExecLog,
};
use virt_db::sql::fingerprint::sql_to_pattern;

fn log(sql: &str, total: i64, from_cache: bool) -> ExecLog {
    ExecLog {
        sql_str: sql.to_string(),
        total_duration: total,
        mysql_duration: 0,
        redis_duration: 0,
        from_cache,
    }
}

fn config() -> VirtDBConfig {
    VirtDBConfig {
        server: ServerConfig {
            dev: false,
            port: 3307,
        },
        admin: AdminConfig {
            address: "http://127.0.0.1:8080".to_string(),
        },
        metric: MetricConfig { expose_port: 9090 },
        mysql: BackendMySQLServerConfig {
            ip: "10.0.0.5".to_string(),
            port: 3306,
        },
        redis: RedisServerConfig {
            nodes: "redis://127.0.0.1/".to_string(),
        },
        meta_db: MetaDbConfig {
            ip: "10.0.0.6".to_string(),
            port: 3308,
            username: "root".to_string(),
            password: "pw".to_string(),
            database: "virt_db".to_string(),
            refresh_duration_in_seconds: 30,
        },
    }
}

#[test]
fn metric_aggregation() {
    let fingerprint = sql_to_pattern("SELECT 1 FROM t WHERE id=?").unwrap();
    assert_eq!(fingerprint, "SELECT 1 FROM t WHERE id = ?");
    let latencies = [3, 5, 5, 7, 9, 11, 12, 15, 18, 20];
    let logs: Vec<ExecLog> = latencies
        .iter()
        .enumerate()
        .map(|(i, ms)| log(&fingerprint, *ms, i % 4 == 1))
        .collect();
    let param = handle_metrics(logs, &config(), 1_700_000_000);
    assert_eq!(param.port, "3307");
    assert_eq!(param.metric_history_list.len(), 1);
    let row = &param.metric_history_list[0];
    assert_eq!(row.sql_str, "SELECT 1 FROM t WHERE id = ?");
    assert_eq!(row.avg_duration, 10);
    assert_eq!(row.min_duration, 3);
    assert_eq!(row.max_duration, 20);
    assert_eq!(row.exec_count, 10);
    assert_eq!(row.cache_hit_count, 3);
    assert_eq!(row.db_server_port, "3307");
    assert_eq!(row.database_name, "");
    assert_eq!(row.created_at, 1_700_000_000);
}

#[test]
fn one_row_per_fingerprint_in_ascending_order() {
    let logs = vec![
        log("b", 4, false),
        log("a", 10, true),
        log("c", 1, false),
        log("a", 20, false),
        log("b", 6, true),
        log("B", 9, false),
        log("a", 31, true),
    ];
    let rows = aggregate(&logs, "1", 5);
    let summary: Vec<(&str, i32, i64, i64, usize, i32)> = rows
        .iter()
        .map(|r| {
            (
                r.sql_str.as_str(),
                r.avg_duration,
                r.min_duration,
                r.max_duration,
                r.exec_count,
                r.cache_hit_count,
            )
        })
        .collect();
    assert_eq!(
        summary,
        vec![
            ("B", 9, 9, 9, 1, 0),
            ("a", 20, 10, 31, 3, 2),
            ("b", 5, 4, 6, 2, 1),
            ("c", 1, 1, 1, 1, 0),
        ]
    );
    assert!(aggregate(&vec![], "1", 5).is_empty());
}

#[test]
fn summary_of_one_group() {
    let group = vec![log("q", -7, false), log("q", -2, true)];
    let row = summarize(&group, "9", 1);
    // the longest duration is never reported below -1, the mean rounds towards zero
    assert_eq!(row.max_duration, -1);
    assert_eq!(row.min_duration, -7);
    assert_eq!(row.avg_duration, -4);
    assert_eq!(row.exec_count, 2);
    assert_eq!(row.cache_hit_count, 1);
    let big = vec![log("q", i64::MAX, false), log("q", i64::MAX, false)];
    let row = summarize(&big, "9", 1);
    assert_eq!(row.avg_duration, i32::MAX);
    assert_eq!(row.max_duration, i64::MAX);
    assert_eq!(row.min_duration, i64::MAX);
    let small = vec![log("q", i64::MIN, false), log("q", i64::MIN, false)];
    assert_eq!(summarize(&small, "9", 1).avg_duration, i32::MIN);
}

#[test]
fn averaged_collection() {
    let mut c = AveragedCollection::new();
    assert_eq!(c.whole_average(), 0);
    assert_eq!(c.remove(), None);
    c.add(3);
    c.add(4);
    c.add(4);
    assert_eq!(c.len(), 3);
    assert_eq!(c.total(), 11);
    assert_eq!(c.whole_average(), 3);
    assert_eq!(c.remove(), Some(4));
    assert_eq!(c.whole_average(), 3);
    c.add(-20);
    assert_eq!(c.total(), -13);
    assert_eq!(c.whole_average(), -4);
    assert_eq!(c.remove(), Some(-20));
    assert_eq!(c.remove(), Some(4));
    assert_eq!(c.remove(), Some(3));
    assert_eq!(c.remove(), None);
    assert_eq!(c.len(), 0);
}

#[test]
fn exec_log_list() {
    let mut list = vec![];
    record_exec_log(&mut list, log("a", 1, false));
    record_exec_log(&mut list, log("b", 2, false));
    record_exec_log(&mut list, log("a", 1, false));
    record_exec_log(&mut list, log("a", 3, true));
    let copy = get_exec_log_list_copy(&list).unwrap();
    assert_eq!(copy, list);
    remove_exec_logs(&mut list, &vec![log("a", 1, false), log("z", 0, false)]);
    assert_eq!(list, vec![log("b", 2, false), log("a", 3, true)]);
    remove_exec_logs(&mut list, &vec![]);
    assert_eq!(list.len(), 2);
    remove_exec_logs(&mut list, &copy);
    assert!(list.is_empty());
    assert!(log("a", 1, false).is_same(&log("a", 1, false)));
    assert!(!log("a", 1, false).is_same(&log("a", 1, true)));
    assert_eq!(log("a", 1, false).duplicate(), log("a", 1, false));
}

#[test]
fn addresses_from_the_configuration() {
    let c = config();
    assert_eq!(c.server_addr(), "0.0.0.0:3307");
    assert_eq!(c.mysql_addr(), "10.0.0.5:3306");
    assert_eq!(c.register_api_url(), "http://127.0.0.1:8080/vt_node/register");
    assert_eq!(c.meta_db.mysql_url(), "mysql://root:pw@10.0.0.6:3308/virt_db");
    assert_eq!(
        virt_db::config::rule_query(),
        "SELECT id, sql_template, duration FROM cache_config WHERE enabled = true"
    );
    let mut negative = config();
    negative.server.port = -1;
    assert_eq!(negative.server_addr(), "0.0.0.0:-1");
}

#[test]
fn cache_store_nodes() {
    let nodes = |s: &str| {
        virt_db::config::RedisServerConfig {
            nodes: s.to_string(),
        }
    };
    assert_eq!(nodes("redis://a/").node_addrs(), vec!["redis://a/"]);
    assert!(!nodes("redis://a/").is_cluster());
    assert_eq!(
        nodes("redis://a/,redis://b/,redis://c/").node_addrs(),
        vec!["redis://a/", "redis://b/", "redis://c/"]
    );
    assert!(nodes("redis://a/,redis://b/").is_cluster());
    assert_eq!(nodes("").node_addrs(), vec![""]);
    assert_eq!(nodes(",").node_addrs(), vec!["", ""]);
    assert_eq!(nodes("a,,b,").node_addrs(), vec!["a", "", "b", ""]);
}
