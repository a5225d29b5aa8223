//! The proxy's configuration, as its TOML file lays it out.

use crate::text::{decimal, from_chars, int_to_string, to_chars};
use vstd::prelude::*;

verus! {

/// The whole configuration: one field per table of the file.
#[derive(Debug, Clone)]
pub struct VirtDBConfig {
    pub server: ServerConfig,
    pub admin: AdminConfig,
    pub metric: MetricConfig,
    pub mysql: BackendMySQLServerConfig,
    pub redis: RedisServerConfig,
    pub meta_db: MetaDbConfig,
}

/// The listening side of the proxy.
#[derive(Debug, Clone)]
pub struct ServerConfig {
    /// Development mode.
    pub dev: bool,
    /// Listening port.
    pub port: i32,
}

/// Where the admin service is reached.
#[derive(Debug, Clone)]
pub struct AdminConfig {
    pub address: String,
}

/// The upstream database.
#[derive(Debug, Clone)]
pub struct BackendMySQLServerConfig {
    pub ip: String,
    pub port: i32,
}

/// The metric endpoint.
#[derive(Debug, Clone)]
pub struct MetricConfig {
    pub expose_port: u16,
}

/// The cache store: one URL, or several separated by commas for a cluster.
#[derive(Debug, Clone)]
pub struct RedisServerConfig {
    pub nodes: String,
}

/// The datastore that holds the cache rules.
#[derive(Debug, Clone)]
pub struct MetaDbConfig {
    pub ip: String,
    pub port: i32,
    pub username: String,
    pub password: String,
    pub database: String,
    pub refresh_duration_in_seconds: u64,
}

/// The SQL that reads the enabled cache rules from the rule source.
pub fn rule_query() -> (sql: &'static str)
    ensures
        sql@ == "SELECT id, sql_template, duration FROM cache_config WHERE enabled = true"@,
{
    "SELECT id, sql_template, duration FROM cache_config WHERE enabled = true"
}

impl VirtDBConfig {
    /// The address on which the proxy listens: every interface, at the
    /// configured port.
    pub fn server_addr(&self) -> (addr: String)
        ensures
            addr@ == "0.0.0.0:"@ + decimal(self.server.port as int),
    {
        let mut addr = String::from_str("0.0.0.0:");
        addr.append(int_to_string(self.server.port).as_str());
        addr
    }

    /// The address of the upstream database: `ip:port`.
    pub fn mysql_addr(&self) -> (addr: String)
        ensures
            addr@ == self.mysql.ip@ + ":"@ + decimal(self.mysql.port as int),
    {
        let mut addr = self.mysql.ip.clone();
        addr.append(":");
        addr.append(int_to_string(self.mysql.port).as_str());
        addr
    }

    /// The URL to which the metric rows are posted.
    pub fn register_api_url(&self) -> (url: String)
        ensures
            url@ == self.admin.address@ + "/vt_node/register"@,
    {
        let mut url = self.admin.address.clone();
        url.append("/vt_node/register");
        url
    }
}

impl MetaDbConfig {
    /// The URL of the rule source: `mysql://user:password@ip:port/database`.
    pub fn mysql_url(&self) -> (url: String)
        ensures
            url@ == "mysql://"@ + self.username@ + ":"@ + self.password@ + "@"@ + self.ip@ + ":"@
                + decimal(self.port as int) + "/"@ + self.database@,
    {
        let mut url = String::from_str("mysql://");
        url.append(self.username.as_str());
        url.append(":");
        url.append(self.password.as_str());
        url.append("@");
        url.append(self.ip.as_str());
        url.append(":");
        url.append(int_to_string(self.port).as_str());
        url.append("/");
        url.append(self.database.as_str());
        url
    }
}

/// The parts of a text between its commas, in order. A text without a comma
/// is one part; an empty text is one empty part.
pub open spec fn comma_parts(s: Seq<char>) -> Seq<Seq<char>>
    decreases s.len(),
{
    if s.len() == 0 {
        seq![Seq::empty()]
    } else {
        let before = comma_parts(s.drop_last());
        if s.last() == ',' {
            before.push(Seq::empty())
        } else {
            before.drop_last().push(before.last().push(s.last()))
        }
    }
}

/// A text has one part at least.
pub proof fn lemma_comma_parts_not_empty(s: Seq<char>)
    ensures
        comma_parts(s).len() >= 1,
    decreases s.len(),
{
    if s.len() > 0 {
        lemma_comma_parts_not_empty(s.drop_last());
    }
}

impl RedisServerConfig {
    /// The addresses of the nodes of the cache store.
    pub fn node_addrs(&self) -> (addrs: Vec<String>)
        ensures
            addrs@.map_values(|a: String| a@) == comma_parts(self.nodes@),
            addrs@.len() >= 1,
    {
        let chars = to_chars(self.nodes.as_str());
        let mut addrs: Vec<String> = Vec::new();
        let mut current: Vec<char> = Vec::new();
        let mut i: usize = 0;
        assert(chars@.take(0) =~= Seq::<char>::empty());
        assert(addrs@.map_values(|a: String| a@).push(current@) =~= seq![Seq::<char>::empty()]);
        while i < chars.len()
            invariant
                i <= chars@.len(),
                addrs@.map_values(|a: String| a@).push(current@) == comma_parts(
                    chars@.take(i as int),
                ),
            decreases chars@.len() - i,
        {
            let ghost done = addrs@.map_values(|a: String| a@);
            let ghost open = current@;
            proof {
                let next = chars@.take(i + 1);
                assert(next.drop_last() =~= chars@.take(i as int));
                assert(next.last() == chars@[i as int]);
                assert(done.push(open).drop_last() =~= done);
            }
            if chars[i] == ',' {
                let part = from_chars(&current);
                addrs.push(part);
                current = Vec::new();
                assert(addrs@.map_values(|a: String| a@) =~= done.push(open));
            } else {
                current.push(chars[i]);
            }
            i = i + 1;
        }
        assert(chars@.take(i as int) =~= chars@);
        let ghost done = addrs@.map_values(|a: String| a@);
        let last = from_chars(&current);
        addrs.push(last);
        assert(addrs@.map_values(|a: String| a@) =~= done.push(current@));
        addrs
    }

    /// Whether the cache store is a cluster: more than one node is named.
    pub fn is_cluster(&self) -> (b: bool)
        ensures
            b == (comma_parts(self.nodes@).len() != 1),
    {
        self.node_addrs().len() != 1
    }
}

} // verus!
