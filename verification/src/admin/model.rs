//! Plain data that the admin service exchanges with its clients, and the small
//! rules attached to it: the response envelope and paging.

use vstd::prelude::*;

verus! {

/// The envelope of every response: `success` holds exactly when `code` is 0.
#[derive(Debug, Clone)]
pub struct DataWrapper<V> {
    pub code: i32,
    pub message: String,
    pub success: bool,
    pub data: Option<V>,
}

impl<V> DataWrapper<V> {
    /// The envelope of a successful response: code 0 and message `OK`.
    pub fn success(v: V) -> (w: DataWrapper<V>)
        ensures
            w.code == 0,
            w.message@ == "OK"@,
            w.success,
            w.data == Some(v),
    {
        DataWrapper::result(0, String::from_str("OK"), v)
    }

    /// An envelope with the given code and message around `v`.
    pub fn result(code: i32, message: String, v: V) -> (w: DataWrapper<V>)
        ensures
            w.code == code,
            w.message == message,
            w.success == (code == 0),
            w.data == Some(v),
    {
        DataWrapper { code, message, success: code == 0, data: Some(v) }
    }
}

/// A request that names one record.
#[derive(Default, Debug, Clone, PartialEq)]
pub struct IdParam {
    pub id: i32,
}

impl IdParam {
    pub fn new(id: i32) -> (p: IdParam)
        ensures
            p.id == id,
    {
        IdParam { id }
    }
}

/// One page of a listing, and the number of records in all.
#[derive(Default, Debug, Clone, PartialEq)]
pub struct PageResponse<T> {
    pub list: Vec<T>,
    pub total: i64,
}

/// Which page a listing request asks for. Pages are counted from 1.
#[derive(Default, Debug, Clone, PartialEq)]
pub struct PageParam {
    pub page_no: Option<i64>,
    pub page_size: Option<i64>,
}

/// Page size where the request names none.
pub const DEFAULT_PAGE_SIZE: i64 = 10;

/// A signed number reinterpreted as unsigned, as a cast does: a negative
/// number wraps around to 2^64 plus itself.
pub open spec fn wrap_u64(n: i64) -> int {
    if n >= 0 {
        n as int
    } else {
        n + 0x1_0000_0000_0000_0000
    }
}

/// The page index, counted from 0, that a request names: one less than its
/// page number, and 0 where it names none or page 0.
pub open spec fn page_index(page_no: Option<i64>) -> int {
    match page_no {
        Some(n) if n != 0 => wrap_u64(n) - 1,
        _ => 0,
    }
}

/// The page size that a request names, or the default.
pub open spec fn page_limit(page_size: Option<i64>) -> int {
    match page_size {
        Some(n) => wrap_u64(n),
        None => DEFAULT_PAGE_SIZE as int,
    }
}

/// Casts as the `as` operator does, without a precondition.
fn to_u64(n: i64) -> (r: u64)
    ensures
        r == wrap_u64(n),
{
    if n >= 0 {
        n as u64
    } else {
        // n + 2^64, computed without leaving the range of u64
        (u64::MAX - ((-(n + 1)) as u64))
    }
}

impl PageParam {
    /// The page index, counted from 0.
    pub fn get_page_no(self) -> (page: u64)
        ensures
            page == page_index(self.page_no),
    {
        let mut page_no: u64 = match self.page_no {
            Some(n) => to_u64(n),
            None => 0,
        };
        if page_no > 0 {
            page_no = page_no - 1
        }
        page_no
    }

    /// The row at which the page starts: the page index times the page size,
    /// less the page size, plus one. The inputs are those on which no step
    /// leaves the range of `u64`.
    pub fn get_start_row(self) -> (row: u64)
        requires
            page_limit(self.page_size) >= 1,
            page_index(self.page_no) * page_limit(self.page_size) <= u64::MAX,
            page_index(self.page_no) * page_limit(self.page_size) >= page_limit(self.page_size) - 1,
        ensures
            row == page_index(self.page_no) * page_limit(self.page_size) - (page_limit(
                self.page_size,
            ) - 1),
    {
        let page_size: u64 = match self.page_size {
            Some(n) => to_u64(n),
            None => DEFAULT_PAGE_SIZE as u64,
        };
        let page_no = self.get_page_no();
        (page_no * page_size) - (page_size - 1)
    }

    /// The page size.
    pub fn get_limit(self) -> (limit: u64)
        ensures
            limit == page_limit(self.page_size),
    {
        match self.page_size {
            Some(n) => to_u64(n),
            None => DEFAULT_PAGE_SIZE as u64,
        }
    }
}

/// The user on whose behalf a request runs.
#[derive(Debug, Clone)]
pub struct CurrentUser {
    pub user_id: i32,
    pub user_name: String,
}

/// What a token asserts: the audience, the user, and when it expires and
/// was issued, in seconds since the epoch.
#[derive(Debug, Clone)]
pub struct Claims {
    pub aud: String,
    pub subject: CurrentUser,
    pub exp: i64,
    pub iat: u16,
}

#[derive(Debug, Clone)]
pub struct LoginReq {
    pub username: String,
    pub password: String,
}

#[derive(Debug, Clone)]
pub struct LoginResp {
    pub access_token: String,
    pub refresh_token: String,
    pub expires: String,
    pub roles: Vec<String>,
    pub username: String,
}

#[derive(Default, Debug, Clone, PartialEq)]
pub struct GetUserInfoResp {
    pub user_id: String,
    pub username: String,
    pub real_name: String,
    pub avatar: String,
    pub desc: String,
    pub password: String,
    pub token: String,
    pub home_path: String,
    pub roles: Vec<String>,
}

#[derive(Default, Debug, Clone, PartialEq)]
pub struct PasswordUpdateParam {
    pub current_password: String,
    pub new_password: String,
    pub new_password_confirm: String,
}

#[derive(Default, Debug, Clone, PartialEq)]
pub struct CacheConfigListParam {
    pub page_param: PageParam,
    pub cache_name: Option<String>,
    pub sql_template: Option<String>,
    pub enabled: Option<i32>,
}

#[derive(Default, Debug, Clone, PartialEq)]
pub struct CacheConfigCreateParam {
    pub id: Option<i32>,
    pub cache_name: Option<String>,
    pub sql_template: Option<String>,
    pub remark: Option<String>,
    pub duration: Option<i32>,
    pub enabled: Option<i32>,
}

/// One field of a record that is about to be saved: a value to store, or
/// nothing, which leaves the stored value as it is.
#[derive(Debug, Clone, PartialEq)]
pub enum ActiveValue<V> {
    Assigned(V),
    NotSet,
}

/// A cache rule that is about to be saved, field by field. Times are seconds
/// since the epoch.
#[derive(Debug, Clone, PartialEq)]
pub struct ActiveModel {
    pub id: ActiveValue<i32>,
    pub sql_template: ActiveValue<String>,
    pub duration: ActiveValue<i32>,
    pub cache_name: ActiveValue<String>,
    pub remark: ActiveValue<String>,
    pub enabled: ActiveValue<i32>,
    pub created_at: ActiveValue<i64>,
    pub updated_at: ActiveValue<i64>,
    pub created_by: ActiveValue<i64>,
    pub updated_by: ActiveValue<i64>,
}

/// The field that an optional value stands for: assigned where there is a
/// value, not set where there is none.
pub open spec fn active_value_of<V>(option: Option<V>) -> ActiveValue<V> {
    match option {
        Some(v) => ActiveValue::Assigned(v),
        None => ActiveValue::NotSet,
    }
}

/// Turns an optional value into a field.
pub fn option_to_active_value<V>(option: Option<V>) -> (r: ActiveValue<V>)
    ensures
        r == active_value_of(option),
{
    match option {
        None => ActiveValue::NotSet,
        Some(v) => ActiveValue::Assigned(v),
    }
}

impl CacheConfigCreateParam {
    /// The record that saving this request writes: each field that the
    /// request names is assigned, every other field is left as it is.
    pub fn to_active_model(self) -> (m: ActiveModel)
        ensures
            m == (ActiveModel {
                id: active_value_of(self.id),
                sql_template: active_value_of(self.sql_template),
                duration: active_value_of(self.duration),
                cache_name: active_value_of(self.cache_name),
                remark: active_value_of(self.remark),
                enabled: active_value_of(self.enabled),
                created_at: ActiveValue::NotSet,
                updated_at: ActiveValue::NotSet,
                created_by: ActiveValue::NotSet,
                updated_by: ActiveValue::NotSet,
            }),
    {
        ActiveModel {
            id: option_to_active_value(self.id),
            sql_template: option_to_active_value(self.sql_template),
            duration: option_to_active_value(self.duration),
            cache_name: option_to_active_value(self.cache_name),
            remark: option_to_active_value(self.remark),
            enabled: option_to_active_value(self.enabled),
            created_at: ActiveValue::NotSet,
            updated_at: ActiveValue::NotSet,
            created_by: ActiveValue::NotSet,
            updated_by: ActiveValue::NotSet,
        }
    }
}

#[derive(Default, Debug, Clone, PartialEq)]
pub struct MetricQueryParam {
    pub page_param: PageParam,
}

/// The service's own settings.
#[derive(Debug, Clone, PartialEq, Eq, Hash)]
pub struct ApplicationSettings {
    pub jwt_secret: String,
    pub mysql_url: String,
    pub static_dir: String,
}

/// The record of one fingerprint over one reporting window, as a proxy
/// reports it.
#[derive(Debug, Clone)]
pub struct MetricHistory {
    pub sql_str: String,
    pub db_server_port: String,
    pub database_name: String,
    pub avg_duration: i32,
    pub max_duration: i32,
    pub min_duration: i32,
    pub exec_count: i32,
    pub cache_hit_count: i32,
    pub created_at: i64,
}

/// What a proxy reports: its listening port and the rows of one window.
#[derive(Debug)]
pub struct VtNodeRegisterParam {
    pub port: String,
    pub metric_history_list: Vec<MetricHistory>,
}

/// Why a request failed.
#[derive(Debug)]
pub enum SysError {
    /// The request broke a rule of the service; the message is for the user.
    BIZ(String),
    /// Something else went wrong; the message is for the log.
    SYSTEM(String),
}

/// The message that the user gets to see.
pub open spec fn error_message(e: SysError) -> Seq<char> {
    match e {
        SysError::BIZ(msg) => msg@,
        SysError::SYSTEM(_) => "未知错误"@,
    }
}

/// The body of the response that reports a failure.
pub open spec fn error_body_of(message: Seq<char>) -> Seq<char> {
    "{\"code\": -1,\"message\": \""@ + message + "\",\"success\": false,\"data\": null}"@
}

impl SysError {
    /// The body of the response that reports this failure: the envelope with
    /// code -1, the message, and no data. What went wrong inside the service
    /// is not told.
    pub fn error_body(&self) -> (body: String)
        ensures
            body@ == error_body_of(error_message(*self)),
    {
        let mut body = String::from_str("{\"code\": -1,\"message\": \"");
        match self {
            SysError::BIZ(msg) => {
                body.append(msg.as_str());
            },
            SysError::SYSTEM(_) => {
                body.append("未知错误");
            },
        }
        body.append("\",\"success\": false,\"data\": null}");
        body
    }
}

/// The user that a verified token names. A token that did not verify names
/// none, and the reason is handed on.
pub fn parse_current_user(verified: Result<Claims, SysError>) -> (r: Result<CurrentUser, SysError>)
    ensures
        match verified {
            Ok(claims) => r == Ok::<CurrentUser, SysError>(claims.subject),
            Err(e) => r == Err::<CurrentUser, SysError>(e),
        },
{
    match verified {
        Ok(claims) => Ok(claims.subject),
        Err(e) => Err(e),
    }
}

} // verus!
