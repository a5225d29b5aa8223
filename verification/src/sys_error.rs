//! What can go wrong on a proxied connection.

use crate::protocol::ConnWriter;
use vstd::prelude::*;

verus! {

/// A failure on one connection, with the message of its cause.
#[derive(Debug, PartialEq, Eq)]
pub enum VirtDBMySQLError {
    ClientReadError(String),
    ClientWriteError(String),
    ServerReadError(String),
    ServerWriteError(String),
    RedisError(String),
    Other(String),
}

/// The name of the kind of a failure.
pub open spec fn kind_name(e: VirtDBMySQLError) -> Seq<char> {
    match e {
        VirtDBMySQLError::ClientReadError(_) => "ClientReadError"@,
        VirtDBMySQLError::ClientWriteError(_) => "ClientWriteError"@,
        VirtDBMySQLError::ServerReadError(_) => "ServerReadError"@,
        VirtDBMySQLError::ServerWriteError(_) => "ServerWriteError"@,
        VirtDBMySQLError::RedisError(_) => "RedisError"@,
        VirtDBMySQLError::Other(_) => "Other"@,
    }
}

/// The message of the cause of a failure.
pub open spec fn cause(e: VirtDBMySQLError) -> Seq<char> {
    match e {
        VirtDBMySQLError::ClientReadError(m) => m@,
        VirtDBMySQLError::ClientWriteError(m) => m@,
        VirtDBMySQLError::ServerReadError(m) => m@,
        VirtDBMySQLError::ServerWriteError(m) => m@,
        VirtDBMySQLError::RedisError(m) => m@,
        VirtDBMySQLError::Other(m) => m@,
    }
}

/// How a failure is written out: a failure of the cache store or of any
/// other kind by the message of its cause alone, a failure of a socket by its
/// kind with the message in parentheses.
pub open spec fn description(e: VirtDBMySQLError) -> Seq<char> {
    match e {
        VirtDBMySQLError::RedisError(m) => m@,
        VirtDBMySQLError::Other(m) => m@,
        _ => kind_name(e) + "("@ + cause(e) + ")"@,
    }
}

impl VirtDBMySQLError {
    /// Recovers from the failure at the boundary of the connection. Nothing
    /// is written to the client, and no failure is handed on: the connection
    /// ends, and no other connection hears of it.
    pub fn handle(self, client_writer: ConnWriter) -> (r: Result<(), VirtDBMySQLError>)
        ensures
            r is Ok,
    {
        Ok(())
    }

    /// Writes the failure out.
    pub fn to_string(self) -> (text: String)
        ensures
            text@ == description(self),
    {
        match self {
            VirtDBMySQLError::RedisError(m) => m,
            VirtDBMySQLError::Other(m) => m,
            VirtDBMySQLError::ClientReadError(m) => in_parentheses("ClientReadError", m),
            VirtDBMySQLError::ClientWriteError(m) => in_parentheses("ClientWriteError", m),
            VirtDBMySQLError::ServerReadError(m) => in_parentheses("ServerReadError", m),
            VirtDBMySQLError::ServerWriteError(m) => in_parentheses("ServerWriteError", m),
        }
    }
}

/// `name(message)`.
fn in_parentheses(name: &str, message: String) -> (text: String)
    ensures
        text@ == name@ + "("@ + message@ + ")"@,
{
    let mut text = name.to_owned();
    text.append("(");
    text.append(message.as_str());
    text.append(")");
    text
}

} // verus!
