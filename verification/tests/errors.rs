use virt_db::protocol::ConnWriter;
use virt_db::sys_error::VirtDBMySQLError;

#[test]
fn failures_are_written_out() {
    assert_eq!(
        VirtDBMySQLError::RedisError("timed out".to_string()).to_string(),
        "timed out"
    );
    assert_eq!(
        VirtDBMySQLError::Other("odd".to_string()).to_string(),
        "odd"
    );
    assert_eq!(
        VirtDBMySQLError::ClientReadError("reset".to_string()).to_string(),
        "ClientReadError(reset)"
    );
    assert_eq!(
        VirtDBMySQLError::ClientWriteError("".to_string()).to_string(),
        "ClientWriteError()"
    );
    assert_eq!(
        VirtDBMySQLError::ServerReadError("eof".to_string()).to_string(),
        "ServerReadError(eof)"
    );
    assert_eq!(
        VirtDBMySQLError::ServerWriteError("pipe".to_string()).to_string(),
        "ServerWriteError(pipe)"
    );
}

#[test]
fn failures_end_at_the_connection() {
    for e in [
        VirtDBMySQLError::ClientReadError("a".to_string()),
        VirtDBMySQLError::ClientWriteError("b".to_string()),
        VirtDBMySQLError::ServerReadError("c".to_string()),
        VirtDBMySQLError::ServerWriteError("d".to_string()),
        VirtDBMySQLError::RedisError("e".to_string()),
        VirtDBMySQLError::Other("f".to_string()),
    ] {
        assert_eq!(e.handle(ConnWriter::new()), Ok(()));
    }
}
