use virt_db::demo::{DemoDecision, DemoHandler, REJECT_CODE};
use virt_db::protocol::{
    dispatch_request, dispatch_response, parse_packet_length, read_payload_text, Action,
    ConnReader, ConnWriter, ConnectionContext, Packet, PacketHandler, PacketType, Pipe,
    ProtocolError, U24_MAX,
};

fn packet(seq: u8, payload: &[u8]) -> Vec<u8> {
    let n = payload.len();
    let mut bytes = vec![(n & 0xff) as u8, ((n >> 8) & 0xff) as u8, ((n >> 16) & 0xff) as u8, seq];
    bytes.extend_from_slice(payload);
    bytes
}

#[test]
fn length_is_three_bytes_little_endian() {
    assert_eq!(parse_packet_length(&[0, 0, 0]), 0);
    assert_eq!(parse_packet_length(&[1, 0, 0]), 1);
    assert_eq!(parse_packet_length(&[0x34, 0x12, 0]), 0x1234);
    assert_eq!(parse_packet_length(&[0x56, 0x34, 0x12, 9]), 0x123456);
    assert_eq!(parse_packet_length(&[0xff, 0xff, 0xff]), U24_MAX);
    assert_eq!(U24_MAX, 16_777_215);
}

#[test]
fn framer_waits_for_the_whole_packet() {
    let mut reader = ConnReader::new();
    let bytes = packet(0, b"\x03select 1");
    reader.feed(&bytes[..3]);
    assert_eq!(reader.next(), None);
    reader.feed(&bytes[3..7]);
    assert_eq!(reader.next(), None);
    assert_eq!(reader.buffered(), 7);
    reader.feed(&bytes[7..]);
    let p = reader.next().unwrap();
    assert_eq!(p.bytes, bytes);
    assert_eq!(p.bytes.len(), parse_packet_length(&p.bytes) + 4);
    assert_eq!(reader.buffered(), 0);
    assert_eq!(reader.next(), None);
}

#[test]
fn framer_yields_packets_in_order_without_overlap() {
    let a = packet(0, b"\x03select 1");
    let b = packet(1, b"");
    let c = packet(2, b"\x01");
    let mut stream = Vec::new();
    stream.extend_from_slice(&a);
    stream.extend_from_slice(&b);
    stream.extend_from_slice(&c);
    stream.extend_from_slice(&[9, 0, 0, 3, 1, 2]);
    let mut reader = ConnReader::new();
    reader.feed(&stream);
    let packets = reader.drain();
    assert_eq!(packets.len(), 3);
    assert_eq!(packets[0].bytes, a);
    assert_eq!(packets[1].bytes, b);
    assert_eq!(packets[2].bytes, c);
    assert_eq!(reader.buffered(), 6);
    assert_eq!(reader.next(), None);
    reader.feed(&[3, 4, 5, 6, 7, 8, 9]);
    let last = reader.next().unwrap();
    assert_eq!(last.bytes, vec![9, 0, 0, 3, 1, 2, 3, 4, 5, 6, 7, 8, 9]);
}

#[test]
fn largest_payload_is_framed_and_the_next_packet_follows() {
    let payload = vec![7u8; U24_MAX];
    let big = packet(0, &payload);
    assert_eq!(&big[..3], &[0xff, 0xff, 0xff]);
    let next = packet(1, b"\x0e");
    let mut reader = ConnReader::new();
    reader.feed(&big);
    reader.feed(&next);
    let first = reader.next().unwrap();
    assert_eq!(first.bytes.len(), U24_MAX + 4);
    assert_eq!(first.bytes, big);
    assert_eq!(reader.buffered(), next.len());
    let second = reader.next().unwrap();
    assert_eq!(second.bytes, next);
    assert_eq!(reader.next(), None);
}

#[test]
fn writer_queues_and_advances() {
    let mut writer = ConnWriter::new();
    writer.push(&Packet::new(vec![1, 2, 3]));
    writer.push(&Packet::new(vec![4, 5]));
    assert_eq!(writer.pending(), &[1, 2, 3, 4, 5]);
    writer.advance(2);
    assert_eq!(writer.pending(), &[3, 4, 5]);
    writer.advance(3);
    assert_eq!(writer.pending(), &[] as &[u8]);
    writer.advance(0);
    assert_eq!(writer.pending(), &[] as &[u8]);
}

#[test]
fn error_packet_layout() {
    let p = Packet::error_packet(1064, *b"42000", "bad".to_string());
    assert_eq!(
        p.bytes,
        vec![
            12, 0, 0, 1, 0xff, 0x28, 0x04, b'#', b'4', b'2', b'0', b'0', b'0', b'b', b'a', b'd'
        ]
    );
    assert_eq!(p.sequence_id(), 1);
    assert_eq!(parse_packet_length(&p.bytes), p.bytes.len() - 4);
    let empty = Packet::error_packet(0, [0; 5], String::new());
    assert_eq!(empty.bytes, vec![9, 0, 0, 1, 0xff, 0, 0, b'#', 0, 0, 0, 0, 0]);
    let long = Packet::error_packet(0xffff, *b"HY000", "x".repeat(300));
    assert_eq!(&long.bytes[..7], &[0x35, 0x01, 0, 1, 0xff, 0xff, 0xff]);
    assert_eq!(long.bytes.len(), 4 + 9 + 300);
}

#[test]
fn packet_types_by_command_byte() {
    let of = |b: u8| Packet::new(vec![1, 0, 0, 0, b]).packet_type();
    assert_eq!(of(0x00), Ok(PacketType::ComSleep));
    assert_eq!(of(0x01), Ok(PacketType::ComQuit));
    assert_eq!(of(0x03), Ok(PacketType::ComQuery));
    assert_eq!(of(0x0e), Ok(PacketType::ComPing));
    assert_eq!(of(0x16), Ok(PacketType::ComStmtPrepare));
    assert_eq!(of(0x17), Ok(PacketType::ComStmtExecute));
    assert_eq!(of(0x1a), Ok(PacketType::ComStmtReset));
    assert_eq!(of(0x1b), Err(ProtocolError::InvalidPacketType));
    assert_eq!(of(0x1c), Err(ProtocolError::InvalidPacketType));
    assert_eq!(of(0x1d), Ok(PacketType::ComDaemon));
    assert_eq!(of(0x1f), Ok(PacketType::ComResetConnection));
    assert_eq!(of(0x20), Err(ProtocolError::InvalidPacketType));
    assert_eq!(of(0xff), Err(ProtocolError::InvalidPacketType));
    for b in 0..=255u8 {
        match of(b) {
            Ok(t) => assert_eq!(t.code(), b),
            Err(e) => assert_eq!(e, ProtocolError::InvalidPacketType),
        }
    }
    assert_eq!(Packet::new(vec![0, 0, 0, 5]).sequence_id(), 5);
}

#[test]
fn payload_text_is_what_follows_the_command() {
    assert_eq!(
        read_payload_text(&Packet::new(packet(0, b"\x03select 1"))),
        Some("select 1".to_string())
    );
    assert_eq!(
        read_payload_text(&Packet::new(packet(0, b"\x03"))),
        Some(String::new())
    );
    assert_eq!(read_payload_text(&Packet::new(packet(0, b""))), None);
    assert_eq!(
        read_payload_text(&Packet::new(packet(0, b"\x03\xff\xfe"))),
        None
    );
}

#[test]
fn request_actions_go_to_the_right_side() {
    let request = Packet::new(packet(0, b"\x03select 1"));
    let mut client = ConnWriter::new();
    let mut server = ConnWriter::new();
    dispatch_request(Action::Drop, &request, &mut client, &mut server);
    assert!(client.pending().is_empty() && server.pending().is_empty());
    dispatch_request(Action::Forward, &request, &mut client, &mut server);
    assert_eq!(server.pending(), &request.bytes[..]);
    assert!(client.pending().is_empty());
    server.advance(request.bytes.len());
    dispatch_request(
        Action::Mutate(Packet::new(vec![1, 0, 0, 0, 0x0e])),
        &request,
        &mut client,
        &mut server,
    );
    assert_eq!(server.pending(), &[1, 0, 0, 0, 0x0e]);
    server.advance(5);
    dispatch_request(
        Action::Respond(vec![Packet::new(vec![1, 2]), Packet::new(vec![3])]),
        &request,
        &mut client,
        &mut server,
    );
    assert_eq!(client.pending(), &[1, 2, 3]);
    assert!(server.pending().is_empty());
    client.advance(3);
    dispatch_request(
        Action::Error {
            code: 1,
            state: *b"HY000",
            msg: "no".to_string(),
        },
        &request,
        &mut client,
        &mut server,
    );
    assert_eq!(
        client.pending(),
        &Packet::error_packet(1, *b"HY000", "no".to_string()).bytes[..]
    );
    assert!(server.pending().is_empty());
}

#[test]
fn response_actions_go_to_the_right_side() {
    let response = Packet::new(packet(1, b"\x00\x00\x00"));
    let mut client = ConnWriter::new();
    let mut server = ConnWriter::new();
    dispatch_response(Action::Forward, &response, &mut client, &mut server);
    assert_eq!(client.pending(), &response.bytes[..]);
    assert!(server.pending().is_empty());
    client.advance(response.bytes.len());
    dispatch_response(
        Action::Respond(vec![Packet::new(vec![9])]),
        &response,
        &mut client,
        &mut server,
    );
    assert_eq!(server.pending(), &[9]);
    assert!(client.pending().is_empty());
    dispatch_response(Action::Drop, &response, &mut client, &mut server);
    dispatch_response(
        Action::Mutate(Packet::new(vec![8])),
        &response,
        &mut client,
        &mut server,
    );
    assert_eq!(client.pending(), &[8]);
    client.advance(1);
    dispatch_response(
        Action::Error {
            code: 2,
            state: *b"HY000",
            msg: String::new(),
        },
        &response,
        &mut client,
        &mut server,
    );
    assert_eq!(
        client.pending(),
        &Packet::error_packet(2, *b"HY000", String::new()).bytes[..]
    );
}

struct Recorder {
    requests: Vec<Vec<u8>>,
    responses: Vec<Vec<u8>>,
    finished: Vec<usize>,
}

impl PacketHandler for Recorder {
    fn handle_request(&mut self, p: &Packet, _ctx: &mut ConnectionContext) -> Action {
        self.requests.push(p.bytes.clone());
        if p.bytes.len() > 4 && p.bytes[4] == 0x0e {
            Action::Respond(vec![Packet::new(vec![1, 0, 0, 1, 0])])
        } else {
            Action::Forward
        }
    }

    fn handle_response(&mut self, p: &Packet, _ctx: &mut ConnectionContext) -> Action {
        self.responses.push(p.bytes.clone());
        Action::Forward
    }

    fn handle_response_finish(&mut self, packets: Vec<Packet>, _ctx: &mut ConnectionContext) {
        self.finished.push(packets.len());
    }
}

fn context() -> ConnectionContext {
    ConnectionContext {
        sql: None,
        should_update_cache: false,
        fn_start_time: 0,
        mysql_exec_start_time: 0,
        redis_duration: 0,
        from_cache: false,
        cache_duration: 0,
    }
}

#[test]
fn pipe_shows_every_whole_packet_to_the_handler() {
    let handler = Recorder {
        requests: vec![],
        responses: vec![],
        finished: vec![],
    };
    let mut pipe = Pipe::new(handler, context());
    let query = packet(0, b"\x03select 1");
    let ping = packet(0, b"\x0e");
    let mut from_client = Vec::new();
    from_client.extend_from_slice(&query);
    from_client.extend_from_slice(&ping);
    from_client.extend_from_slice(&[5, 0, 0]);
    let ok = packet(1, b"\x00\x00\x00\x02\x00");
    pipe.turn(&from_client, &ok);
    assert_eq!(pipe.handler.requests, vec![query.clone(), ping.clone()]);
    assert_eq!(pipe.handler.responses, vec![ok.clone()]);
    assert_eq!(pipe.handler.finished, vec![1]);
    assert_eq!(pipe.server_writer.pending(), &query[..]);
    let mut to_client = vec![1, 0, 0, 1, 0];
    to_client.extend_from_slice(&ok);
    assert_eq!(pipe.client_writer.pending(), &to_client[..]);
    assert_eq!(pipe.client_reader.buffered(), 3);
    assert_eq!(pipe.server_reader.buffered(), 0);
    assert_eq!(pipe.context.sql, Some(String::new()));
    pipe.turn(&[], &[]);
    assert_eq!(pipe.handler.finished, vec![1]);
    assert_eq!(pipe.process_requests(), 0);
    assert_eq!(pipe.process_responses(), 0);
}

#[test]
fn demo_handler_refuses_answers_and_forwards() {
    let query = |sql: &str| {
        let mut payload = vec![3u8];
        payload.extend_from_slice(sql.as_bytes());
        Packet::new(packet(0, &payload))
    };
    assert_eq!(DemoHandler::decide(&query("select * from avocado")), DemoDecision::Reject);
    assert_eq!(DemoHandler::decide(&query("select 1 from avocados")), DemoDecision::Reject);
    assert_eq!(DemoHandler::decide(&query("select 1")), DemoDecision::Acknowledge);
    assert_eq!(DemoHandler::decide(&query("select 10 from t")), DemoDecision::Acknowledge);
    assert_eq!(DemoHandler::decide(&query("select 2")), DemoDecision::Forward);
    assert_eq!(DemoHandler::decide(&query("")), DemoDecision::Forward);
    assert_eq!(DemoHandler::decide(&query("avocad")), DemoDecision::Forward);
    assert_eq!(
        DemoHandler::decide(&Packet::new(packet(0, b"\x0eavocado"))),
        DemoDecision::Forward
    );
    assert_eq!(
        DemoHandler::decide(&Packet::new(packet(0, b"\x03avocado\xff"))),
        DemoDecision::Forward
    );
    assert_eq!(DemoHandler::decide(&Packet::new(vec![0, 0, 0, 0])), DemoDecision::Forward);

    let mut pipe = Pipe::new(DemoHandler::new(), context());
    let mut from_client = Vec::new();
    for sql in ["select 2", "drop table avocado", "select 1"] {
        from_client.extend_from_slice(&query(sql).bytes);
    }
    let ok = packet(1, b"\x00\x00\x00\x02\x00");
    pipe.turn(&from_client, &ok);
    assert_eq!(pipe.server_writer.pending(), &query("select 2").bytes[..]);
    let mut to_client = Packet::error_packet(
        REJECT_CODE,
        *b"12345",
        "Proxy rejecting any avocado-related queries".to_string(),
    )
    .bytes;
    to_client.extend_from_slice(&[7, 0, 0, 1, 0, 1, 0, 2, 0, 0, 0]);
    to_client.extend_from_slice(&ok);
    assert_eq!(pipe.client_writer.pending(), &to_client[..]);
    assert_eq!(pipe.context.sql, Some("select 1".to_string()));
}
