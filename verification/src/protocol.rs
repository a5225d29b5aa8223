//! MySQL wire packets: the 3-byte little-endian length header, the sequence
//! id, the command byte, and the framer that cuts a byte stream into packets.

use crate::text::string_from_utf8;
use byteorder::{ByteOrder, LittleEndian};
use vstd::prelude::*;
use vstd::utf8::{decode_utf8, encode_utf8, valid_utf8};

verus! {

/// Largest payload a single packet can carry: 2^24 - 1 bytes.
pub const U24_MAX: usize = 16_777_215;

/// The payload length that a 3-byte little-endian header announces.
pub open spec fn packet_length(header: Seq<u8>) -> nat
    recommends
        header.len() >= 3,
{
    (header[0] as nat) + (header[1] as nat) * 256 + (header[2] as nat) * 65536
}

/// The three header bytes that announce `n`, least significant first. Only the
/// low 24 bits of `n` fit.
pub open spec fn length_header(n: nat) -> Seq<u8> {
    seq![(n % 256) as u8, ((n / 256) % 256) as u8, ((n / 65536) % 256) as u8]
}

/// Number of bytes that the first packet of `buf` occupies, header included.
pub open spec fn frame_len(buf: Seq<u8>) -> nat
    recommends
        buf.len() >= 4,
{
    packet_length(buf) + 4
}

/// Whether `buf` starts with a whole packet.
pub open spec fn has_frame(buf: Seq<u8>) -> bool {
    buf.len() > 3 && buf.len() >= frame_len(buf)
}

/// Parse the MySQL packet length (3 byte little-endian).
pub fn parse_packet_length(header: &[u8]) -> (len: usize)
    requires
        header@.len() >= 3,
    ensures
        len == packet_length(header@),
        len <= U24_MAX,
{
    let b0: usize = header[0] as usize;
    let b1: usize = header[1] as usize;
    let b2: usize = header[2] as usize;
    b0 + b1 * 256 + b2 * 65536
}

/// The announced length is the three header bytes put together as bits: the
/// first byte lowest, the second shifted by 8, the third by 16.
pub proof fn lemma_packet_length_bits(b0: u8, b1: u8, b2: u8)
    ensures
        packet_length(seq![b0, b1, b2]) == ((b0 as u32) | ((b1 as u32) << 8) | ((b2 as u32)
            << 16)),
{
    assert(((b0 as u32) | ((b1 as u32) << 8) | ((b2 as u32) << 16)) == (b0 as u32) + (b1 as u32)
        * 256 + (b2 as u32) * 65536) by (bit_vector);
}

/// The two bytes of `n`, least significant first.
pub open spec fn le_u16(n: u16) -> Seq<u8> {
    seq![(n % 256) as u8, (n / 256) as u8]
}

/// The four bytes of `n`, least significant first.
pub open spec fn le_u32(n: u32) -> Seq<u8> {
    seq![
        (n % 256) as u8,
        ((n / 256) % 256) as u8,
        ((n / 65536) % 256) as u8,
        (n / 16777216) as u8,
    ]
}

/// Trusted: `byteorder::LittleEndian::write_u16` stores the two bytes of `n`
/// in the buffer, low byte first. The buffer handed over has exactly two
/// bytes, so the call cannot run out of room.
#[verifier::external_body]
fn write_u16_le(n: u16) -> (out: [u8; 2])
    ensures
        out@ == le_u16(n),
{
    let mut buf = [0u8; 2];
    LittleEndian::write_u16(&mut buf, n);
    buf
}

/// Trusted: `byteorder::LittleEndian::write_u32` stores the four bytes of `n`
/// in the buffer, low byte first. The buffer handed over has exactly four
/// bytes, so the call cannot run out of room.
#[verifier::external_body]
fn write_u32_le(n: u32) -> (out: [u8; 4])
    ensures
        out@ == le_u32(n),
{
    let mut buf = [0u8; 4];
    LittleEndian::write_u32(&mut buf, n);
    buf
}

/// Appends a copy of `src` to `dst`.
fn append_bytes(dst: &mut Vec<u8>, src: &[u8])
    ensures
        final(dst)@ == old(dst)@ + src@,
{
    dst.extend_from_slice(src);
    assert(dst@ =~= old(dst)@ + src@);
}

/// The first three little-endian bytes of `n mod 2^24` are the length header
/// of `n`.
proof fn lemma_low_24_bits(n: nat)
    ensures
        le_u32((n % 16777216) as u32).subrange(0, 3) == length_header(n),
{
    let low = n % 16777216;
    assert(low % 256 == n % 256) by (nonlinear_arith)
        requires
            low == n % 16777216,
    ;
    assert((low / 256) % 256 == (n / 256) % 256) by (nonlinear_arith)
        requires
            low == n % 16777216,
    ;
    assert((low / 65536) % 256 == (n / 65536) % 256) by (nonlinear_arith)
        requires
            low == n % 16777216,
    ;
    assert(le_u32(low as u32).subrange(0, 3) =~= length_header(n));
}

/// The command that the first payload byte of a client packet names.
#[derive(Copy, Clone, Debug, PartialEq, Eq, Structural)]
pub enum PacketType {
    ComSleep,
    ComQuit,
    ComInitDb,
    ComQuery,
    ComFieldList,
    ComCreateDb,
    ComDropDb,
    ComRefresh,
    ComShutdown,
    ComStatistics,
    ComProcessInfo,
    ComConnect,
    ComProcessKill,
    ComDebug,
    ComPing,
    ComTime,
    ComDelayedInsert,
    ComChangeUser,
    ComBinlogDump,
    ComTableDump,
    ComConnectOut,
    ComRegisterSlave,
    ComStmtPrepare,
    ComStmtExecute,
    ComStmtSendLongData,
    ComStmtClose,
    ComStmtReset,
    ComDaemon,
    ComBinlogDumpGtid,
    ComResetConnection,
}

/// Why a packet could not be interpreted.
#[derive(Copy, Clone, Debug, PartialEq, Eq, Structural)]
pub enum ProtocolError {
    /// The command byte names no known command.
    InvalidPacketType,
}

/// The command byte of each packet type.
pub open spec fn command_code(t: PacketType) -> u8 {
    match t {
        PacketType::ComSleep => 0x00,
        PacketType::ComQuit => 0x01,
        PacketType::ComInitDb => 0x02,
        PacketType::ComQuery => 0x03,
        PacketType::ComFieldList => 0x04,
        PacketType::ComCreateDb => 0x05,
        PacketType::ComDropDb => 0x06,
        PacketType::ComRefresh => 0x07,
        PacketType::ComShutdown => 0x08,
        PacketType::ComStatistics => 0x09,
        PacketType::ComProcessInfo => 0x0a,
        PacketType::ComConnect => 0x0b,
        PacketType::ComProcessKill => 0x0c,
        PacketType::ComDebug => 0x0d,
        PacketType::ComPing => 0x0e,
        PacketType::ComTime => 0x0f,
        PacketType::ComDelayedInsert => 0x10,
        PacketType::ComChangeUser => 0x11,
        PacketType::ComBinlogDump => 0x12,
        PacketType::ComTableDump => 0x13,
        PacketType::ComConnectOut => 0x14,
        PacketType::ComRegisterSlave => 0x15,
        PacketType::ComStmtPrepare => 0x16,
        PacketType::ComStmtExecute => 0x17,
        PacketType::ComStmtSendLongData => 0x18,
        PacketType::ComStmtClose => 0x19,
        PacketType::ComStmtReset => 0x1a,
        PacketType::ComDaemon => 0x1d,
        PacketType::ComBinlogDumpGtid => 0x1e,
        PacketType::ComResetConnection => 0x1f,
    }
}

/// Whether a byte is the code of some command: 0x00 to 0x1f but for the two
/// unassigned codes 0x1b and 0x1c.
pub open spec fn is_command_code(b: u8) -> bool {
    b <= 0x1f && b != 0x1b && b != 0x1c
}

impl PacketType {
    /// The command byte that stands for this packet type on the wire.
    pub fn code(self) -> (b: u8)
        ensures
            b == command_code(self),
            is_command_code(b),
    {
        match self {
            PacketType::ComSleep => 0x00,
            PacketType::ComQuit => 0x01,
            PacketType::ComInitDb => 0x02,
            PacketType::ComQuery => 0x03,
            PacketType::ComFieldList => 0x04,
            PacketType::ComCreateDb => 0x05,
            PacketType::ComDropDb => 0x06,
            PacketType::ComRefresh => 0x07,
            PacketType::ComShutdown => 0x08,
            PacketType::ComStatistics => 0x09,
            PacketType::ComProcessInfo => 0x0a,
            PacketType::ComConnect => 0x0b,
            PacketType::ComProcessKill => 0x0c,
            PacketType::ComDebug => 0x0d,
            PacketType::ComPing => 0x0e,
            PacketType::ComTime => 0x0f,
            PacketType::ComDelayedInsert => 0x10,
            PacketType::ComChangeUser => 0x11,
            PacketType::ComBinlogDump => 0x12,
            PacketType::ComTableDump => 0x13,
            PacketType::ComConnectOut => 0x14,
            PacketType::ComRegisterSlave => 0x15,
            PacketType::ComStmtPrepare => 0x16,
            PacketType::ComStmtExecute => 0x17,
            PacketType::ComStmtSendLongData => 0x18,
            PacketType::ComStmtClose => 0x19,
            PacketType::ComStmtReset => 0x1a,
            PacketType::ComDaemon => 0x1d,
            PacketType::ComBinlogDumpGtid => 0x1e,
            PacketType::ComResetConnection => 0x1f,
        }
    }
}

/// A packet is just a wrapper for a `Vec<u8>`: header, sequence id, payload.
#[derive(Debug, PartialEq)]
pub struct Packet {
    pub bytes: Vec<u8>,
}

impl View for Packet {
    type V = Seq<u8>;

    open spec fn view(&self) -> Seq<u8> {
        self.bytes@
    }
}

/// Whether the length field of a packet equals the length of its payload.
pub open spec fn well_framed(bytes: Seq<u8>) -> bool {
    bytes.len() >= 4 && bytes.len() == frame_len(bytes)
}

/// The payload of an error packet: the 0xff marker, the error code, the SQL
/// state behind its `#` marker, and the message.
pub open spec fn error_payload(code: u16, state: Seq<u8>, msg: Seq<u8>) -> Seq<u8> {
    seq![0xffu8] + le_u16(code) + seq![0x23u8] + state + msg
}

/// The bytes of an error packet: the length header of the payload, sequence
/// id 1, and the payload.
pub open spec fn error_packet_bytes(code: u16, state: Seq<u8>, msg: Seq<u8>) -> Seq<u8> {
    let payload = error_payload(code, state, msg);
    length_header(payload.len()) + seq![1u8] + payload
}

impl Packet {
    pub fn new(bytes: Vec<u8>) -> (p: Self)
        ensures
            p.bytes == bytes,
    {
        Packet { bytes }
    }

    /// Create an error packet.
    pub fn error_packet(code: u16, state: [u8; 5], msg: String) -> (p: Self)
        ensures
            p@ == error_packet_bytes(code, state@, encode_utf8(msg@)),
    {
        let mut payload: Vec<u8> = Vec::new();
        payload.push(0xff);
        let code_bytes = write_u16_le(code);
        append_bytes(&mut payload, code_bytes.as_slice());
        payload.push(0x23);
        append_bytes(&mut payload, state.as_slice());
        append_bytes(&mut payload, msg.as_str().as_bytes());
        assert(payload@ =~= error_payload(code, state@, encode_utf8(msg@)));

        // the header has room for the low 24 bits of the length only
        let low: usize = payload.len() % 16_777_216;
        let len_bytes = write_u32_le(low as u32);
        let mut header: Vec<u8> = Vec::new();
        append_bytes(&mut header, len_bytes.as_slice());
        header.pop();
        proof {
            lemma_low_24_bits(payload@.len());
            assert(header@ =~= length_header(payload@.len()));
        }
        header.push(1);
        append_bytes(&mut header, payload.as_slice());
        Packet { bytes: header }
    }

    /// The sequence id: the fourth byte.
    pub fn sequence_id(&self) -> (id: u8)
        requires
            self@.len() > 3,
        ensures
            id == self@[3],
    {
        self.bytes[3]
    }

    /// Determine the type of packet from its command byte, the fifth byte.
    pub fn packet_type(&self) -> (r: Result<PacketType, ProtocolError>)
        requires
            self@.len() > 4,
        ensures
            is_command_code(self@[4]) <==> r is Ok,
            r matches Ok(t) ==> command_code(t) == self@[4],
            r matches Err(e) ==> e == ProtocolError::InvalidPacketType,
    {
        match self.bytes[4] {
            0x00 => Ok(PacketType::ComSleep),
            0x01 => Ok(PacketType::ComQuit),
            0x02 => Ok(PacketType::ComInitDb),
            0x03 => Ok(PacketType::ComQuery),
            0x04 => Ok(PacketType::ComFieldList),
            0x05 => Ok(PacketType::ComCreateDb),
            0x06 => Ok(PacketType::ComDropDb),
            0x07 => Ok(PacketType::ComRefresh),
            0x08 => Ok(PacketType::ComShutdown),
            0x09 => Ok(PacketType::ComStatistics),
            0x0a => Ok(PacketType::ComProcessInfo),
            0x0b => Ok(PacketType::ComConnect),
            0x0c => Ok(PacketType::ComProcessKill),
            0x0d => Ok(PacketType::ComDebug),
            0x0e => Ok(PacketType::ComPing),
            0x0f => Ok(PacketType::ComTime),
            0x10 => Ok(PacketType::ComDelayedInsert),
            0x11 => Ok(PacketType::ComChangeUser),
            0x12 => Ok(PacketType::ComBinlogDump),
            0x13 => Ok(PacketType::ComTableDump),
            0x14 => Ok(PacketType::ComConnectOut),
            0x15 => Ok(PacketType::ComRegisterSlave),
            0x16 => Ok(PacketType::ComStmtPrepare),
            0x17 => Ok(PacketType::ComStmtExecute),
            0x18 => Ok(PacketType::ComStmtSendLongData),
            0x19 => Ok(PacketType::ComStmtClose),
            0x1a => Ok(PacketType::ComStmtReset),
            0x1d => Ok(PacketType::ComDaemon),
            0x1e => Ok(PacketType::ComBinlogDumpGtid),
            0x1f => Ok(PacketType::ComResetConnection),
            _ => Err(ProtocolError::InvalidPacketType),
        }
    }
}

/// The whole packets at the start of `buf`, in order.
pub open spec fn frames(buf: Seq<u8>) -> Seq<Seq<u8>>
    decreases buf.len(),
{
    if has_frame(buf) {
        seq![buf.subrange(0, frame_len(buf) as int)] + frames(
            buf.subrange(frame_len(buf) as int, buf.len() as int),
        )
    } else {
        Seq::empty()
    }
}

/// What is left of `buf` behind its whole packets: the start of a packet that
/// has not arrived in full, or nothing.
pub open spec fn remainder(buf: Seq<u8>) -> Seq<u8>
    decreases buf.len(),
{
    if has_frame(buf) {
        remainder(buf.subrange(frame_len(buf) as int, buf.len() as int))
    } else {
        buf
    }
}

/// The bytes of a sequence of packets, one behind the other.
pub open spec fn concat(packets: Seq<Seq<u8>>) -> Seq<u8>
    decreases packets.len(),
{
    if packets.len() == 0 {
        Seq::empty()
    } else {
        packets[0] + concat(packets.subrange(1, packets.len() as int))
    }
}

/// Every packet that framing yields is whole: its length field equals the
/// length of its payload.
pub proof fn lemma_frames_well_framed(buf: Seq<u8>, i: int)
    requires
        0 <= i < frames(buf).len(),
    ensures
        well_framed(frames(buf)[i]),
        frames(buf)[i].len() == packet_length(frames(buf)[i]) + 4,
    decreases buf.len(),
{
    if has_frame(buf) {
        let n = frame_len(buf) as int;
        let first = buf.subrange(0, n);
        assert(first[0] == buf[0] && first[1] == buf[1] && first[2] == buf[2]);
        if i > 0 {
            lemma_frames_well_framed(buf.subrange(n, buf.len() as int), i - 1);
        }
    }
}

/// Framing neither loses, repeats nor reorders a byte: the packets it yields,
/// one behind the other, followed by the remainder, are the input.
pub proof fn lemma_frames_partition(buf: Seq<u8>)
    ensures
        concat(frames(buf)) + remainder(buf) == buf,
        !has_frame(remainder(buf)),
    decreases buf.len(),
{
    if has_frame(buf) {
        let n = frame_len(buf) as int;
        let rest = buf.subrange(n, buf.len() as int);
        lemma_frames_partition(rest);
        let fs = frames(buf);
        assert(fs.subrange(1, fs.len() as int) =~= frames(rest));
        assert(concat(fs) == buf.subrange(0, n) + concat(frames(rest)));
        assert(concat(fs) + remainder(buf) =~= buf.subrange(0, n) + (concat(frames(rest))
            + remainder(rest)));
        assert(buf.subrange(0, n) + rest =~= buf);
    } else {
        assert(concat(frames(buf)) + remainder(buf) =~= buf);
    }
}

/// A whole packet followed by more bytes is framed as that packet, and the
/// next packet starts right behind it, at the offset of its payload length
/// plus four.
pub proof fn lemma_frames_step(packet: Seq<u8>, rest: Seq<u8>)
    requires
        well_framed(packet),
    ensures
        frames(packet + rest) == seq![packet] + frames(rest),
        remainder(packet + rest) == remainder(rest),
{
    let buf = packet + rest;
    assert(buf[0] == packet[0] && buf[1] == packet[1] && buf[2] == packet[2]);
    assert(frame_len(buf) == packet.len());
    assert(buf.subrange(0, packet.len() as int) =~= packet);
    assert(buf.subrange(packet.len() as int, buf.len() as int) =~= rest);
}

/// Every packet takes four bytes at least, so a buffer holds no more packets
/// than a quarter of its bytes.
pub proof fn lemma_frames_count(buf: Seq<u8>)
    ensures
        frames(buf).len() * 4 <= buf.len(),
    decreases buf.len(),
{
    if has_frame(buf) {
        lemma_frames_count(buf.subrange(frame_len(buf) as int, buf.len() as int));
    }
}

/// The reading half of a connection: the bytes received and not yet handed
/// out as packets.
pub struct ConnReader {
    packet_buf: Vec<u8>,
}

impl View for ConnReader {
    type V = Seq<u8>;

    closed spec fn view(&self) -> Seq<u8> {
        self.packet_buf@
    }
}

impl ConnReader {
    /// A reader that has received nothing.
    pub fn new() -> (r: Self)
        ensures
            r@ == Seq::<u8>::empty(),
    {
        ConnReader { packet_buf: Vec::new() }
    }

    /// Takes in bytes that a read from the socket returned.
    pub fn feed(&mut self, data: &[u8])
        ensures
            final(self)@ == old(self)@ + data@,
    {
        append_bytes(&mut self.packet_buf, data);
    }

    /// Number of bytes received and not yet handed out.
    pub fn buffered(&self) -> (n: usize)
        ensures
            n == self@.len(),
    {
        self.packet_buf.len()
    }

    /// Hands out the first packet once all of it has arrived, and nothing
    /// before that.
    pub fn next(&mut self) -> (r: Option<Packet>)
        ensures
            has_frame(old(self)@) <==> r is Some,
            r matches Some(p) ==> {
                &&& p@ == old(self)@.subrange(0, frame_len(old(self)@) as int)
                &&& final(self)@ == old(self)@.subrange(
                    frame_len(old(self)@) as int,
                    old(self)@.len() as int,
                )
                &&& p@ + final(self)@ == old(self)@
                &&& well_framed(p@)
            },
            r is None ==> final(self)@ == old(self)@,
            frames(old(self)@) == (match r {
                Some(p) => seq![p@] + frames(final(self)@),
                None => Seq::empty(),
            }),
            remainder(final(self)@) == remainder(old(self)@),
    {
        if self.packet_buf.len() > 3 {
            let l = parse_packet_length(self.packet_buf.as_slice());
            let s = 4 + l;
            if self.packet_buf.len() >= s {
                let rest = self.packet_buf.split_off(s);
                let mut bytes = rest;
                std::mem::swap(&mut bytes, &mut self.packet_buf);
                proof {
                    let buf = old(self)@;
                    assert(bytes@[0] == buf[0] && bytes@[1] == buf[1] && bytes@[2] == buf[2]);
                    assert(bytes@ + self.packet_buf@ =~= buf);
                }
                Some(Packet { bytes })
            } else {
                None
            }
        } else {
            None
        }
    }

    /// Hands out every whole packet that has arrived, in order, and keeps
    /// the start of the one that has not.
    pub fn drain(&mut self) -> (packets: Vec<Packet>)
        ensures
            packets@.map_values(|p: Packet| p@) == frames(old(self)@),
            final(self)@ == remainder(old(self)@),
    {
        let mut packets: Vec<Packet> = Vec::new();
        loop
            invariant
                packets@.map_values(|p: Packet| p@) + frames(self@) == frames(old(self)@),
                remainder(self@) == remainder(old(self)@),
            ensures
                !has_frame(self@),
            decreases self@.len(),
        {
            let ghost before = self@;
            let ghost done = packets@.map_values(|p: Packet| p@);
            match self.next() {
                Some(p) => {
                    packets.push(p);
                    assert(packets@.map_values(|p: Packet| p@) =~= done + seq![p@]);
                    assert(done + seq![p@] + frames(self@) =~= done + (seq![p@] + frames(
                        self@,
                    )));
                },
                None => {
                    break ;
                },
            }
        }
        assert(packets@.map_values(|p: Packet| p@) =~= frames(old(self)@));
        packets
    }
}

/// The writing half of a connection: the bytes queued and not yet accepted
/// by the socket.
pub struct ConnWriter {
    write_buf: Vec<u8>,
}

impl View for ConnWriter {
    type V = Seq<u8>;

    closed spec fn view(&self) -> Seq<u8> {
        self.write_buf@
    }
}

impl ConnWriter {
    /// A writer with nothing queued.
    pub fn new() -> (w: Self)
        ensures
            w@ == Seq::<u8>::empty(),
    {
        ConnWriter { write_buf: Vec::new() }
    }

    /// Write a packet to the write buffer.
    pub fn push(&mut self, p: &Packet)
        ensures
            final(self)@ == old(self)@ + p@,
    {
        append_bytes(&mut self.write_buf, p.bytes.as_slice());
    }

    /// The bytes that wait to be written, oldest first.
    pub fn pending(&self) -> (bytes: &[u8])
        ensures
            bytes@ == self@,
    {
        self.write_buf.as_slice()
    }

    /// Forgets the first `n` queued bytes, after the socket accepted them.
    pub fn advance(&mut self, n: usize)
        requires
            n <= old(self)@.len(),
        ensures
            final(self)@ == old(self)@.subrange(n as int, old(self)@.len() as int),
    {
        let mut rest = self.write_buf.split_off(n);
        std::mem::swap(&mut rest, &mut self.write_buf);
    }
}

/// Handlers return a variant of this enum to indicate how the proxy should
/// handle the packet.
#[derive(Debug, PartialEq)]
pub enum Action {
    /// drop the packet
    Drop,
    /// forward the packet unmodified
    Forward,
    /// forward a mutated packet
    Mutate(Packet),
    /// respond to the packet without forwarding
    Respond(Vec<Packet>),
    /// respond with an error packet
    Error { code: u16, state: [u8; 5], msg: String },
}

/// What a handler keeps between the packets of one connection. Times are
/// milliseconds since the epoch.
#[derive(Debug, PartialEq, Eq, Clone)]
pub struct ConnectionContext {
    pub sql: Option<String>,
    pub should_update_cache: bool,
    pub fn_start_time: i64,
    pub mysql_exec_start_time: i64,
    pub redis_duration: i64,
    pub from_cache: bool,
    pub cache_duration: i32,
}

/// Packet handlers need to implement this trait.
///
/// Each method comes with a relation that says what the handler may decide:
/// between the handler and the context as they were, the packet, the action
/// that comes back, and the handler and the context as they are left. A
/// handler states the relation that it keeps; the pipe promises what it does
/// in terms of it.
pub trait PacketHandler: Sized {
    /// Whether, holding `self` and given `ctx`, the handler may decide on
    /// `request` by `action` and leave itself as `after` and the context as
    /// `left`. A handler that states nothing may decide anything.
    open spec fn decides_request(
        &self,
        request: Seq<u8>,
        ctx: ConnectionContext,
        action: Action,
        after: Self,
        left: ConnectionContext,
    ) -> bool {
        true
    }

    /// The same for a response.
    open spec fn decides_response(
        &self,
        response: Seq<u8>,
        ctx: ConnectionContext,
        action: Action,
        after: Self,
        left: ConnectionContext,
    ) -> bool {
        true
    }

    /// Whether, holding `self` and given `ctx`, the handler may leave itself
    /// as `after` and the context as `left` when it is shown the responses
    /// that have ended.
    open spec fn finishes_response(
        &self,
        responses: Seq<Seq<u8>>,
        ctx: ConnectionContext,
        after: Self,
        left: ConnectionContext,
    ) -> bool {
        true
    }

    fn handle_request(&mut self, p: &Packet, ctx: &mut ConnectionContext) -> (action: Action)
        ensures
            old(self).decides_request(p@, *old(ctx), action, *final(self), *final(ctx)),
    ;

    fn handle_response(&mut self, p: &Packet, ctx: &mut ConnectionContext) -> (action: Action)
        ensures
            old(self).decides_response(p@, *old(ctx), action, *final(self), *final(ctx)),
    ;

    fn handle_response_finish(&mut self, packets: Vec<Packet>, ctx: &mut ConnectionContext)
        ensures
            old(self).finishes_response(
                packets@.map_values(|p: Packet| p@),
                *old(ctx),
                *final(self),
                *final(ctx),
            ),
    ;
}

/// The bytes of a list of packets, one behind the other.
pub open spec fn packet_bytes(packets: Seq<Packet>) -> Seq<u8>
    decreases packets.len(),
{
    if packets.len() == 0 {
        Seq::empty()
    } else {
        packet_bytes(packets.drop_last()) + packets.last()@
    }
}

/// What an action on a packet sends on in the direction in which the packet
/// travels: the packet, its replacement, or nothing.
pub open spec fn sent_onward(action: Action, packet: Seq<u8>) -> Seq<u8> {
    match action {
        Action::Forward => packet,
        Action::Mutate(p) => p@,
        _ => Seq::empty(),
    }
}

/// What an action sends back to where the packet came from: the packets of
/// a response, or nothing.
pub open spec fn sent_back(action: Action) -> Seq<u8> {
    match action {
        Action::Respond(packets) => packet_bytes(packets@),
        _ => Seq::empty(),
    }
}

/// The error packet that an action sends to the client, or nothing.
pub open spec fn sent_error(action: Action) -> Seq<u8> {
    match action {
        Action::Error { code, state, msg } => error_packet_bytes(code, state@, encode_utf8(msg@)),
        _ => Seq::empty(),
    }
}

/// Queues the packets of a response.
fn push_all(writer: &mut ConnWriter, packets: &Vec<Packet>)
    ensures
        final(writer)@ == old(writer)@ + packet_bytes(packets@),
{
    let mut i: usize = 0;
    assert(packets@.take(0) =~= Seq::<Packet>::empty());
    assert(writer@ + packet_bytes(Seq::<Packet>::empty()) =~= writer@);
    while i < packets.len()
        invariant
            i <= packets@.len(),
            writer@ == old(writer)@ + packet_bytes(packets@.take(i as int)),
        decreases packets@.len() - i,
    {
        proof {
            let next = packets@.take(i + 1);
            assert(next.drop_last() =~= packets@.take(i as int));
            assert(next.last() == packets@[i as int]);
            assert(old(writer)@ + packet_bytes(packets@.take(i as int)) + packets@[i as int]@
                =~= old(writer)@ + (packet_bytes(packets@.take(i as int)) + packets@[i as int]@));
        }
        writer.push(&packets[i]);
        i = i + 1;
    }
    assert(packets@.take(i as int) =~= packets@);
}

/// Carries out a handler's action on a client request: what is sent on goes
/// to the server, a response and an error packet go to the client.
pub fn dispatch_request(
    action: Action,
    request: &Packet,
    client_writer: &mut ConnWriter,
    server_writer: &mut ConnWriter,
)
    ensures
        final(server_writer)@ == old(server_writer)@ + sent_onward(action, request@),
        final(client_writer)@ == old(client_writer)@ + sent_back(action) + sent_error(action),
{
    match action {
        Action::Drop => {
            assert(client_writer@ + Seq::<u8>::empty() + Seq::<u8>::empty() =~= client_writer@);
            assert(server_writer@ + Seq::<u8>::empty() =~= server_writer@);
        },
        Action::Forward => {
            server_writer.push(request);
            assert(client_writer@ + Seq::<u8>::empty() + Seq::<u8>::empty() =~= client_writer@);
        },
        Action::Mutate(p2) => {
            server_writer.push(&p2);
            assert(client_writer@ + Seq::<u8>::empty() + Seq::<u8>::empty() =~= client_writer@);
        },
        Action::Respond(v) => {
            push_all(client_writer, &v);
            assert(old(client_writer)@ + packet_bytes(v@) + Seq::<u8>::empty() =~= client_writer@);
            assert(server_writer@ + Seq::<u8>::empty() =~= server_writer@);
        },
        Action::Error { code, state, msg } => {
            let ghost text = msg@;
            let error_packet = Packet::error_packet(code, state, msg);
            client_writer.push(&error_packet);
            assert(old(client_writer)@ + Seq::<u8>::empty() + error_packet_bytes(
                code,
                state@,
                encode_utf8(text),
            ) =~= client_writer@);
            assert(server_writer@ + Seq::<u8>::empty() =~= server_writer@);
        },
    }
}

/// Carries out a handler's action on a server response: what is sent on and
/// an error packet go to the client, a response goes to the server.
pub fn dispatch_response(
    action: Action,
    response: &Packet,
    client_writer: &mut ConnWriter,
    server_writer: &mut ConnWriter,
)
    ensures
        final(client_writer)@ == old(client_writer)@ + sent_onward(action, response@) + sent_error(
            action,
        ),
        final(server_writer)@ == old(server_writer)@ + sent_back(action),
{
    match action {
        Action::Drop => {
            assert(client_writer@ + Seq::<u8>::empty() + Seq::<u8>::empty() =~= client_writer@);
            assert(server_writer@ + Seq::<u8>::empty() =~= server_writer@);
        },
        Action::Forward => {
            client_writer.push(response);
            assert(old(client_writer)@ + response@ + Seq::<u8>::empty() =~= client_writer@);
            assert(server_writer@ + Seq::<u8>::empty() =~= server_writer@);
        },
        Action::Mutate(p2) => {
            client_writer.push(&p2);
            assert(old(client_writer)@ + p2@ + Seq::<u8>::empty() =~= client_writer@);
            assert(server_writer@ + Seq::<u8>::empty() =~= server_writer@);
        },
        Action::Respond(v) => {
            push_all(server_writer, &v);
            assert(client_writer@ + Seq::<u8>::empty() + Seq::<u8>::empty() =~= client_writer@);
        },
        Action::Error { code, state, msg } => {
            let ghost text = msg@;
            let error_packet = Packet::error_packet(code, state, msg);
            client_writer.push(&error_packet);
            assert(old(client_writer)@ + Seq::<u8>::empty() + error_packet_bytes(
                code,
                state@,
                encode_utf8(text),
            ) =~= client_writer@);
            assert(server_writer@ + Seq::<u8>::empty() =~= server_writer@);
        },
    }
}

/// The text behind the command byte of a packet, where the packet has a
/// payload and that text is valid UTF-8.
pub open spec fn payload_text(packet: Seq<u8>) -> Option<Seq<char>> {
    if packet.len() > 4 && valid_utf8(packet.skip(5)) {
        Some(decode_utf8(packet.skip(5)))
    } else {
        None
    }
}

/// Reads the text behind the command byte of a packet.
pub fn read_payload_text(packet: &Packet) -> (r: Option<String>)
    ensures
        r is Some <==> payload_text(packet@) is Some,
        r matches Some(s) ==> s@ == payload_text(packet@).unwrap(),
{
    let n = packet.bytes.len();
    if n > 4 {
        let mut payload: Vec<u8> = Vec::new();
        let mut i: usize = 5;
        while i < n
            invariant
                n == packet@.len(),
                5 <= i <= n,
                payload@ == packet@.skip(5).take(i - 5),
            decreases n - i,
        {
            payload.push(packet.bytes[i]);
            i = i + 1;
            assert(payload@ =~= packet@.skip(5).take(i - 5));
        }
        assert(payload@ =~= packet@.skip(5));
        string_from_utf8(payload)
    } else {
        None
    }
}

/// What a run of actions on client requests queues for the server: for each
/// request in turn, what its action sends on.
pub open spec fn forwarded(actions: Seq<Action>, requests: Seq<Seq<u8>>) -> Seq<u8>
    recommends
        actions.len() == requests.len(),
    decreases actions.len(),
{
    if actions.len() == 0 {
        Seq::empty()
    } else {
        forwarded(actions.drop_last(), requests.drop_last()) + sent_onward(
            actions.last(),
            requests.last(),
        )
    }
}

/// What a run of actions on client requests queues for the client: for each
/// request in turn, the response and the error packet of its action.
pub open spec fn replied(actions: Seq<Action>) -> Seq<u8>
    decreases actions.len(),
{
    if actions.len() == 0 {
        Seq::empty()
    } else {
        replied(actions.drop_last()) + sent_back(actions.last()) + sent_error(actions.last())
    }
}

/// What a run of actions on server responses queues for the client: for each
/// response in turn, what its action sends on, and its error packet.
pub open spec fn delivered(actions: Seq<Action>, responses: Seq<Seq<u8>>) -> Seq<u8>
    recommends
        actions.len() == responses.len(),
    decreases actions.len(),
{
    if actions.len() == 0 {
        Seq::empty()
    } else {
        delivered(actions.drop_last(), responses.drop_last()) + sent_onward(
            actions.last(),
            responses.last(),
        ) + sent_error(actions.last())
    }
}

/// What a run of actions on server responses queues for the server: for each
/// response in turn, what its action sends back.
pub open spec fn returned(actions: Seq<Action>) -> Seq<u8>
    decreases actions.len(),
{
    if actions.len() == 0 {
        Seq::empty()
    } else {
        returned(actions.drop_last()) + sent_back(actions.last())
    }
}

/// One packet that the handler has decided on.
pub struct Decided<H> {
    /// What the handler decided.
    pub action: Action,
    /// The handler as it left itself.
    pub handler: H,
    /// The context as the handler left it.
    pub left: ConnectionContext,
    /// The context as the pipe left it.
    pub context: ConnectionContext,
}

/// The handler in front of packet `i` of a run that `first` began.
pub open spec fn handler_before<H>(steps: Seq<Decided<H>>, i: int, first: H) -> H {
    if i <= 0 {
        first
    } else {
        steps[i - 1].handler
    }
}

/// The context in front of packet `i` of a run that `first` began.
pub open spec fn context_before<H>(
    steps: Seq<Decided<H>>,
    i: int,
    first: ConnectionContext,
) -> ConnectionContext {
    if i <= 0 {
        first
    } else {
        steps[i - 1].context
    }
}

/// The actions of a run, in order.
pub open spec fn actions_of<H>(steps: Seq<Decided<H>>) -> Seq<Action> {
    steps.map_values(|d: Decided<H>| d.action)
}

/// Whether `context` is `left` with the text of `request` noted in it as the
/// SQL of the connection; a request without a text leaves it as it is.
pub open spec fn text_noted(
    left: ConnectionContext,
    request: Seq<u8>,
    context: ConnectionContext,
) -> bool {
    match payload_text(request) {
        Some(text) => {
            &&& context.sql matches Some(sql)
            &&& sql@ == text
            &&& context == (ConnectionContext { sql: context.sql, ..left })
        },
        None => context == left,
    }
}

/// Whether `steps` is a run of the handler over `requests`: each request in
/// turn was shown to the handler as the step before left it, with the
/// context as the step before left it, the handler decided as its relation
/// lets it, and the text of the request was noted in the context.
pub open spec fn requests_decided<H: PacketHandler>(
    first: H,
    context: ConnectionContext,
    requests: Seq<Seq<u8>>,
    steps: Seq<Decided<H>>,
) -> bool {
    &&& steps.len() == requests.len()
    &&& forall|i: int|
        0 <= i < steps.len() ==> {
            &&& handler_before(steps, i, first).decides_request(
                requests[i],
                context_before(steps, i, context),
                (#[trigger] steps[i]).action,
                steps[i].handler,
                steps[i].left,
            )
            &&& text_noted(steps[i].left, requests[i], steps[i].context)
        }
}

/// Whether `steps` is a run of the handler over `responses`, in the same
/// sense; the pipe leaves the context as the handler does.
pub open spec fn responses_decided<H: PacketHandler>(
    first: H,
    context: ConnectionContext,
    responses: Seq<Seq<u8>>,
    steps: Seq<Decided<H>>,
) -> bool {
    &&& steps.len() == responses.len()
    &&& forall|i: int|
        0 <= i < steps.len() ==> {
            &&& handler_before(steps, i, first).decides_response(
                responses[i],
                context_before(steps, i, context),
                (#[trigger] steps[i]).action,
                steps[i].handler,
                steps[i].left,
            )
            &&& steps[i].context == steps[i].left
        }
}

/// Whether the handler was shown the responses that ended, where there were
/// any, and left itself and the context as its relation lets it; without a
/// response both stay.
pub open spec fn responses_finished<H: PacketHandler>(
    handler: H,
    context: ConnectionContext,
    responses: Seq<Seq<u8>>,
    after: H,
    left: ConnectionContext,
) -> bool {
    if responses.len() == 0 {
        after == handler && left == context
    } else {
        handler.finishes_response(responses, context, after, left)
    }
}

/// Whether a pipe has processed `requests` by the run `steps`: the handler
/// and the context are as the run left them, and the writers have taken in
/// what the actions of the run queue.
pub open spec fn requests_processed<H: PacketHandler>(
    steps: Seq<Decided<H>>,
    requests: Seq<Seq<u8>>,
    before: Pipe<H>,
    after: Pipe<H>,
) -> bool {
    &&& requests_decided(before.handler, before.context, requests, steps)
    &&& after.handler == handler_before(steps, steps.len() as int, before.handler)
    &&& after.context == context_before(steps, steps.len() as int, before.context)
    &&& after.client_writer@ == before.client_writer@ + replied(actions_of(steps))
    &&& after.server_writer@ == before.server_writer@ + forwarded(actions_of(steps), requests)
}

/// Whether a pipe has processed `responses` by the run `steps`, and shown
/// them to the handler once more as the responses that ended.
pub open spec fn responses_processed<H: PacketHandler>(
    steps: Seq<Decided<H>>,
    responses: Seq<Seq<u8>>,
    before: Pipe<H>,
    after: Pipe<H>,
) -> bool {
    &&& responses_decided(before.handler, before.context, responses, steps)
    &&& responses_finished(
        handler_before(steps, steps.len() as int, before.handler),
        context_before(steps, steps.len() as int, before.context),
        responses,
        after.handler,
        after.context,
    )
    &&& after.client_writer@ == before.client_writer@ + delivered(actions_of(steps), responses)
    &&& after.server_writer@ == before.server_writer@ + returned(actions_of(steps))
}

/// A run over requests goes on by one step that the handler's relation
/// lets it take.
proof fn lemma_requests_decided_push<H: PacketHandler>(
    first: H,
    context: ConnectionContext,
    seen: Seq<Seq<u8>>,
    before: Seq<Decided<H>>,
    request: Seq<u8>,
    step: Decided<H>,
)
    requires
        requests_decided(first, context, seen, before),
        handler_before(before, before.len() as int, first).decides_request(
            request,
            context_before(before, before.len() as int, context),
            step.action,
            step.handler,
            step.left,
        ),
        text_noted(step.left, request, step.context),
    ensures
        requests_decided(first, context, seen.push(request), before.push(step)),
        actions_of(before.push(step)) == actions_of(before).push(step.action),
{
    let steps = before.push(step);
    let done = seen.push(request);
    assert(actions_of(steps) =~= actions_of(before).push(step.action));
    assert forall|i: int| 0 <= i < steps.len() implies {
        &&& handler_before(steps, i, first).decides_request(
            done[i],
            context_before(steps, i, context),
            (#[trigger] steps[i]).action,
            steps[i].handler,
            steps[i].left,
        )
        &&& text_noted(steps[i].left, done[i], steps[i].context)
    } by {
        if i < before.len() {
            assert(steps[i] == before[i]);
            assert(done[i] == seen[i]);
            assert(handler_before(steps, i, first) == handler_before(before, i, first));
            assert(context_before(steps, i, context) == context_before(before, i, context));
        }
    }
}

/// A run over responses goes on by one step that the handler's relation
/// lets it take.
proof fn lemma_responses_decided_push<H: PacketHandler>(
    first: H,
    context: ConnectionContext,
    seen: Seq<Seq<u8>>,
    before: Seq<Decided<H>>,
    response: Seq<u8>,
    step: Decided<H>,
)
    requires
        responses_decided(first, context, seen, before),
        handler_before(before, before.len() as int, first).decides_response(
            response,
            context_before(before, before.len() as int, context),
            step.action,
            step.handler,
            step.left,
        ),
        step.context == step.left,
    ensures
        responses_decided(first, context, seen.push(response), before.push(step)),
        actions_of(before.push(step)) == actions_of(before).push(step.action),
{
    let steps = before.push(step);
    let done = seen.push(response);
    assert(actions_of(steps) =~= actions_of(before).push(step.action));
    assert forall|i: int| 0 <= i < steps.len() implies {
        &&& handler_before(steps, i, first).decides_response(
            done[i],
            context_before(steps, i, context),
            (#[trigger] steps[i]).action,
            steps[i].handler,
            steps[i].left,
        )
        &&& steps[i].context == steps[i].left
    } by {
        if i < before.len() {
            assert(steps[i] == before[i]);
            assert(done[i] == seen[i]);
            assert(handler_before(steps, i, first) == handler_before(before, i, first));
            assert(context_before(steps, i, context) == context_before(before, i, context));
        }
    }
}

/// The two directions of one proxied connection, with the handler that
/// decides on every packet.
pub struct Pipe<H: PacketHandler> {
    pub client_reader: ConnReader,
    pub client_writer: ConnWriter,
    pub server_reader: ConnReader,
    pub server_writer: ConnWriter,
    pub context: ConnectionContext,
    pub handler: H,
}

impl<H: PacketHandler> Pipe<H> {
    /// A pipe with empty buffers.
    pub fn new(handler: H, context: ConnectionContext) -> (pipe: Pipe<H>)
        ensures
            pipe.client_reader@ == Seq::<u8>::empty(),
            pipe.client_writer@ == Seq::<u8>::empty(),
            pipe.server_reader@ == Seq::<u8>::empty(),
            pipe.server_writer@ == Seq::<u8>::empty(),
            pipe.context == context,
            pipe.handler == handler,
    {
        Pipe {
            client_reader: ConnReader::new(),
            client_writer: ConnWriter::new(),
            server_reader: ConnReader::new(),
            server_writer: ConnWriter::new(),
            context,
            handler,
        }
    }

    /// Processes the requests that have arrived in full. Each is shown to
    /// the handler, in order, and what the handler decides on it is queued:
    /// what is sent on for the server, a response and an error packet for
    /// the client. The text of each request is noted in the context. Of the
    /// client's bytes only the start of a request that has not arrived in
    /// full is kept. Without a whole request nothing changes.
    pub fn process_requests(&mut self) -> (count: usize)
        ensures
            count == frames(old(self).client_reader@).len(),
            final(self).client_reader@ == remainder(old(self).client_reader@),
            final(self).server_reader@ == old(self).server_reader@,
            exists|steps: Seq<Decided<H>>| #[trigger]
                requests_processed(
                    steps,
                    frames(old(self).client_reader@),
                    *old(self),
                    *final(self),
                ),
            count == 0 ==> final(self).context == old(self).context && final(self).handler == old(self).handler && final(self).client_writer@ == old(self).client_writer@ && final(self).server_writer@ == old(self).server_writer@,
    {
        let mut count: usize = 0;
        let buffered = self.client_reader.buffered();
        let ghost mut steps: Seq<Decided<H>> = Seq::empty();
        let ghost mut done: Seq<Seq<u8>> = Seq::empty();
        proof {
            lemma_frames_count(self.client_reader@);
            assert(frames(self.client_reader@).len() <= buffered);
            assert(done + frames(self.client_reader@) =~= frames(self.client_reader@));
            assert(actions_of(steps) =~= Seq::<Action>::empty());
            assert(self.client_writer@ + replied(actions_of(steps)) =~= self.client_writer@);
            assert(self.server_writer@ + forwarded(actions_of(steps), done)
                =~= self.server_writer@);
        }
        loop
            invariant
                remainder(self.client_reader@) == remainder(old(self).client_reader@),
                self.server_reader@ == old(self).server_reader@,
                done + frames(self.client_reader@) == frames(old(self).client_reader@),
                done.len() == count,
                frames(old(self).client_reader@).len() <= usize::MAX,
                requests_decided(old(self).handler, old(self).context, done, steps),
                self.handler == handler_before(steps, count as int, old(self).handler),
                self.context == context_before(steps, count as int, old(self).context),
                self.client_writer@ == old(self).client_writer@ + replied(actions_of(steps)),
                self.server_writer@ == old(self).server_writer@ + forwarded(
                    actions_of(steps),
                    done,
                ),
            ensures
                !has_frame(self.client_reader@),
            decreases self.client_reader@.len(),
        {
            match self.client_reader.next() {
                Some(request) => {
                    let ghost handler_was = self.handler;
                    let ghost context_was = self.context;
                    let action = self.handler.handle_request(&request, &mut self.context);
                    let ghost decided = action;
                    let ghost left = self.context;
                    dispatch_request(
                        action,
                        &request,
                        &mut self.client_writer,
                        &mut self.server_writer,
                    );
                    match read_payload_text(&request) {
                        Some(sql) => {
                            self.context.sql = Some(sql);
                        },
                        None => {},
                    }
                    proof {
                        let before = steps;
                        let seen = done;
                        let step = Decided {
                            action: decided,
                            handler: self.handler,
                            left,
                            context: self.context,
                        };
                        steps = steps.push(step);
                        done = done.push(request@);
                        assert(actions_of(steps) =~= actions_of(before).push(decided));
                        assert(actions_of(steps).drop_last() =~= actions_of(before));
                        assert(done.drop_last() =~= seen);
                        assert(seen + (seq![request@] + frames(self.client_reader@)) =~= done
                            + frames(self.client_reader@));
                        assert(old(self).client_writer@ + replied(actions_of(before)) + sent_back(
                            decided,
                        ) + sent_error(decided) =~= old(self).client_writer@ + replied(
                            actions_of(steps),
                        ));
                        assert(old(self).server_writer@ + forwarded(actions_of(before), seen)
                            + sent_onward(decided, request@) =~= old(self).server_writer@
                            + forwarded(actions_of(steps), done));
                        lemma_requests_decided_push(
                            old(self).handler,
                            old(self).context,
                            seen,
                            before,
                            request@,
                            step,
                        );
                    }
                    count = count + 1;
                },
                None => {
                    break ;
                },
            }
        }
        proof {
            assert(done =~= frames(old(self).client_reader@));
            assert(requests_processed(steps, frames(old(self).client_reader@), *old(self), *self));
            if count == 0 {
                assert(steps =~= Seq::<Decided<H>>::empty());
                assert(self.client_writer@ =~= old(self).client_writer@);
                assert(self.server_writer@ =~= old(self).server_writer@);
            }
        }
        count
    }

    /// Processes the responses that have arrived in full. Each is shown to
    /// the handler, in order, and what the handler decides on it is queued:
    /// what is sent on and an error packet for the client, a response for
    /// the server. Then all of them are shown to the handler once more, as
    /// the response that has ended. Without a whole response nothing changes.
    pub fn process_responses(&mut self) -> (count: usize)
        ensures
            count == frames(old(self).server_reader@).len(),
            final(self).server_reader@ == remainder(old(self).server_reader@),
            final(self).client_reader@ == old(self).client_reader@,
            exists|steps: Seq<Decided<H>>| #[trigger]
                responses_processed(
                    steps,
                    frames(old(self).server_reader@),
                    *old(self),
                    *final(self),
                ),
            count == 0 ==> final(self).context == old(self).context && final(self).handler == old(self).handler && final(self).client_writer@ == old(self).client_writer@ && final(self).server_writer@ == old(self).server_writer@,
    {
        let mut packets: Vec<Packet> = Vec::new();
        let mut count: usize = 0;
        let buffered = self.server_reader.buffered();
        let ghost mut steps: Seq<Decided<H>> = Seq::empty();
        let ghost mut done: Seq<Seq<u8>> = Seq::empty();
        proof {
            lemma_frames_count(self.server_reader@);
            assert(frames(self.server_reader@).len() <= buffered);
            assert(done + frames(self.server_reader@) =~= frames(self.server_reader@));
            assert(actions_of(steps) =~= Seq::<Action>::empty());
            assert(self.client_writer@ + delivered(actions_of(steps), done)
                =~= self.client_writer@);
            assert(self.server_writer@ + returned(actions_of(steps)) =~= self.server_writer@);
            assert(packets@.map_values(|p: Packet| p@) =~= done);
        }
        loop
            invariant
                remainder(self.server_reader@) == remainder(old(self).server_reader@),
                self.client_reader@ == old(self).client_reader@,
                done + frames(self.server_reader@) == frames(old(self).server_reader@),
                done.len() == count,
                packets@.map_values(|p: Packet| p@) == done,
                frames(old(self).server_reader@).len() <= usize::MAX,
                responses_decided(old(self).handler, old(self).context, done, steps),
                self.handler == handler_before(steps, count as int, old(self).handler),
                self.context == context_before(steps, count as int, old(self).context),
                self.client_writer@ == old(self).client_writer@ + delivered(
                    actions_of(steps),
                    done,
                ),
                self.server_writer@ == old(self).server_writer@ + returned(actions_of(steps)),
            ensures
                !has_frame(self.server_reader@),
            decreases self.server_reader@.len(),
        {
            match self.server_reader.next() {
                Some(response) => {
                    let ghost copies = packets@.map_values(|p: Packet| p@);
                    let mut copy: Vec<u8> = Vec::new();
                    append_bytes(&mut copy, response.bytes.as_slice());
                    packets.push(Packet::new(copy));
                    assert(packets@.map_values(|p: Packet| p@) =~= copies.push(response@));
                    let ghost handler_was = self.handler;
                    let ghost context_was = self.context;
                    let action = self.handler.handle_response(&response, &mut self.context);
                    let ghost decided = action;
                    dispatch_response(
                        action,
                        &response,
                        &mut self.client_writer,
                        &mut self.server_writer,
                    );
                    proof {
                        let before = steps;
                        let seen = done;
                        let step = Decided {
                            action: decided,
                            handler: self.handler,
                            left: self.context,
                            context: self.context,
                        };
                        steps = steps.push(step);
                        done = done.push(response@);
                        assert(actions_of(steps) =~= actions_of(before).push(decided));
                        assert(actions_of(steps).drop_last() =~= actions_of(before));
                        assert(done.drop_last() =~= seen);
                        assert(seen + (seq![response@] + frames(self.server_reader@)) =~= done
                            + frames(self.server_reader@));
                        assert(old(self).client_writer@ + delivered(actions_of(before), seen)
                            + sent_onward(decided, response@) + sent_error(decided) =~= old(self).client_writer@ + delivered(actions_of(steps), done));
                        assert(old(self).server_writer@ + returned(actions_of(before)) + sent_back(
                            decided,
                        ) =~= old(self).server_writer@ + returned(actions_of(steps)));
                        lemma_responses_decided_push(
                            old(self).handler,
                            old(self).context,
                            seen,
                            before,
                            response@,
                            step,
                        );
                    }
                    count = count + 1;
                },
                None => {
                    break ;
                },
            }
        }
        proof {
            assert(done =~= frames(old(self).server_reader@));
        }
        if count > 0 {
            self.handler.handle_response_finish(packets, &mut self.context);
        }
        proof {
            assert(responses_processed(
                steps,
                frames(old(self).server_reader@),
                *old(self),
                *self,
            ));
            if count == 0 {
                assert(steps =~= Seq::<Decided<H>>::empty());
                assert(self.client_writer@ =~= old(self).client_writer@);
                assert(self.server_writer@ =~= old(self).server_writer@);
            }
        }
        count
    }

    /// One turn of the pipe: takes in what was read from the client and
    /// processes the requests that are whole, then takes in what was read
    /// from the server and processes the responses that are whole.
    pub fn turn(&mut self, from_client: &[u8], from_server: &[u8])
        ensures
            final(self).client_reader@ == remainder(old(self).client_reader@ + from_client@),
            final(self).server_reader@ == remainder(old(self).server_reader@ + from_server@),
            exists|between: Pipe<H>, on_requests: Seq<Decided<H>>, on_responses: Seq<Decided<H>>|
                #[trigger] turned(
                    between,
                    on_requests,
                    on_responses,
                    frames(old(self).client_reader@ + from_client@),
                    frames(old(self).server_reader@ + from_server@),
                    *old(self),
                    *final(self),
                ),
    {
        self.client_reader.feed(from_client);
        let ghost fed = *self;
        self.process_requests();
        let ghost between = *self;
        self.server_reader.feed(from_server);
        let ghost refed = *self;
        self.process_responses();
        proof {
            let requests = frames(old(self).client_reader@ + from_client@);
            let responses = frames(old(self).server_reader@ + from_server@);
            let on_requests = choose|steps: Seq<Decided<H>>| #[trigger]
                requests_processed(steps, requests, fed, between);
            let on_responses = choose|steps: Seq<Decided<H>>| #[trigger]
                responses_processed(steps, responses, refed, *self);
            assert(requests_processed(on_requests, requests, *old(self), between));
            assert(responses_processed(on_responses, responses, between, *self));
            assert(turned(
                between,
                on_requests,
                on_responses,
                requests,
                responses,
                *old(self),
                *self,
            ));
        }
    }
}

/// Whether a pipe has made one turn: it has processed `requests` by the run
/// `on_requests`, which left it as `between`, and then `responses` by the
/// run `on_responses`.
pub open spec fn turned<H: PacketHandler>(
    between: Pipe<H>,
    on_requests: Seq<Decided<H>>,
    on_responses: Seq<Decided<H>>,
    requests: Seq<Seq<u8>>,
    responses: Seq<Seq<u8>>,
    before: Pipe<H>,
    after: Pipe<H>,
) -> bool {
    &&& requests_processed(on_requests, requests, before, between)
    &&& responses_processed(on_responses, responses, between, after)
}

} // verus!
