//! A small packet handler, to show how one is written: it refuses every
//! query that mentions avocados, answers `select 1` itself, and forwards
//! everything else.

use crate::protocol::{
    payload_text, read_payload_text, Action, ConnectionContext, Packet, PacketHandler,
};
use crate::text::{contains_chars, occurs_in, to_chars};
use vstd::prelude::*;

verus! {

/// The error code of a refused query.
pub const REJECT_CODE: u16 = 1064;

/// What the handler makes of a request.
#[derive(Copy, Clone, Debug, PartialEq, Eq, Structural)]
pub enum DemoDecision {
    /// Refuse the query with an error packet.
    Reject,
    /// Answer the query with an OK packet.
    Acknowledge,
    /// Hand the packet to the server.
    Forward,
}

/// The handler. It keeps nothing between packets.
pub struct DemoHandler {}

/// The message of the error packet that refuses a query.
pub open spec fn reject_message() -> Seq<char> {
    "Proxy rejecting any avocado-related queries"@
}

/// The SQL state of the error packet that refuses a query.
pub open spec fn reject_state() -> Seq<u8> {
    seq![0x31u8, 0x32u8, 0x33u8, 0x34u8, 0x35u8]
}

/// The OK packet that answers a query: seven bytes of payload, sequence
/// id 1, no rows affected, and the status that the connection commits by
/// itself.
pub open spec fn ok_packet() -> Seq<u8> {
    seq![7u8, 0u8, 0u8, 1u8, 0x00u8, 0x01u8, 0x00u8, 0x02u8, 0x00u8, 0x00u8, 0x00u8]
}

/// What the handler makes of a request: anything but a text query is
/// forwarded; of queries, one that mentions `avocado` is refused, one that
/// holds `select 1` is answered, and any other is forwarded.
pub open spec fn demo_decision(request: Seq<u8>) -> DemoDecision {
    if request.len() > 4 && request[4] == 0x03 {
        match payload_text(request) {
            Some(sql) => if occurs_in(sql, "avocado"@) {
                DemoDecision::Reject
            } else if occurs_in(sql, "select 1"@) {
                DemoDecision::Acknowledge
            } else {
                DemoDecision::Forward
            },
            None => DemoDecision::Forward,
        }
    } else {
        DemoDecision::Forward
    }
}

/// Whether an action is the one that a decision leads to.
pub open spec fn carries_out(action: Action, decision: DemoDecision) -> bool {
    match decision {
        DemoDecision::Reject => {
            &&& action matches Action::Error { code, state, msg }
            &&& code == REJECT_CODE
            &&& state@ == reject_state()
            &&& msg@ == reject_message()
        },
        DemoDecision::Acknowledge => {
            &&& action matches Action::Respond(packets)
            &&& packets@.len() == 1
            &&& packets@[0]@ == ok_packet()
        },
        DemoDecision::Forward => action == Action::Forward,
    }
}

impl DemoHandler {
    pub fn new() -> DemoHandler {
        DemoHandler {  }
    }

    /// Decides on a request.
    pub fn decide(p: &Packet) -> (decision: DemoDecision)
        ensures
            decision == demo_decision(p@),
    {
        if p.bytes.len() > 4 && p.bytes[4] == 0x03 {
            match read_payload_text(p) {
                Some(sql) => {
                    let chars = to_chars(sql.as_str());
                    if contains_chars(&chars, &to_chars("avocado")) {
                        DemoDecision::Reject
                    } else if contains_chars(&chars, &to_chars("select 1")) {
                        DemoDecision::Acknowledge
                    } else {
                        DemoDecision::Forward
                    }
                },
                None => DemoDecision::Forward,
            }
        } else {
            DemoDecision::Forward
        }
    }
}

impl PacketHandler for DemoHandler {
    open spec fn decides_request(
        &self,
        request: Seq<u8>,
        ctx: ConnectionContext,
        action: Action,
        after: Self,
        left: ConnectionContext,
    ) -> bool {
        carries_out(action, demo_decision(request)) && left == ctx
    }

    open spec fn decides_response(
        &self,
        response: Seq<u8>,
        ctx: ConnectionContext,
        action: Action,
        after: Self,
        left: ConnectionContext,
    ) -> bool {
        action == Action::Forward && left == ctx
    }

    open spec fn finishes_response(
        &self,
        responses: Seq<Seq<u8>>,
        ctx: ConnectionContext,
        after: Self,
        left: ConnectionContext,
    ) -> bool {
        left == ctx
    }

    fn handle_request(&mut self, p: &Packet, ctx: &mut ConnectionContext) -> (action: Action) {
        match DemoHandler::decide(p) {
            DemoDecision::Reject => {
                let state: [u8; 5] = [0x31, 0x32, 0x33, 0x34, 0x35];
                assert(state@ =~= reject_state());
                Action::Error {
                    code: REJECT_CODE,
                    state,
                    msg: String::from_str("Proxy rejecting any avocado-related queries"),
                }
            },
            DemoDecision::Acknowledge => {
                let mut bytes: Vec<u8> = Vec::new();
                bytes.push(7);
                bytes.push(0);
                bytes.push(0);
                bytes.push(1);
                bytes.push(0x00);
                bytes.push(0x01);
                bytes.push(0x00);
                bytes.push(0x02);
                bytes.push(0x00);
                bytes.push(0x00);
                bytes.push(0x00);
                assert(bytes@ =~= ok_packet());
                let mut packets: Vec<Packet> = Vec::new();
                packets.push(Packet::new(bytes));
                Action::Respond(packets)
            },
            DemoDecision::Forward => Action::Forward,
        }
    }

    fn handle_response(&mut self, p: &Packet, ctx: &mut ConnectionContext) -> (action: Action) {
        Action::Forward
    }

    fn handle_response_finish(&mut self, packets: Vec<Packet>, ctx: &mut ConnectionContext) {
    }
}

} // verus!
