//! One status probe over an established connection: handshake and status
//! request, the status reply, the ping and its pong. The caller does the
//! reading and writing; a `StatusProbe` says what to send and judges what
//! came back, failing at the first fault.
use vstd::prelude::*;
use vstd::string::*;
use crate::packet::{
    be_bytes, check_pong, frame_bytes, handshake_packet, handshake_payload, ping_packet, pong_spec,
    status_json_bytes, status_json_spec, status_request_packet, Packet, MAX_HOST_LEN,
};
use crate::resolve::SocketCandidate;
use crate::service::MinecraftServerInfo;
use crate::status::{status_from_json, status_of, status_valid, JsonValue, StatusResponse};
use crate::varint::ProtocolError;

verus! {

/// Where a probe stands.
#[derive(Debug, Clone, Copy, PartialEq, Eq, Structural)]
pub enum ProbeStage {
    /// Handshake and status request sent; waits for the status reply.
    AwaitStatus,
    /// Waits for the reply's JSON document, parsed.
    AwaitDocument,
    /// Ping sent; waits for the pong.
    AwaitPong,
    /// The result was handed out.
    Done,
    /// A fault ended the probe.
    Failed,
}

/// The value that the ping carries.
pub const PING_VALUE: i64 = 0;

/// A probe of `host` over a connection to `winner`.
pub struct StatusProbe {
    host: String,
    winner: SocketCandidate,
    connect_ms: u128,
    stage: ProbeStage,
    status: Option<StatusResponse>,
    reply: Vec<u8>,
}

impl StatusProbe {
    pub closed spec fn stage_of(&self) -> ProbeStage {
        self.stage
    }

    pub closed spec fn host_of(&self) -> Seq<char> {
        self.host@
    }

    pub closed spec fn winner_of(&self) -> SocketCandidate {
        self.winner
    }

    pub closed spec fn connect_ms_of(&self) -> u128 {
        self.connect_ms
    }

    /// The JSON bytes of the status reply, once it has been taken.
    pub closed spec fn reply_of(&self) -> Seq<u8> {
        self.reply@
    }

    /// The decoded status, once the document has been taken.
    pub closed spec fn status_of(&self) -> Option<StatusResponse> {
        self.status
    }

    pub open spec fn wf(&self) -> bool {
        self.stage_of() == ProbeStage::AwaitPong ==> self.status_of() is Some
    }

    /// Starts a probe of `host`, as the user gave it, over a connection to
    /// `winner`; `connect_ms` is how long the connect race took. Gives the
    /// bytes to send: the handshake, announcing the winner's port, then the
    /// status request.
    pub fn begin(host: &str, winner: SocketCandidate, connect_ms: u128) -> (r: (StatusProbe, Vec<u8>))
        requires
            host.spec_bytes().len() <= MAX_HOST_LEN,
        ensures
            r.0.wf(),
            r.0.stage_of() == ProbeStage::AwaitStatus,
            r.0.host_of() == host@,
            r.0.winner_of() == winner,
            r.0.connect_ms_of() == connect_ms,
            r.1@ == frame_bytes(0, handshake_payload(host.spec_bytes(), winner.port)) + seq![1u8, 0u8],
    {
        let mut bytes = handshake_packet(host, winner.port);
        let request = status_request_packet();
        let ghost first = bytes@;
        bytes.extend_from_slice(request.as_slice());
        assert(bytes@ =~= first + seq![1u8, 0u8]);
        let probe = StatusProbe { host: host.to_owned(), winner, connect_ms, stage: ProbeStage::AwaitStatus, status: None, reply: Vec::new() };
        (probe, bytes)
    }

    /// Where the probe stands.
    pub fn stage(&self) -> (r: ProbeStage)
        ensures
            r == self.stage_of(),
    {
        self.stage
    }

    /// The JSON bytes of the status reply, kept for logging a document that
    /// does not decode.
    pub fn raw_reply(&self) -> (r: &Vec<u8>)
        ensures
            r@ == self.reply_of(),
    {
        &self.reply
    }

    /// Takes the status reply; gives the bytes of its JSON document, and
    /// keeps a copy of them.
    pub fn on_status_reply(&mut self, packet: &Packet) -> (r: Result<Vec<u8>, ProtocolError>)
        requires
            old(self).stage_of() == ProbeStage::AwaitStatus,
        ensures
            final(self).wf(),
            r matches Ok(v) ==> status_json_spec(packet.id, packet.payload@) == Ok::<Seq<u8>, ProtocolError>(v@)
                && final(self).stage_of() == ProbeStage::AwaitDocument && final(self).reply_of() == v@,
            r matches Err(e) ==> status_json_spec(packet.id, packet.payload@) == Err::<Seq<u8>, ProtocolError>(e)
                && final(self).stage_of() == ProbeStage::Failed,
            final(self).host_of() == old(self).host_of(),
            final(self).winner_of() == old(self).winner_of(),
            final(self).connect_ms_of() == old(self).connect_ms_of(),
    {
        match status_json_bytes(packet) {
            Ok(v) => {
                let mut copy: Vec<u8> = Vec::new();
                copy.extend_from_slice(v.as_slice());
                assert(copy@ =~= v@);
                self.reply = copy;
                self.stage = ProbeStage::AwaitDocument;
                Ok(v)
            },
            Err(e) => {
                self.stage = ProbeStage::Failed;
                Err(e)
            },
        }
    }

    /// Takes the parsed JSON document of the reply; when it is a status
    /// document, keeps it and gives the ping to send.
    pub fn on_status_document(&mut self, doc: &JsonValue) -> (r: Result<Vec<u8>, ProtocolError>)
        requires
            old(self).stage_of() == ProbeStage::AwaitDocument,
        ensures
            final(self).wf(),
            r is Ok <==> status_valid(*doc),
            r matches Ok(v) ==> v@ == frame_bytes(1, be_bytes(PING_VALUE as u64 as nat, 8))
                && final(self).stage_of() == ProbeStage::AwaitPong
                && (final(self).status_of() matches Some(s) && status_of(*doc, s)),
            r matches Err(e) ==> e == ProtocolError::BadJson && final(self).stage_of() == ProbeStage::Failed,
            final(self).reply_of() == old(self).reply_of(),
            final(self).host_of() == old(self).host_of(),
            final(self).winner_of() == old(self).winner_of(),
            final(self).connect_ms_of() == old(self).connect_ms_of(),
    {
        match status_from_json(doc) {
            Ok(s) => {
                self.status = Some(s);
                self.stage = ProbeStage::AwaitPong;
                Ok(ping_packet(PING_VALUE))
            },
            Err(e) => {
                self.stage = ProbeStage::Failed;
                Err(e)
            },
        }
    }

    /// Takes the reply to the ping, `rtt_ms` after the ping was sent; when
    /// it is a pong, gives the probe's result.
    pub fn on_pong(&mut self, packet: &Packet, rtt_ms: u128) -> (r: Result<MinecraftServerInfo, ProtocolError>)
        requires
            old(self).wf(),
            old(self).stage_of() == ProbeStage::AwaitPong,
        ensures
            r is Ok <==> pong_spec(packet.id, packet.payload@) is Ok,
            r matches Err(e) ==> pong_spec(packet.id, packet.payload@) == Err::<(), ProtocolError>(e)
                && final(self).stage_of() == ProbeStage::Failed,
            r matches Ok(info) ==> {
                let s = old(self).status_of()->0;
                &&& final(self).stage_of() == ProbeStage::Done
                &&& info.host@ == old(self).host_of()
                &&& info.port_effective == old(self).winner_of().port
                &&& info.resolved == old(self).winner_of()
                &&& info.connect_ms == old(self).connect_ms_of()
                &&& info.rtt_ms == rtt_ms
                &&& info.version_name == s.version.name
                &&& info.version_protocol == s.version.protocol
                &&& info.players_online == s.players.online
                &&& info.players_max == s.players.max
                &&& info.motd == s.motd
            },
    {
        match check_pong(packet) {
            Ok(()) => {},
            Err(e) => {
                self.stage = ProbeStage::Failed;
                return Err(e);
            },
        }
        self.stage = ProbeStage::Done;
        // The status is there: it was kept on the way to `AwaitPong`.
        match self.status.take() {
            Some(s) => Ok(MinecraftServerInfo::from_status(self.host.as_str(), self.winner, self.connect_ms, rtt_ms, s)),
            None => Err(ProtocolError::BadJson),
        }
    }
}

} // verus!
