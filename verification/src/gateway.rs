//! The gateway's decision core: what each inbound frame means, how KV
//! requests are authorized and answered, how a runner identity is chosen at
//! handshake, what the command fan-in writes, and what the ping aggregator
//! sends to the allocation index.
//!
//! The I/O layer reads frames, performs external operations and sleeps; every
//! choice it acts on is computed here, as a function from plain values to
//! plain values.

use vstd::prelude::*;
use vstd::string::StringExecFns;

use crate::codec::{
    deserialize_to_server, serialize_to_client, CodecError, PROTOCOL_VERSION,
};
use crate::codec::{dec_to_server, enc_to_client};
use crate::error::{err_to_close_frame, spec_close_code, spec_close_reason, CloseFrame, WsError,
    WsErrorView};
use crate::ids::Id;
use crate::protocol::{KvRequestData, KvRequestDataView, KvResponseData, ToClient, ToClientView,
    ToServer, ToServerView};
use crate::registry::Registry;
use crate::{rtt_from_ping, spec_rtt};

verus! {

// ---------------------------------------------------------------------------
// Allocation-index interface data
// ---------------------------------------------------------------------------

/// One action on the external allocation index.
#[derive(Clone, Copy, Debug, PartialEq, Eq, Structural)]
pub enum IdxAction {
    UpdatePing { rtt: u32 },
    ClearIdx,
}

/// A per-runner entry of one allocation-index update call.
#[derive(Clone, Copy, Debug, PartialEq, Eq, Structural)]
pub struct RunnerIdxUpdate {
    pub runner_id: Id,
    pub action: IdxAction,
}

/// A runner's eligibility transition, as the allocation index reports it.
#[derive(Clone, Copy, Debug, PartialEq, Eq, Structural)]
pub enum Eligibility {
    Eligible,
    ReEligible,
    Expired,
}

/// One notification returned by the allocation-index update operation.
#[derive(Clone, Copy, Debug, PartialEq, Eq, Structural)]
pub struct EligibilityNotification {
    pub runner_id: Id,
    pub workflow_id: Id,
    pub eligibility: Eligibility,
}

// ---------------------------------------------------------------------------
// C4: the read loop's dispatch
// ---------------------------------------------------------------------------

/// An inbound transport frame, as the I/O layer hands it over.
#[derive(Clone, Debug, PartialEq, Eq)]
pub enum WsFrame {
    /// A binary message: one serialized `ToServer` frame.
    Binary { payload: Vec<u8> },
    /// A transport-level ping; the transport answers it itself.
    Ping,
    /// The peer closed the socket.
    Close,
    /// Anything else (text or misframed data): logged and skipped.
    Other,
}

pub enum WsFrameView {
    Binary { payload: Seq<u8> },
    Ping,
    Close,
    Other,
}

impl View for WsFrame {
    type V = WsFrameView;

    open spec fn view(&self) -> WsFrameView {
        match self {
            WsFrame::Binary { payload } => WsFrameView::Binary { payload: payload.view() },
            WsFrame::Ping => WsFrameView::Ping,
            WsFrame::Close => WsFrameView::Close,
            WsFrame::Other => WsFrameView::Other,
        }
    }
}

/// What one inbound frame asks the gateway to do.
#[derive(Clone, Debug, PartialEq, Eq)]
pub enum FrameDecision {
    /// Nothing; the loop reads on.
    Ignore,
    /// The loop ends with this error; cleanup follows.
    Terminate { error: WsError },
    /// Record this round-trip time on the connection.
    StoreRtt { rtt: u32 },
    /// A key/value RPC to authorize and run.
    Kv { request_id: u32, actor_id: Vec<u8>, data: KvRequestData },
    /// Any other runner message: forward as a signal to the runner workflow.
    Forward { msg: ToServer },
}

pub enum FrameDecisionView {
    Ignore,
    Terminate { error: WsErrorView },
    StoreRtt { rtt: u32 },
    Kv { request_id: u32, actor_id: Seq<u8>, data: KvRequestDataView },
    Forward { msg: ToServerView },
}

impl View for FrameDecision {
    type V = FrameDecisionView;

    open spec fn view(&self) -> FrameDecisionView {
        match self {
            FrameDecision::Ignore => FrameDecisionView::Ignore,
            FrameDecision::Terminate { error } => FrameDecisionView::Terminate {
                error: error.view(),
            },
            FrameDecision::StoreRtt { rtt } => FrameDecisionView::StoreRtt { rtt: *rtt },
            FrameDecision::Kv { request_id, actor_id, data } => FrameDecisionView::Kv {
                request_id: *request_id,
                actor_id: actor_id.view(),
                data: data.view(),
            },
            FrameDecision::Forward { msg } => FrameDecisionView::Forward { msg: msg.view() },
        }
    }
}

/// The detail text carried by an `invalid_packet` error for a codec failure.
pub open spec fn spec_codec_error_detail(e: CodecError) -> Seq<char> {
    match e {
        CodecError::UnsupportedVersion => "unsupported protocol version"@,
        CodecError::Malformed => "malformed packet"@,
    }
}

fn codec_error_detail(e: CodecError) -> (r: String)
    ensures
        r@ == spec_codec_error_detail(e),
{
    match e {
        CodecError::UnsupportedVersion => String::from_str("unsupported protocol version"),
        CodecError::Malformed => String::from_str("malformed packet"),
    }
}

/// What the read loop does with one inbound frame, as a function of the
/// frame, the connection's wire version and the clock.
pub open spec fn spec_classify_frame(f: WsFrameView, version: u16, now_ms: i64) -> FrameDecisionView {
    match f {
        WsFrameView::Ping => FrameDecisionView::Ignore,
        WsFrameView::Other => FrameDecisionView::Ignore,
        WsFrameView::Close => FrameDecisionView::Terminate {
            error: WsErrorView::ConnectionClosed,
        },
        WsFrameView::Binary { payload } => {
            if version != PROTOCOL_VERSION {
                FrameDecisionView::Terminate {
                    error: WsErrorView::InvalidPacket {
                        detail: spec_codec_error_detail(CodecError::UnsupportedVersion),
                    },
                }
            } else {
                match dec_to_server(payload) {
                    None => FrameDecisionView::Terminate {
                        error: WsErrorView::InvalidPacket {
                            detail: spec_codec_error_detail(CodecError::Malformed),
                        },
                    },
                    Some(m) => match m {
                        ToServerView::Ping { ts } => FrameDecisionView::StoreRtt {
                            rtt: spec_rtt(now_ms as int, ts as int) as u32,
                        },
                        ToServerView::KvRequest { request_id, actor_id, data } =>
                            FrameDecisionView::Kv { request_id, actor_id, data },
                        other => FrameDecisionView::Forward { msg: other },
                    },
                }
            }
        },
    }
}

/// Classify one inbound frame: transport pings and unknown frames are
/// skipped, a peer close ends the loop normally, and a binary frame is
/// decoded at the connection's version into a ping, a KV request, or a
/// message to forward to the runner workflow; a codec failure ends the loop
/// with `invalid_packet`.
pub fn classify_frame(frame: WsFrame, version: u16, now_ms: i64) -> (r: FrameDecision)
    ensures
        r@ == spec_classify_frame(frame@, version, now_ms),
{
    match frame {
        WsFrame::Ping => FrameDecision::Ignore,
        WsFrame::Other => FrameDecision::Ignore,
        WsFrame::Close => FrameDecision::Terminate { error: WsError::ConnectionClosed },
        WsFrame::Binary { payload } => {
            match deserialize_to_server(&payload, version) {
                Err(e) => FrameDecision::Terminate {
                    error: WsError::InvalidPacket { detail: codec_error_detail(e) },
                },
                Ok(m) => match m {
                    ToServer::Ping { ts } => FrameDecision::StoreRtt {
                        rtt: rtt_from_ping(now_ms, ts),
                    },
                    ToServer::KvRequest { request_id, actor_id, data } => FrameDecision::Kv {
                        request_id,
                        actor_id,
                        data,
                    },
                    other => FrameDecision::Forward { msg: other },
                },
            }
        },
    }
}

/// Frames are handled one at a time, in arrival order: the decisions for a
/// concatenation of two frame sequences are the decisions for the first,
/// followed by the decisions for the second.
pub open spec fn spec_run_frames(fs: Seq<WsFrameView>, version: u16, now_ms: i64) -> Seq<
    FrameDecisionView,
> {
    Seq::new(fs.len(), |i: int| spec_classify_frame(fs[i], version, now_ms))
}

/// In-order processing: earlier frames' effects stand strictly before later
/// ones'. Processing `fs1` followed by `fs2` yields the decisions of `fs1`
/// and then those of `fs2`, unchanged by what follows or precedes them.
pub proof fn lemma_frames_in_order(fs1: Seq<WsFrameView>, fs2: Seq<WsFrameView>, version: u16, now_ms: i64)
    ensures
        spec_run_frames(fs1 + fs2, version, now_ms) == spec_run_frames(fs1, version, now_ms)
            + spec_run_frames(fs2, version, now_ms),
{
    assert(spec_run_frames(fs1 + fs2, version, now_ms) =~= spec_run_frames(fs1, version, now_ms)
        + spec_run_frames(fs2, version, now_ms));
}

// ---------------------------------------------------------------------------
// C5: KV authorization and responses
// ---------------------------------------------------------------------------

/// A KV request is honored exactly when the actor's resolved owner — the
/// first entry of the actor lookup — is the requesting connection's runner.
pub fn kv_authorized(owners: &Vec<Id>, conn_runner: Id) -> (r: bool)
    ensures
        r == (owners@.len() > 0 && owners@[0] == conn_runner),
{
    if owners.len() > 0 {
        owners[0] == conn_runner
    } else {
        false
    }
}

/// The message of the KV response sent when the actor belongs to another
/// runner.
pub open spec fn spec_ownership_message() -> Seq<u8> {
    vstd::utf8::encode_utf8("given actor does not belong to runner"@)
}

/// The KV error response for a request whose actor belongs to another
/// runner, carrying the original request id.
pub fn kv_ownership_error(request_id: u32) -> (r: ToClient)
    ensures
        r@ == (ToClientView::KvResponse {
            request_id,
            data: crate::protocol::KvResponseDataView::Error {
                message: spec_ownership_message(),
            },
        }),
{
    let message = "given actor does not belong to runner".as_bytes_vec();
    ToClient::KvResponse { request_id, data: KvResponseData::Error { message } }
}

/// The KV error response for a failure text, carrying the original request
/// id; used for actor-id parse failures and backend errors.
pub fn kv_error_reply(request_id: u32, message: Vec<u8>) -> (r: ToClient)
    ensures
        r@ == (ToClientView::KvResponse {
            request_id,
            data: crate::protocol::KvResponseDataView::Error { message: message@ },
        }),
{
    ToClient::KvResponse { request_id, data: KvResponseData::Error { message } }
}

/// Encode one KV response for the wire at the connection's version. The
/// response carries the original request id.
pub fn kv_reply_frame(version: u16, request_id: u32, data: KvResponseData) -> (r: Result<
    Vec<u8>,
    CodecError,
>)
    ensures
        version == PROTOCOL_VERSION ==> (r matches Ok(buf) && buf@ == enc_to_client(
            ToClientView::KvResponse { request_id, data: data@ },
        )),
        version != PROTOCOL_VERSION ==> r is Err,
{
    serialize_to_client(&ToClient::KvResponse { request_id, data }, version)
}

// ---------------------------------------------------------------------------
// C3: handshake decisions
// ---------------------------------------------------------------------------

/// Classify the first frame of a connection: it must be a binary blob;
/// a close ends the handshake quietly, anything else is rejected.
pub fn classify_init_frame(frame: WsFrame) -> (r: Result<Vec<u8>, WsError>)
    ensures
        frame@ matches WsFrameView::Binary { payload } ==> (r matches Ok(b) && b@ == payload),
        frame@ is Close ==> (r matches Err(e) && e@ == WsErrorView::ConnectionClosed),
        frame@ is Ping || frame@ is Other ==> (r matches Err(e) && e@
            == (WsErrorView::InvalidInitialPacket { detail: "must be a binary blob"@ })),
{
    match frame {
        WsFrame::Binary { payload } => Ok(payload),
        WsFrame::Close => Err(WsError::ConnectionClosed),
        _ => Err(
            WsError::InvalidInitialPacket { detail: String::from_str("must be a binary blob") },
        ),
    }
}

/// Decode the init packet and require it to be `ToServer::Init`.
pub fn parse_init_packet(payload: &Vec<u8>, version: u16) -> (r: Result<ToServer, WsError>)
    ensures
        version == PROTOCOL_VERSION ==> (match dec_to_server(payload@) {
            Some(m) => if m is Init {
                r matches Ok(p) && p@ == m
            } else {
                r matches Err(e) && e@ == (WsErrorView::InvalidInitialPacket {
                    detail: "must be `ToServer::Init`"@,
                })
            },
            None => r matches Err(e) && e@ == (WsErrorView::InvalidPacket {
                detail: spec_codec_error_detail(CodecError::Malformed),
            }),
        }),
        version != PROTOCOL_VERSION ==> (r matches Err(e) && e@ == (WsErrorView::InvalidPacket {
            detail: spec_codec_error_detail(CodecError::UnsupportedVersion),
        })),
{
    match deserialize_to_server(payload, version) {
        Err(e) => Err(WsError::InvalidPacket { detail: codec_error_detail(e) }),
        Ok(m) => {
            if let ToServer::Init { .. } = &m {
                Ok(m)
            } else {
                Err(
                    WsError::InvalidInitialPacket {
                        detail: String::from_str("must be `ToServer::Init`"),
                    },
                )
            }
        },
    }
}

/// Whether the pre-ping on an existing runner reported its identity expired:
/// true exactly when the first notification says `Expired`.
pub fn runner_expired(notifications: &Vec<EligibilityNotification>) -> (r: bool)
    ensures
        r == (notifications@.len() > 0 && notifications@[0].eligibility is Expired),
{
    if notifications.len() > 0 {
        matches!(notifications[0].eligibility, Eligibility::Expired)
    } else {
        false
    }
}

/// Choose the runner identity for a new connection: reuse the existing
/// runner found by (namespace, name, key) unless it has expired; otherwise
/// take the freshly minted id.
pub fn decide_runner_id(existing: Option<Id>, expired: bool, fresh: Id) -> (r: Id)
    ensures
        r == spec_decide_runner_id(existing, expired, fresh),
{
    match existing {
        Some(rid) => {
            if expired {
                fresh
            } else {
                rid
            }
        },
        None => fresh,
    }
}

pub open spec fn spec_decide_runner_id(existing: Option<Id>, expired: bool, fresh: Id) -> Id {
    match existing {
        Some(rid) => if expired {
            fresh
        } else {
            rid
        },
        None => fresh,
    }
}

/// Convergence of repeated handshakes: as long as the looked-up runner for a
/// (namespace, name, key) is the same and not expired, every handshake picks
/// the same runner id — whatever fresh ids they mint — so their unique
/// workflow dispatches land on one workflow.
pub proof fn lemma_handshake_converges(rid: Id, fresh1: Id, fresh2: Id)
    ensures
        spec_decide_runner_id(Some(rid), false, fresh1) == spec_decide_runner_id(
            Some(rid),
            false,
            fresh2,
        ),
        spec_decide_runner_id(Some(rid), false, fresh1) == rid,
{
}

// ---------------------------------------------------------------------------
// C4 termination / C6 eviction / C2 replacement
// ---------------------------------------------------------------------------

/// Tear down a terminated connection: remove it from the registry (idempotent),
/// and hand back the `ClearIdx` action for the allocation index together with
/// the close frame that encodes the terminating error.
pub fn finish_connection(reg: &mut Registry, runner_id: Id, err: &WsError) -> (r: (
    RunnerIdxUpdate,
    CloseFrame,
))
    requires
        old(reg).wf(),
    ensures
        final(reg).wf(),
        final(reg)@ == old(reg)@.remove(runner_id),
        r.0 == (RunnerIdxUpdate { runner_id, action: IdxAction::ClearIdx }),
        r.1.code == spec_close_code(*err),
        r.1.reason@ == spec_close_reason(*err),
{
    reg.remove(runner_id);
    let frame = err_to_close_frame(err);
    (RunnerIdxUpdate { runner_id, action: IdxAction::ClearIdx }, frame)
}

/// Cleaning up twice is the same as cleaning up once: registry removal is
/// idempotent, and the index action and close frame do not depend on the
/// registry at all.
pub proof fn lemma_cleanup_idempotent(m: Map<Id, crate::registry::Connection>, id: Id)
    ensures
        m.remove(id).remove(id) == m.remove(id),
{
    assert(m.remove(id).remove(id) =~= m.remove(id));
}

/// Replacing a connection twice under one runner id leaves exactly the last
/// connection registered: the registry never holds two connections for one
/// runner, and each displaced connection is handed back to be closed.
pub proof fn lemma_single_writer(
    m: Map<Id, crate::registry::Connection>,
    id: Id,
    c1: crate::registry::Connection,
    c2: crate::registry::Connection,
)
    ensures
        m.insert(id, c1)[id] == c1,
        m.insert(id, c1).insert(id, c2) == m.insert(id, c2),
        forall|k: Id| k != id && m.contains_key(k) ==> m.insert(id, c1)[k] == m[k],
{
    assert(m.insert(id, c1).insert(id, c2) =~= m.insert(id, c2));
}

/// The close frame the command fan-in sends on `CloseWs`: reason
/// `ws.eviction`, only when the runner is connected.
pub fn eviction_frame(reg: &Registry, runner_id: Id) -> (r: Option<CloseFrame>)
    ensures
        reg@.contains_key(runner_id) ==> (r matches Some(f) && f.code == spec_close_code(
            WsError::Eviction,
        ) && f.reason@ == spec_close_reason(WsError::Eviction)),
        !reg@.contains_key(runner_id) ==> r is None,
{
    match reg.lookup(runner_id) {
        Some(_) => Some(err_to_close_frame(&WsError::Eviction)),
        None => None,
    }
}

/// The frame the command fan-in writes for `ToWs { runner_id, inner }`:
/// the command re-encoded at the connection's own version, or nothing when
/// the runner is not connected (the command is dropped).
pub fn command_frame(reg: &Registry, runner_id: Id, inner: &ToClient) -> (r: Result<
    Option<Vec<u8>>,
    CodecError,
>)
    ensures
        !reg@.contains_key(runner_id) ==> (r matches Ok(o) && o is None),
        reg@.contains_key(runner_id) && reg@[runner_id].protocol_version == PROTOCOL_VERSION
            ==> (r matches Ok(o) && o matches Some(buf) && buf@ == enc_to_client(inner@)),
        reg@.contains_key(runner_id) && reg@[runner_id].protocol_version != PROTOCOL_VERSION
            ==> r is Err,
{
    match reg.lookup(runner_id) {
        None => Ok(None),
        Some(conn) => match serialize_to_client(inner, conn.protocol_version) {
            Ok(buf) => Ok(Some(buf)),
            Err(e) => Err(e),
        },
    }
}

// ---------------------------------------------------------------------------
// C7: ping aggregation
// ---------------------------------------------------------------------------

/// The index updates one aggregation sweep sends: one `UpdatePing` with the
/// connection's last observed round-trip time for every snapshot entry whose
/// workflow is still live, in snapshot order; dead workflows are skipped.
pub open spec fn spec_ping_updates(snap: Seq<(Id, Id, u32)>, alive: Seq<bool>) -> Seq<
    RunnerIdxUpdate,
>
    decreases snap.len(),
{
    if snap.len() == 0 {
        Seq::empty()
    } else {
        let rest = spec_ping_updates(snap.drop_last(), alive.drop_last());
        if alive[snap.len() - 1] {
            rest.push(
                RunnerIdxUpdate {
                    runner_id: snap.last().0,
                    action: IdxAction::UpdatePing { rtt: snap.last().2 },
                },
            )
        } else {
            rest
        }
    }
}

/// Build the allocation-index update for one aggregation sweep. `alive[i]`
/// says whether the workflow of `snap[i]` still has a wake condition; every
/// live runner's latest round-trip time is included, so a round-trip time
/// stored before a sweep's snapshot reaches the index with that sweep.
pub fn ping_updates(snap: &Vec<(Id, Id, u32)>, alive: &Vec<bool>) -> (r: Vec<RunnerIdxUpdate>)
    requires
        snap@.len() == alive@.len(),
    ensures
        r@ == spec_ping_updates(snap@, alive@),
{
    let mut r: Vec<RunnerIdxUpdate> = Vec::new();
    let mut i: usize = 0;
    while i < snap.len()
        invariant
            i <= snap@.len(),
            snap@.len() == alive@.len(),
            r@ == spec_ping_updates(snap@.take(i as int), alive@.take(i as int)),
        decreases snap@.len() - i,
    {
        if alive[i] {
            r.push(
                RunnerIdxUpdate {
                    runner_id: snap[i].0,
                    action: IdxAction::UpdatePing { rtt: snap[i].2 },
                },
            );
        }
        proof {
            assert(snap@.take(i + 1 as int).drop_last() =~= snap@.take(i as int));
            assert(alive@.take(i + 1 as int).drop_last() =~= alive@.take(i as int));
            assert(snap@.take(i + 1 as int).last() == snap@[i as int]);
        }
        i += 1;
    }
    proof {
        assert(snap@.take(snap@.len() as int) =~= snap@);
        assert(alive@.take(alive@.len() as int) =~= alive@);
    }
    r
}

/// The logic half of ping liveness: a round-trip time stored on a
/// connection before a sweep's snapshot is part of that sweep's
/// allocation-index update whenever the runner's workflow is live. With a
/// sweep every `UPDATE_PING_INTERVAL_MS`, a stored time therefore reaches
/// the index within two intervals while sweeps run on schedule; the
/// schedule itself is the timer's business, not this function's.
pub proof fn lemma_sweep_covers_live_runners(snap: Seq<(Id, Id, u32)>, alive: Seq<bool>, i: int)
    requires
        alive.len() == snap.len(),
        0 <= i < snap.len(),
        alive[i],
    ensures
        spec_ping_updates(snap, alive).contains(
            RunnerIdxUpdate {
                runner_id: snap[i].0,
                action: IdxAction::UpdatePing { rtt: snap[i].2 },
            },
        ),
    decreases snap.len(),
{
    let u = RunnerIdxUpdate {
        runner_id: snap[i].0,
        action: IdxAction::UpdatePing { rtt: snap[i].2 },
    };
    let rest = spec_ping_updates(snap.drop_last(), alive.drop_last());
    if i == snap.len() - 1 {
        let full = rest.push(u);
        assert(full[full.len() - 1] == u);
        assert(full.contains(u));
    } else {
        assert(snap.drop_last()[i] == snap[i]);
        assert(alive.drop_last()[i] == alive[i]);
        lemma_sweep_covers_live_runners(snap.drop_last(), alive.drop_last(), i);
        let w = choose|w: int| 0 <= w < rest.len() && rest[w] == u;
        if alive[snap.len() - 1] {
            let full = rest.push(
                RunnerIdxUpdate {
                    runner_id: snap.last().0,
                    action: IdxAction::UpdatePing { rtt: snap.last().2 },
                },
            );
            assert(full[w] == u);
            assert(full.contains(u));
        }
    }
}

/// The workflows owed a `CheckQueue` signal after one sweep: exactly one
/// entry per `ReEligible` notification, in notification order.
pub open spec fn spec_reeligible_workflows(n: Seq<EligibilityNotification>) -> Seq<Id>
    decreases n.len(),
{
    if n.len() == 0 {
        Seq::empty()
    } else {
        let rest = spec_reeligible_workflows(n.drop_last());
        if n.last().eligibility is ReEligible {
            rest.push(n.last().workflow_id)
        } else {
            rest
        }
    }
}

/// From one update call's notifications, the workflows to send `CheckQueue`
/// to: one signal per `ReEligible` notification, no more and no fewer.
pub fn reeligible_workflows(notifications: &Vec<EligibilityNotification>) -> (r: Vec<Id>)
    ensures
        r@ == spec_reeligible_workflows(notifications@),
{
    let mut r: Vec<Id> = Vec::new();
    let mut i: usize = 0;
    while i < notifications.len()
        invariant
            i <= notifications@.len(),
            r@ == spec_reeligible_workflows(notifications@.take(i as int)),
        decreases notifications@.len() - i,
    {
        if matches!(notifications[i].eligibility, Eligibility::ReEligible) {
            r.push(notifications[i].workflow_id);
        }
        proof {
            assert(notifications@.take(i + 1 as int).drop_last() =~= notifications@.take(
                i as int,
            ));
            assert(notifications@.take(i + 1 as int).last() == notifications@[i as int]);
        }
        i += 1;
    }
    proof {
        assert(notifications@.take(notifications@.len() as int) =~= notifications@);
    }
    r
}

} // verus!
