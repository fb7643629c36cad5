use pegboard_runner_ws::codec::{serialize_to_server, PROTOCOL_VERSION};
use pegboard_runner_ws::error::{
    err_to_close_frame, WsError, CLOSE_CODE_ERROR, CLOSE_CODE_NORMAL,
};
use pegboard_runner_ws::gateway::{
    classify_frame, classify_init_frame, command_frame, decide_runner_id, eviction_frame,
    finish_connection, kv_authorized, kv_ownership_error, parse_init_packet, ping_updates,
    reeligible_workflows, runner_expired, Eligibility, EligibilityNotification, FrameDecision,
    IdxAction, RunnerIdxUpdate, WsFrame,
};
use pegboard_runner_ws::ids::{mint_id, parse_id};
use pegboard_runner_ws::protocol::{KvResponseData, ToClient, ToServer};
use pegboard_runner_ws::registry::{Connection, Registry};
use pegboard_runner_ws::rtt_from_ping;

fn init_frame_bytes() -> Vec<u8> {
    let m = ToServer::Init {
        name: b"n".to_vec(),
        version: b"7".to_vec(),
        total_slots: 4,
    };
    serialize_to_server(&m, PROTOCOL_VERSION).unwrap()
}

#[test]
fn happy_handshake_and_ping() {
    // client connects; first frame is a binary Init within the window
    let payload = classify_init_frame(WsFrame::Binary { payload: init_frame_bytes() }).unwrap();
    let init = parse_init_packet(&payload, 1).unwrap();
    assert_eq!(
        init,
        ToServer::Init { name: b"n".to_vec(), version: b"7".to_vec(), total_slots: 4 }
    );

    // no runner yet under (namespace, name, key): a fresh id is chosen
    let fresh = mint_id(1, 42);
    let runner_id = decide_runner_id(None, false, fresh);
    assert_eq!(runner_id, fresh);

    // the connection is registered
    let mut reg = Registry::new();
    let wf = mint_id(1, 77);
    let conn = Connection { workflow_id: wf, protocol_version: 1, last_rtt: 0 };
    assert_eq!(reg.install(runner_id, conn), None);

    // a runner ping at ts=1000 observed at now=1500 stores rtt 500
    let ping = serialize_to_server(&ToServer::Ping { ts: 1000 }, 1).unwrap();
    let decision = classify_frame(WsFrame::Binary { payload: ping }, 1, 1500);
    assert_eq!(decision, FrameDecision::StoreRtt { rtt: 500 });
    assert!(reg.update_rtt(runner_id, 500));

    // the next aggregation sweep sends UpdatePing{rtt:500} for that runner
    let snap = reg.snapshot();
    assert_eq!(snap, vec![(runner_id, wf, 500)]);
    let updates = ping_updates(&snap, &vec![true]);
    assert_eq!(
        updates,
        vec![RunnerIdxUpdate { runner_id, action: IdxAction::UpdatePing { rtt: 500 } }]
    );
}

#[test]
fn init_timeout_close_frame() {
    // nothing arrives within the handshake window: the connection is closed
    // with ws.timed_out_waiting_for_init and nothing was registered
    let f = err_to_close_frame(&WsError::TimedOutWaitingForInit);
    assert_eq!(f.code, CLOSE_CODE_ERROR);
    assert_eq!(f.reason, "ws.timed_out_waiting_for_init");
}

#[test]
fn init_frame_must_be_binary_init() {
    match classify_init_frame(WsFrame::Other) {
        Err(WsError::InvalidInitialPacket { detail }) => {
            assert_eq!(detail, "must be a binary blob")
        }
        other => panic!("unexpected: {:?}", other),
    }
    assert_eq!(
        classify_init_frame(WsFrame::Close),
        Err(WsError::ConnectionClosed)
    );
    let ping = serialize_to_server(&ToServer::Ping { ts: 0 }, 1).unwrap();
    match parse_init_packet(&ping, 1) {
        Err(WsError::InvalidInitialPacket { detail }) => {
            assert_eq!(detail, "must be `ToServer::Init`")
        }
        other => panic!("unexpected: {:?}", other),
    }
}

#[test]
fn duplicate_runner_displaces_old_connection() {
    let mut reg = Registry::new();
    let r = mint_id(0, 9);
    let c1 = Connection { workflow_id: mint_id(0, 1), protocol_version: 1, last_rtt: 0 };
    let c2 = Connection { workflow_id: mint_id(0, 1), protocol_version: 1, last_rtt: 3 };
    assert_eq!(reg.install(r, c1), None);
    // the second handshake returns the first connection, to be closed with
    // ws.new_runner_connected; the registry ends with the second only
    assert_eq!(reg.install(r, c2), Some(c1));
    assert_eq!(reg.lookup(r), Some(c2));
    let f = err_to_close_frame(&WsError::NewRunnerConnected);
    assert_eq!(f.code, CLOSE_CODE_ERROR);
    assert_eq!(f.reason, "ws.new_runner_connected");
}

#[test]
fn existing_runner_reused_unless_expired() {
    let existing = mint_id(2, 5);
    let fresh = mint_id(2, 6);
    assert_eq!(decide_runner_id(Some(existing), false, fresh), existing);
    assert_eq!(decide_runner_id(Some(existing), true, fresh), fresh);
    // convergence: a second handshake with another fresh id picks the same id
    let fresh2 = mint_id(2, 7);
    assert_eq!(
        decide_runner_id(Some(existing), false, fresh),
        decide_runner_id(Some(existing), false, fresh2)
    );

    let expired = vec![EligibilityNotification {
        runner_id: existing,
        workflow_id: mint_id(2, 8),
        eligibility: Eligibility::Expired,
    }];
    assert!(runner_expired(&expired));
    assert!(!runner_expired(&vec![]));
}

#[test]
fn kv_ownership_check() {
    let r1 = mint_id(0, 1);
    let r2 = mint_id(0, 2);
    // get_runner resolved the actor to R2, but the request came over R1's
    // connection: rejected with the ownership message, same request id
    assert!(!kv_authorized(&vec![r2], r1));
    assert!(kv_authorized(&vec![r1], r1));
    assert!(!kv_authorized(&vec![], r1));
    let reply = kv_ownership_error(7);
    assert_eq!(
        reply,
        ToClient::KvResponse {
            request_id: 7,
            data: KvResponseData::Error {
                message: b"given actor does not belong to runner".to_vec()
            },
        }
    );
}

#[test]
fn eviction_closes_and_clears_index() {
    let mut reg = Registry::new();
    let r = mint_id(0, 3);
    let conn = Connection { workflow_id: mint_id(0, 4), protocol_version: 1, last_rtt: 1 };
    reg.install(r, conn);

    // CloseWs{runner_id} arrives: a ws.eviction close frame is sent
    let f = eviction_frame(&reg, r).unwrap();
    assert_eq!(f.code, CLOSE_CODE_ERROR);
    assert_eq!(f.reason, "ws.eviction");

    // the read loop then terminates and cleans up: registry entry gone,
    // ClearIdx issued for the runner
    let (idx, close) = finish_connection(&mut reg, r, &WsError::Eviction);
    assert_eq!(idx, RunnerIdxUpdate { runner_id: r, action: IdxAction::ClearIdx });
    assert_eq!(close.reason, "ws.eviction");
    assert_eq!(reg.lookup(r), None);

    // removal is idempotent: a second cleanup changes nothing
    let (idx2, _) = finish_connection(&mut reg, r, &WsError::Eviction);
    assert_eq!(idx2.action, IdxAction::ClearIdx);
    assert_eq!(reg.lookup(r), None);

    // an eviction for a runner that is not connected is dropped
    assert!(eviction_frame(&reg, r).is_none());
}

#[test]
fn reeligibility_fan_out_exactly_once() {
    let w1 = mint_id(0, 11);
    let w2 = mint_id(0, 12);
    let notifs = vec![
        EligibilityNotification {
            runner_id: mint_id(0, 1),
            workflow_id: mint_id(0, 10),
            eligibility: Eligibility::Eligible,
        },
        EligibilityNotification {
            runner_id: mint_id(0, 2),
            workflow_id: w1,
            eligibility: Eligibility::ReEligible,
        },
        EligibilityNotification {
            runner_id: mint_id(0, 3),
            workflow_id: w2,
            eligibility: Eligibility::ReEligible,
        },
        EligibilityNotification {
            runner_id: mint_id(0, 4),
            workflow_id: mint_id(0, 13),
            eligibility: Eligibility::Expired,
        },
    ];
    assert_eq!(reeligible_workflows(&notifs), vec![w1, w2]);
}

#[test]
fn read_loop_frame_dispatch() {
    // transport pings and unknown frames are skipped
    assert_eq!(classify_frame(WsFrame::Ping, 1, 0), FrameDecision::Ignore);
    assert_eq!(classify_frame(WsFrame::Other, 1, 0), FrameDecision::Ignore);
    // a peer close terminates normally
    assert_eq!(
        classify_frame(WsFrame::Close, 1, 0),
        FrameDecision::Terminate { error: WsError::ConnectionClosed }
    );
    // garbage terminates with invalid_packet
    match classify_frame(WsFrame::Binary { payload: vec![1, 2, 3] }, 1, 0) {
        FrameDecision::Terminate { error: WsError::InvalidPacket { detail } } => {
            assert_eq!(detail, "malformed packet")
        }
        other => panic!("unexpected: {:?}", other),
    }
    // other runner messages are forwarded to the workflow as signals
    let ev = serialize_to_server(&ToServer::Event { payload: b"e".to_vec() }, 1).unwrap();
    assert_eq!(
        classify_frame(WsFrame::Binary { payload: ev }, 1, 0),
        FrameDecision::Forward { msg: ToServer::Event { payload: b"e".to_vec() } }
    );
}

#[test]
fn command_fan_in_encodes_at_connection_version() {
    let mut reg = Registry::new();
    let r = mint_id(0, 5);
    let cmd = ToClient::Command { payload: b"do".to_vec() };
    // a command for a runner that is not connected is dropped
    assert_eq!(command_frame(&reg, r, &cmd), Ok(None));
    let conn = Connection { workflow_id: mint_id(0, 6), protocol_version: 1, last_rtt: 0 };
    reg.install(r, conn);
    let buf = command_frame(&reg, r, &cmd).unwrap().unwrap();
    assert_eq!(
        buf,
        pegboard_runner_ws::codec::serialize_to_client(&cmd, 1).unwrap()
    );
}

#[test]
fn rtt_saturates() {
    assert_eq!(rtt_from_ping(1500, 1000), 500);
    assert_eq!(rtt_from_ping(1000, 1500), 0);
    assert_eq!(rtt_from_ping(i64::MAX, -1), u32::MAX);
    assert_eq!(rtt_from_ping(i64::MIN, i64::MAX), 0);
}

#[test]
fn ping_updates_skip_dead_workflows() {
    let a = mint_id(0, 1);
    let b = mint_id(0, 2);
    let snap = vec![(a, mint_id(0, 3), 10), (b, mint_id(0, 4), 20)];
    let ups = ping_updates(&snap, &vec![false, true]);
    assert_eq!(
        ups,
        vec![RunnerIdxUpdate { runner_id: b, action: IdxAction::UpdatePing { rtt: 20 } }]
    );
}

#[test]
fn close_frames_by_error() {
    assert_eq!(err_to_close_frame(&WsError::ConnectionClosed).code, CLOSE_CODE_NORMAL);
    assert_eq!(err_to_close_frame(&WsError::ConnectionClosed).reason, "ws.connection_closed");
    let inv = WsError::InvalidUrl { detail: "missing `namespace` query parameter".to_string() };
    let f = err_to_close_frame(&inv);
    assert_eq!(f.code, CLOSE_CODE_ERROR);
    assert_eq!(f.reason, "ws.invalid_url");
    assert!(f.reason.len() <= 123);
}

#[test]
fn id_text_round_trip() {
    let id = parse_id(&b"0123456789abcdef0123456789abcdef".to_vec()).unwrap();
    assert_eq!(id, 0x0123456789abcdef0123456789abcdefu128);
    assert!(parse_id(&b"0123456789abcdef0123456789abcde".to_vec()).is_none());
    assert!(parse_id(&b"0123456789ABCDEF0123456789abcdef".to_vec()).is_none());
    assert!(parse_id(&vec![]).is_none());
    // the datacenter label sits in the top 16 bits of a minted id
    assert_eq!(mint_id(3, 0) >> 112, 3);
    assert_eq!(mint_id(0xffff, u128::MAX) >> 112, 0xffff);
}

#[test]
fn empty_registry_sweep_is_empty() {
    let reg = Registry::new();
    assert_eq!(reg.lookup(mint_id(0, 1)), None);
    let snap = reg.snapshot();
    assert!(snap.is_empty());
    assert!(ping_updates(&snap, &vec![]).is_empty());
    assert!(reeligible_workflows(&vec![]).is_empty());
}
