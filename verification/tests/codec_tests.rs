use pegboard_runner_ws::codec::{
    deserialize_to_client, deserialize_to_server, serialize_to_client, serialize_to_server,
    CodecError, PROTOCOL_VERSION,
};
use pegboard_runner_ws::protocol::{KvRequestData, KvResponseData, ToClient, ToServer};

#[test]
fn round_trip_init() {
    let m = ToServer::Init {
        name: b"n".to_vec(),
        version: b"1.4.0".to_vec(),
        total_slots: 4,
    };
    let buf = serialize_to_server(&m, PROTOCOL_VERSION).unwrap();
    assert_eq!(deserialize_to_server(&buf, PROTOCOL_VERSION), Ok(m));
}

#[test]
fn round_trip_ping_negative_ts() {
    let m = ToServer::Ping { ts: -12345 };
    let buf = serialize_to_server(&m, PROTOCOL_VERSION).unwrap();
    assert_eq!(deserialize_to_server(&buf, PROTOCOL_VERSION), Ok(m));
}

#[test]
fn ping_wire_bytes_are_little_endian() {
    let m = ToServer::Ping { ts: 2 };
    let buf = serialize_to_server(&m, PROTOCOL_VERSION).unwrap();
    let expected = vec![2, 0, 0, 0, 0, 0, 0, 0, 2, 0, 0, 0, 0, 0, 0, 0];
    assert_eq!(buf, expected);
}

#[test]
fn round_trip_kv_requests() {
    let cases = vec![
        KvRequestData::Get { keys: vec![b"a".to_vec(), b"bb".to_vec()] },
        KvRequestData::List { query: b"pre".to_vec(), reverse: true, limit: Some(10) },
        KvRequestData::List { query: vec![], reverse: false, limit: None },
        KvRequestData::Put {
            keys: vec![b"k".to_vec()],
            values: vec![b"v".to_vec()],
        },
        KvRequestData::Delete { keys: vec![] },
        KvRequestData::Drop,
    ];
    for (i, data) in cases.into_iter().enumerate() {
        let m = ToServer::KvRequest {
            request_id: i as u32,
            actor_id: b"0123456789abcdef0123456789abcdef".to_vec(),
            data,
        };
        let buf = serialize_to_server(&m, PROTOCOL_VERSION).unwrap();
        assert_eq!(deserialize_to_server(&buf, PROTOCOL_VERSION), Ok(m));
    }
}

#[test]
fn round_trip_event() {
    let m = ToServer::Event { payload: vec![0, 1, 2, 255] };
    let buf = serialize_to_server(&m, PROTOCOL_VERSION).unwrap();
    assert_eq!(deserialize_to_server(&buf, PROTOCOL_VERSION), Ok(m));
}

#[test]
fn round_trip_to_client() {
    let cases = vec![
        ToClient::KvResponse {
            request_id: 1,
            data: KvResponseData::Get {
                keys: vec![b"k1".to_vec()],
                values: vec![b"v1".to_vec()],
                metadata: vec![b"m1".to_vec()],
            },
        },
        ToClient::KvResponse {
            request_id: 2,
            data: KvResponseData::List {
                keys: vec![],
                values: vec![],
                metadata: vec![],
            },
        },
        ToClient::KvResponse { request_id: 3, data: KvResponseData::Put },
        ToClient::KvResponse { request_id: 4, data: KvResponseData::Delete },
        ToClient::KvResponse { request_id: 5, data: KvResponseData::Drop },
        ToClient::KvResponse {
            request_id: 6,
            data: KvResponseData::Error { message: b"boom".to_vec() },
        },
        ToClient::Command { payload: b"cmd".to_vec() },
    ];
    for m in cases {
        let buf = serialize_to_client(&m, PROTOCOL_VERSION).unwrap();
        assert_eq!(deserialize_to_client(&buf, PROTOCOL_VERSION), Ok(m));
    }
}

#[test]
fn unsupported_version_is_rejected() {
    let m = ToServer::Ping { ts: 0 };
    assert_eq!(serialize_to_server(&m, 2), Err(CodecError::UnsupportedVersion));
    let buf = serialize_to_server(&m, PROTOCOL_VERSION).unwrap();
    assert_eq!(deserialize_to_server(&buf, 0), Err(CodecError::UnsupportedVersion));
}

#[test]
fn malformed_buffers_are_rejected() {
    assert_eq!(
        deserialize_to_server(&vec![], PROTOCOL_VERSION),
        Err(CodecError::Malformed)
    );
    assert_eq!(
        deserialize_to_server(&vec![9, 0, 0, 0, 0, 0, 0, 0], PROTOCOL_VERSION),
        Err(CodecError::Malformed)
    );
    // a valid frame with trailing bytes is not a frame
    let m = ToServer::Ping { ts: 7 };
    let mut buf = serialize_to_server(&m, PROTOCOL_VERSION).unwrap();
    buf.push(0);
    assert_eq!(deserialize_to_server(&buf, PROTOCOL_VERSION), Err(CodecError::Malformed));
}

#[test]
fn round_trip_extremes() {
    let m = ToServer::Init {
        name: vec![],
        version: vec![],
        total_slots: u32::MAX,
    };
    let buf = serialize_to_server(&m, PROTOCOL_VERSION).unwrap();
    assert_eq!(deserialize_to_server(&buf, PROTOCOL_VERSION), Ok(m));

    let m = ToServer::Ping { ts: i64::MIN };
    let buf = serialize_to_server(&m, PROTOCOL_VERSION).unwrap();
    assert_eq!(deserialize_to_server(&buf, PROTOCOL_VERSION), Ok(m));

    let m = ToClient::Command { payload: vec![] };
    let buf = serialize_to_client(&m, PROTOCOL_VERSION).unwrap();
    assert_eq!(deserialize_to_client(&buf, PROTOCOL_VERSION), Ok(m));
}
