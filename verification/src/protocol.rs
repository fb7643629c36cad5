//! Typed messages exchanged between a runner (client) and the gateway
//! (server), together with their mathematical views.
//!
//! Payload strings travel on the wire as UTF-8 bytes, so every text-valued
//! field is held here as a byte vector; the view of a message is the same
//! structure over `Seq<u8>`.

use vstd::prelude::*;

verus! {

// ---------------------------------------------------------------------------
// Mathematical views
// ---------------------------------------------------------------------------

/// View of the body of a key/value RPC request.
pub enum KvRequestDataView {
    Get { keys: Seq<Seq<u8>> },
    List { query: Seq<u8>, reverse: bool, limit: Option<u64> },
    Put { keys: Seq<Seq<u8>>, values: Seq<Seq<u8>> },
    Delete { keys: Seq<Seq<u8>> },
    Drop,
}

/// View of the body of a key/value RPC response.
pub enum KvResponseDataView {
    Get { keys: Seq<Seq<u8>>, values: Seq<Seq<u8>>, metadata: Seq<Seq<u8>> },
    List { keys: Seq<Seq<u8>>, values: Seq<Seq<u8>>, metadata: Seq<Seq<u8>> },
    Put,
    Delete,
    Drop,
    Error { message: Seq<u8> },
}

/// View of a message sent by a runner to the gateway.
pub enum ToServerView {
    Init { name: Seq<u8>, version: Seq<u8>, total_slots: u32 },
    Ping { ts: i64 },
    KvRequest { request_id: u32, actor_id: Seq<u8>, data: KvRequestDataView },
    Event { payload: Seq<u8> },
}

/// View of a message sent by the gateway to a runner.
pub enum ToClientView {
    KvResponse { request_id: u32, data: KvResponseDataView },
    Command { payload: Seq<u8> },
}

// ---------------------------------------------------------------------------
// Well-formedness: every length must fit the 64-bit framing fields.
// ---------------------------------------------------------------------------

pub open spec fn bytes_wf(b: Seq<u8>) -> bool {
    b.len() <= u64::MAX
}

pub open spec fn list_wf(l: Seq<Seq<u8>>) -> bool {
    &&& l.len() <= u64::MAX
    &&& forall|i: int| 0 <= i < l.len() ==> #[trigger] l[i].len() <= u64::MAX
}

pub open spec fn kv_request_data_wf(d: KvRequestDataView) -> bool {
    match d {
        KvRequestDataView::Get { keys } => list_wf(keys),
        KvRequestDataView::List { query, .. } => bytes_wf(query),
        KvRequestDataView::Put { keys, values } => list_wf(keys) && list_wf(values),
        KvRequestDataView::Delete { keys } => list_wf(keys),
        KvRequestDataView::Drop => true,
    }
}

pub open spec fn kv_response_data_wf(d: KvResponseDataView) -> bool {
    match d {
        KvResponseDataView::Get { keys, values, metadata } => {
            list_wf(keys) && list_wf(values) && list_wf(metadata)
        },
        KvResponseDataView::List { keys, values, metadata } => {
            list_wf(keys) && list_wf(values) && list_wf(metadata)
        },
        KvResponseDataView::Put => true,
        KvResponseDataView::Delete => true,
        KvResponseDataView::Drop => true,
        KvResponseDataView::Error { message } => bytes_wf(message),
    }
}

pub open spec fn to_server_wf(m: ToServerView) -> bool {
    match m {
        ToServerView::Init { name, version, .. } => bytes_wf(name) && bytes_wf(version),
        ToServerView::Ping { .. } => true,
        ToServerView::KvRequest { actor_id, data, .. } => {
            bytes_wf(actor_id) && kv_request_data_wf(data)
        },
        ToServerView::Event { payload } => bytes_wf(payload),
    }
}

pub open spec fn to_client_wf(m: ToClientView) -> bool {
    match m {
        ToClientView::KvResponse { data, .. } => kv_response_data_wf(data),
        ToClientView::Command { payload } => bytes_wf(payload),
    }
}

// ---------------------------------------------------------------------------
// Executable messages
// ---------------------------------------------------------------------------

/// Body of a key/value RPC request.
#[derive(Clone, Debug, PartialEq, Eq)]
pub enum KvRequestData {
    Get { keys: Vec<Vec<u8>> },
    List { query: Vec<u8>, reverse: bool, limit: Option<u64> },
    Put { keys: Vec<Vec<u8>>, values: Vec<Vec<u8>> },
    Delete { keys: Vec<Vec<u8>> },
    Drop,
}

/// Body of a key/value RPC response.
#[derive(Clone, Debug, PartialEq, Eq)]
pub enum KvResponseData {
    Get { keys: Vec<Vec<u8>>, values: Vec<Vec<u8>>, metadata: Vec<Vec<u8>> },
    List { keys: Vec<Vec<u8>>, values: Vec<Vec<u8>>, metadata: Vec<Vec<u8>> },
    Put,
    Delete,
    Drop,
    Error { message: Vec<u8> },
}

/// A message sent by a runner to the gateway.
#[derive(Clone, Debug, PartialEq, Eq)]
pub enum ToServer {
    /// The handshake packet: runner name, runner build version, slot count.
    Init { name: Vec<u8>, version: Vec<u8>, total_slots: u32 },
    /// Liveness probe carrying the peer's clock in milliseconds.
    Ping { ts: i64 },
    /// Synchronous key/value RPC against per-actor storage.
    KvRequest { request_id: u32, actor_id: Vec<u8>, data: KvRequestData },
    /// Any other runner-reported state change, forwarded as a workflow signal.
    Event { payload: Vec<u8> },
}

/// A message sent by the gateway to a runner.
#[derive(Clone, Debug, PartialEq, Eq)]
pub enum ToClient {
    KvResponse { request_id: u32, data: KvResponseData },
    /// A workflow-driven command delivered through the command fan-in.
    Command { payload: Vec<u8> },
}

impl View for KvRequestData {
    type V = KvRequestDataView;

    open spec fn view(&self) -> KvRequestDataView {
        match self {
            KvRequestData::Get { keys } => KvRequestDataView::Get { keys: keys.deep_view() },
            KvRequestData::List { query, reverse, limit } => KvRequestDataView::List {
                query: query.view(),
                reverse: *reverse,
                limit: *limit,
            },
            KvRequestData::Put { keys, values } => KvRequestDataView::Put {
                keys: keys.deep_view(),
                values: values.deep_view(),
            },
            KvRequestData::Delete { keys } => KvRequestDataView::Delete { keys: keys.deep_view() },
            KvRequestData::Drop => KvRequestDataView::Drop,
        }
    }
}

impl View for KvResponseData {
    type V = KvResponseDataView;

    open spec fn view(&self) -> KvResponseDataView {
        match self {
            KvResponseData::Get { keys, values, metadata } => KvResponseDataView::Get {
                keys: keys.deep_view(),
                values: values.deep_view(),
                metadata: metadata.deep_view(),
            },
            KvResponseData::List { keys, values, metadata } => KvResponseDataView::List {
                keys: keys.deep_view(),
                values: values.deep_view(),
                metadata: metadata.deep_view(),
            },
            KvResponseData::Put => KvResponseDataView::Put,
            KvResponseData::Delete => KvResponseDataView::Delete,
            KvResponseData::Drop => KvResponseDataView::Drop,
            KvResponseData::Error { message } => KvResponseDataView::Error {
                message: message.view(),
            },
        }
    }
}

impl View for ToServer {
    type V = ToServerView;

    open spec fn view(&self) -> ToServerView {
        match self {
            ToServer::Init { name, version, total_slots } => ToServerView::Init {
                name: name.view(),
                version: version.view(),
                total_slots: *total_slots,
            },
            ToServer::Ping { ts } => ToServerView::Ping { ts: *ts },
            ToServer::KvRequest { request_id, actor_id, data } => ToServerView::KvRequest {
                request_id: *request_id,
                actor_id: actor_id.view(),
                data: data.view(),
            },
            ToServer::Event { payload } => ToServerView::Event { payload: payload.view() },
        }
    }
}

impl View for ToClient {
    type V = ToClientView;

    open spec fn view(&self) -> ToClientView {
        match self {
            ToClient::KvResponse { request_id, data } => ToClientView::KvResponse {
                request_id: *request_id,
                data: data.view(),
            },
            ToClient::Command { payload } => ToClientView::Command { payload: payload.view() },
        }
    }
}

} // verus!
