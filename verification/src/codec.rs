//! Versioned frame codec: serialize and deserialize `ToServer` and
//! `ToClient` messages at a connection's negotiated protocol version.
//!
//! The wire form of a message is a tag followed by its fields, built from
//! the primitives in `wire`. The codec is pure: a specification-level
//! encoder and decoder define the format, the executable functions are
//! proved against them, and decoding inverts encoding.

use vstd::prelude::*;

use crate::protocol::{
    KvRequestData, KvRequestDataView, KvResponseData, KvResponseDataView, ToClient, ToClientView,
    ToServer, ToServerView,
};
use crate::protocol::{bytes_wf, kv_request_data_wf, kv_response_data_wf, list_wf, to_client_wf,
    to_server_wf};
use crate::wire::{dec_bytes, dec_list, dec_u64, enc_bytes, enc_list, enc_u64};
use crate::wire::{lemma_dec_bytes, lemma_dec_list, lemma_dec_u64};
use crate::wire::{push_bytes, push_list, push_u64, read_bytes, read_list, read_u64};

verus! {

broadcast use crate::wire::lemma_enc_u64_len;

/// The only wire version this gateway build understands.
pub const PROTOCOL_VERSION: u16 = 1;

/// Structured failure of the codec.
#[derive(Clone, Copy, Debug, PartialEq, Eq, Structural)]
pub enum CodecError {
    /// The requested version is not supported by this build.
    UnsupportedVersion,
    /// The buffer is not a well-formed message at the given version.
    Malformed,
}

// ---------------------------------------------------------------------------
// Specification-level encoders
// ---------------------------------------------------------------------------

pub open spec fn enc_option_u64(o: Option<u64>) -> Seq<u8> {
    match o {
        None => enc_u64(0),
        Some(v) => enc_u64(1) + enc_u64(v),
    }
}

pub open spec fn enc_kv_request_data(d: KvRequestDataView) -> Seq<u8> {
    match d {
        KvRequestDataView::Get { keys } => enc_u64(1) + enc_list(keys),
        KvRequestDataView::List { query, reverse, limit } => enc_u64(2) + enc_bytes(query)
            + enc_u64(if reverse { 1u64 } else { 0u64 }) + enc_option_u64(limit),
        KvRequestDataView::Put { keys, values } => enc_u64(3) + enc_list(keys) + enc_list(values),
        KvRequestDataView::Delete { keys } => enc_u64(4) + enc_list(keys),
        KvRequestDataView::Drop => enc_u64(5),
    }
}

pub open spec fn enc_kv_response_data(d: KvResponseDataView) -> Seq<u8> {
    match d {
        KvResponseDataView::Get { keys, values, metadata } => enc_u64(1) + enc_list(keys)
            + enc_list(values) + enc_list(metadata),
        KvResponseDataView::List { keys, values, metadata } => enc_u64(2) + enc_list(keys)
            + enc_list(values) + enc_list(metadata),
        KvResponseDataView::Put => enc_u64(3),
        KvResponseDataView::Delete => enc_u64(4),
        KvResponseDataView::Drop => enc_u64(5),
        KvResponseDataView::Error { message } => enc_u64(6) + enc_bytes(message),
    }
}

pub open spec fn enc_to_server(m: ToServerView) -> Seq<u8> {
    match m {
        ToServerView::Init { name, version, total_slots } => enc_u64(1) + enc_bytes(name)
            + enc_bytes(version) + enc_u64(total_slots as u64),
        ToServerView::Ping { ts } => enc_u64(2) + enc_u64(ts as u64),
        ToServerView::KvRequest { request_id, actor_id, data } => enc_u64(3) + enc_u64(
            request_id as u64,
        ) + enc_bytes(actor_id) + enc_kv_request_data(data),
        ToServerView::Event { payload } => enc_u64(4) + enc_bytes(payload),
    }
}

pub open spec fn enc_to_client(m: ToClientView) -> Seq<u8> {
    match m {
        ToClientView::KvResponse { request_id, data } => enc_u64(1) + enc_u64(request_id as u64)
            + enc_kv_response_data(data),
        ToClientView::Command { payload } => enc_u64(2) + enc_bytes(payload),
    }
}

// ---------------------------------------------------------------------------
// Specification-level decoders
// ---------------------------------------------------------------------------

pub open spec fn dec_option_u64(buf: Seq<u8>, pos: int) -> Option<(Option<u64>, int)> {
    match dec_u64(buf, pos) {
        Some((flag, p1)) => if flag == 0 {
            Some((None, p1))
        } else if flag == 1 {
            match dec_u64(buf, p1) {
                Some((v, p2)) => Some((Some(v), p2)),
                None => None,
            }
        } else {
            None
        },
        None => None,
    }
}

pub open spec fn dec_kv_request_data(buf: Seq<u8>, pos: int) -> Option<(KvRequestDataView, int)> {
    match dec_u64(buf, pos) {
        Some((tag, p1)) => if tag == 1 {
            match dec_list(buf, p1) {
                Some((keys, p2)) => Some((KvRequestDataView::Get { keys }, p2)),
                None => None,
            }
        } else if tag == 2 {
            match dec_bytes(buf, p1) {
                Some((query, p2)) => match dec_u64(buf, p2) {
                    Some((rv, p3)) => if rv <= 1 {
                        match dec_option_u64(buf, p3) {
                            Some((limit, p4)) => Some(
                                (KvRequestDataView::List { query, reverse: rv == 1, limit }, p4),
                            ),
                            None => None,
                        }
                    } else {
                        None
                    },
                    None => None,
                },
                None => None,
            }
        } else if tag == 3 {
            match dec_list(buf, p1) {
                Some((keys, p2)) => match dec_list(buf, p2) {
                    Some((values, p3)) => Some((KvRequestDataView::Put { keys, values }, p3)),
                    None => None,
                },
                None => None,
            }
        } else if tag == 4 {
            match dec_list(buf, p1) {
                Some((keys, p2)) => Some((KvRequestDataView::Delete { keys }, p2)),
                None => None,
            }
        } else if tag == 5 {
            Some((KvRequestDataView::Drop, p1))
        } else {
            None
        },
        None => None,
    }
}

pub open spec fn dec_kv_response_data(buf: Seq<u8>, pos: int) -> Option<(KvResponseDataView, int)> {
    match dec_u64(buf, pos) {
        Some((tag, p1)) => if tag == 1 || tag == 2 {
            match dec_list(buf, p1) {
                Some((keys, p2)) => match dec_list(buf, p2) {
                    Some((values, p3)) => match dec_list(buf, p3) {
                        Some((metadata, p4)) => if tag == 1 {
                            Some((KvResponseDataView::Get { keys, values, metadata }, p4))
                        } else {
                            Some((KvResponseDataView::List { keys, values, metadata }, p4))
                        },
                        None => None,
                    },
                    None => None,
                },
                None => None,
            }
        } else if tag == 3 {
            Some((KvResponseDataView::Put, p1))
        } else if tag == 4 {
            Some((KvResponseDataView::Delete, p1))
        } else if tag == 5 {
            Some((KvResponseDataView::Drop, p1))
        } else if tag == 6 {
            match dec_bytes(buf, p1) {
                Some((message, p2)) => Some((KvResponseDataView::Error { message }, p2)),
                None => None,
            }
        } else {
            None
        },
        None => None,
    }
}

pub open spec fn dec_to_server_at(buf: Seq<u8>, pos: int) -> Option<(ToServerView, int)> {
    match dec_u64(buf, pos) {
        Some((tag, p1)) => if tag == 1 {
            match dec_bytes(buf, p1) {
                Some((name, p2)) => match dec_bytes(buf, p2) {
                    Some((version, p3)) => match dec_u64(buf, p3) {
                        Some((slots, p4)) => if slots <= u32::MAX as u64 {
                            Some(
                                (
                                    ToServerView::Init {
                                        name,
                                        version,
                                        total_slots: slots as u32,
                                    },
                                    p4,
                                ),
                            )
                        } else {
                            None
                        },
                        None => None,
                    },
                    None => None,
                },
                None => None,
            }
        } else if tag == 2 {
            match dec_u64(buf, p1) {
                Some((ts, p2)) => Some((ToServerView::Ping { ts: ts as i64 }, p2)),
                None => None,
            }
        } else if tag == 3 {
            match dec_u64(buf, p1) {
                Some((rid, p2)) => if rid <= u32::MAX as u64 {
                    match dec_bytes(buf, p2) {
                        Some((actor_id, p3)) => match dec_kv_request_data(buf, p3) {
                            Some((data, p4)) => Some(
                                (
                                    ToServerView::KvRequest {
                                        request_id: rid as u32,
                                        actor_id,
                                        data,
                                    },
                                    p4,
                                ),
                            ),
                            None => None,
                        },
                        None => None,
                    }
                } else {
                    None
                },
                None => None,
            }
        } else if tag == 4 {
            match dec_bytes(buf, p1) {
                Some((payload, p2)) => Some((ToServerView::Event { payload }, p2)),
                None => None,
            }
        } else {
            None
        },
        None => None,
    }
}

pub open spec fn dec_to_client_at(buf: Seq<u8>, pos: int) -> Option<(ToClientView, int)> {
    match dec_u64(buf, pos) {
        Some((tag, p1)) => if tag == 1 {
            match dec_u64(buf, p1) {
                Some((rid, p2)) => if rid <= u32::MAX as u64 {
                    match dec_kv_response_data(buf, p2) {
                        Some((data, p3)) => Some(
                            (ToClientView::KvResponse { request_id: rid as u32, data }, p3),
                        ),
                        None => None,
                    }
                } else {
                    None
                },
                None => None,
            }
        } else if tag == 2 {
            match dec_bytes(buf, p1) {
                Some((payload, p2)) => Some((ToClientView::Command { payload }, p2)),
                None => None,
            }
        } else {
            None
        },
        None => None,
    }
}

/// Decode a whole buffer as one `ToServer` message; trailing bytes are an error.
pub open spec fn dec_to_server(buf: Seq<u8>) -> Option<ToServerView> {
    match dec_to_server_at(buf, 0) {
        Some((m, p)) => if p == buf.len() {
            Some(m)
        } else {
            None
        },
        None => None,
    }
}

/// Decode a whole buffer as one `ToClient` message; trailing bytes are an error.
pub open spec fn dec_to_client(buf: Seq<u8>) -> Option<ToClientView> {
    match dec_to_client_at(buf, 0) {
        Some((m, p)) => if p == buf.len() {
            Some(m)
        } else {
            None
        },
        None => None,
    }
}

// ---------------------------------------------------------------------------
// Decoding inverts encoding
// ---------------------------------------------------------------------------

/// Casting an `i64` through `u64` and back is the identity.
pub proof fn lemma_i64_u64_round(x: i64)
    ensures
        (x as u64) as i64 == x,
{
    assert((x as u64) as i64 == x) by (bit_vector);
}

/// Concatenation of byte sequences is associative.
proof fn lemma_assoc(a: Seq<u8>, b: Seq<u8>, c: Seq<u8>)
    ensures
        (a + b) + c == a + (b + c),
{
    vstd::seq_lib::lemma_concat_associative(a, b, c);
}

pub proof fn lemma_dec_option_u64(o: Option<u64>, pre: Seq<u8>, post: Seq<u8>)
    ensures
        dec_option_u64(pre + enc_option_u64(o) + post, pre.len() as int) == Some(
            (o, (pre.len() + enc_option_u64(o).len()) as int),
        ),
{
    let buf = pre + enc_option_u64(o) + post;
    match o {
        None => {
            lemma_dec_u64(0, pre, post);
        },
        Some(v) => {
            let e1 = enc_u64(1);
            let e2 = enc_u64(v);
            lemma_assoc(pre, e1 + e2, post);
            lemma_assoc(e1, e2, post);
            lemma_assoc(pre, e1, e2 + post);
            lemma_dec_u64(1, pre, e2 + post);
            lemma_assoc(pre + e1, e2, post);
            lemma_dec_u64(v, pre + e1, post);
        },
    }
}


// Each variant's inversion proof stands alone to keep the solver's work small;
// the per-type lemmas below only dispatch on the variant.

proof fn lemma_dec_kv_request_get(keys: Seq<Seq<u8>>, pre: Seq<u8>, post: Seq<u8>)
    requires
        list_wf(keys),
    ensures
        dec_kv_request_data(pre + (enc_u64(1) + enc_list(keys)) + post, pre.len() as int) == Some(
            (KvRequestDataView::Get { keys }, (pre.len() + (enc_u64(1) + enc_list(keys)).len()) as int),
        ),
{
    let e1 = enc_u64(1);
    let e2 = enc_list(keys);
    lemma_assoc(pre, e1 + e2, post);
    lemma_assoc(e1, e2, post);
    lemma_assoc(pre, e1, e2 + post);
    lemma_dec_u64(1, pre, e2 + post);
    lemma_assoc(pre + e1, e2, post);
    lemma_dec_list(keys, pre + e1, post);
}

proof fn lemma_dec_kv_request_list(
    query: Seq<u8>,
    reverse: bool,
    limit: Option<u64>,
    pre: Seq<u8>,
    post: Seq<u8>,
)
    requires
        bytes_wf(query),
    ensures
        dec_kv_request_data(
            pre + (enc_u64(2) + enc_bytes(query) + enc_u64(if reverse { 1u64 } else { 0u64 })
                + enc_option_u64(limit)) + post,
            pre.len() as int,
        ) == Some(
            (
                KvRequestDataView::List { query, reverse, limit },
                (pre.len() + (enc_u64(2) + enc_bytes(query) + enc_u64(
                    if reverse { 1u64 } else { 0u64 },
                ) + enc_option_u64(limit)).len()) as int,
            ),
        ),
{
    let e1 = enc_u64(2);
    let e2 = enc_bytes(query);
    let e3 = enc_u64(if reverse { 1u64 } else { 0u64 });
    let e4 = enc_option_u64(limit);
    lemma_assoc(pre, e1 + e2 + e3 + e4, post);
    lemma_assoc(e1 + e2 + e3, e4, post);
    lemma_assoc(e1 + e2, e3, e4 + post);
    lemma_assoc(e1, e2, e3 + (e4 + post));
    lemma_assoc(pre, e1, e2 + (e3 + (e4 + post)));
    lemma_dec_u64(2, pre, e2 + (e3 + (e4 + post)));
    lemma_assoc(pre + e1, e2, e3 + (e4 + post));
    lemma_dec_bytes(query, pre + e1, e3 + (e4 + post));
    lemma_assoc(pre + e1 + e2, e3, e4 + post);
    lemma_dec_u64(if reverse { 1u64 } else { 0u64 }, pre + e1 + e2, e4 + post);
    lemma_assoc(pre + e1 + e2 + e3, e4, post);
    lemma_dec_option_u64(limit, pre + e1 + e2 + e3, post);
}

proof fn lemma_dec_kv_request_put(
    keys: Seq<Seq<u8>>,
    values: Seq<Seq<u8>>,
    pre: Seq<u8>,
    post: Seq<u8>,
)
    requires
        list_wf(keys),
        list_wf(values),
    ensures
        dec_kv_request_data(
            pre + (enc_u64(3) + enc_list(keys) + enc_list(values)) + post,
            pre.len() as int,
        ) == Some(
            (
                KvRequestDataView::Put { keys, values },
                (pre.len() + (enc_u64(3) + enc_list(keys) + enc_list(values)).len()) as int,
            ),
        ),
{
    let e1 = enc_u64(3);
    let e2 = enc_list(keys);
    let e3 = enc_list(values);
    lemma_assoc(pre, e1 + e2 + e3, post);
    lemma_assoc(e1 + e2, e3, post);
    lemma_assoc(e1, e2, e3 + post);
    lemma_assoc(pre, e1, e2 + (e3 + post));
    lemma_dec_u64(3, pre, e2 + (e3 + post));
    lemma_assoc(pre + e1, e2, e3 + post);
    lemma_dec_list(keys, pre + e1, e3 + post);
    lemma_assoc(pre + e1 + e2, e3, post);
    lemma_dec_list(values, pre + e1 + e2, post);
}

proof fn lemma_dec_kv_request_delete(keys: Seq<Seq<u8>>, pre: Seq<u8>, post: Seq<u8>)
    requires
        list_wf(keys),
    ensures
        dec_kv_request_data(pre + (enc_u64(4) + enc_list(keys)) + post, pre.len() as int) == Some(
            (
                KvRequestDataView::Delete { keys },
                (pre.len() + (enc_u64(4) + enc_list(keys)).len()) as int,
            ),
        ),
{
    let e1 = enc_u64(4);
    let e2 = enc_list(keys);
    lemma_assoc(pre, e1 + e2, post);
    lemma_assoc(e1, e2, post);
    lemma_assoc(pre, e1, e2 + post);
    lemma_dec_u64(4, pre, e2 + post);
    lemma_assoc(pre + e1, e2, post);
    lemma_dec_list(keys, pre + e1, post);
}

#[verifier::rlimit(100)]
pub proof fn lemma_dec_kv_request_data(d: KvRequestDataView, pre: Seq<u8>, post: Seq<u8>)
    requires
        kv_request_data_wf(d),
    ensures
        dec_kv_request_data(pre + enc_kv_request_data(d) + post, pre.len() as int) == Some(
            (d, (pre.len() + enc_kv_request_data(d).len()) as int),
        ),
{
    match d {
        KvRequestDataView::Get { keys } => {
            lemma_dec_kv_request_get(keys, pre, post);
        },
        KvRequestDataView::List { query, reverse, limit } => {
            lemma_dec_kv_request_list(query, reverse, limit, pre, post);
        },
        KvRequestDataView::Put { keys, values } => {
            lemma_dec_kv_request_put(keys, values, pre, post);
        },
        KvRequestDataView::Delete { keys } => {
            lemma_dec_kv_request_delete(keys, pre, post);
        },
        KvRequestDataView::Drop => {
            lemma_dec_u64(5, pre, post);
        },
    }
}

proof fn lemma_dec_kv_response_rows(
    tag: u64,
    keys: Seq<Seq<u8>>,
    values: Seq<Seq<u8>>,
    metadata: Seq<Seq<u8>>,
    pre: Seq<u8>,
    post: Seq<u8>,
)
    requires
        tag == 1 || tag == 2,
        list_wf(keys),
        list_wf(values),
        list_wf(metadata),
    ensures
        dec_kv_response_data(
            pre + (enc_u64(tag) + enc_list(keys) + enc_list(values) + enc_list(metadata)) + post,
            pre.len() as int,
        ) == Some(
            (
                if tag == 1 {
                    KvResponseDataView::Get { keys, values, metadata }
                } else {
                    KvResponseDataView::List { keys, values, metadata }
                },
                (pre.len() + (enc_u64(tag) + enc_list(keys) + enc_list(values) + enc_list(
                    metadata,
                )).len()) as int,
            ),
        ),
{
    let e1 = enc_u64(tag);
    let e2 = enc_list(keys);
    let e3 = enc_list(values);
    let e4 = enc_list(metadata);
    lemma_assoc(pre, e1 + e2 + e3 + e4, post);
    lemma_assoc(e1 + e2 + e3, e4, post);
    lemma_assoc(e1 + e2, e3, e4 + post);
    lemma_assoc(e1, e2, e3 + (e4 + post));
    lemma_assoc(pre, e1, e2 + (e3 + (e4 + post)));
    lemma_dec_u64(tag, pre, e2 + (e3 + (e4 + post)));
    lemma_assoc(pre + e1, e2, e3 + (e4 + post));
    lemma_dec_list(keys, pre + e1, e3 + (e4 + post));
    lemma_assoc(pre + e1 + e2, e3, e4 + post);
    lemma_dec_list(values, pre + e1 + e2, e4 + post);
    lemma_assoc(pre + e1 + e2 + e3, e4, post);
    lemma_dec_list(metadata, pre + e1 + e2 + e3, post);
}

proof fn lemma_dec_kv_response_error(message: Seq<u8>, pre: Seq<u8>, post: Seq<u8>)
    requires
        bytes_wf(message),
    ensures
        dec_kv_response_data(pre + (enc_u64(6) + enc_bytes(message)) + post, pre.len() as int)
            == Some(
            (
                KvResponseDataView::Error { message },
                (pre.len() + (enc_u64(6) + enc_bytes(message)).len()) as int,
            ),
        ),
{
    let e1 = enc_u64(6);
    let e2 = enc_bytes(message);
    lemma_assoc(pre, e1 + e2, post);
    lemma_assoc(e1, e2, post);
    lemma_assoc(pre, e1, e2 + post);
    lemma_dec_u64(6, pre, e2 + post);
    lemma_assoc(pre + e1, e2, post);
    lemma_dec_bytes(message, pre + e1, post);
}

#[verifier::rlimit(100)]
pub proof fn lemma_dec_kv_response_data(d: KvResponseDataView, pre: Seq<u8>, post: Seq<u8>)
    requires
        kv_response_data_wf(d),
    ensures
        dec_kv_response_data(pre + enc_kv_response_data(d) + post, pre.len() as int) == Some(
            (d, (pre.len() + enc_kv_response_data(d).len()) as int),
        ),
{
    match d {
        KvResponseDataView::Get { keys, values, metadata } => {
            lemma_dec_kv_response_rows(1, keys, values, metadata, pre, post);
        },
        KvResponseDataView::List { keys, values, metadata } => {
            lemma_dec_kv_response_rows(2, keys, values, metadata, pre, post);
        },
        KvResponseDataView::Put => {
            lemma_dec_u64(3, pre, post);
        },
        KvResponseDataView::Delete => {
            lemma_dec_u64(4, pre, post);
        },
        KvResponseDataView::Drop => {
            lemma_dec_u64(5, pre, post);
        },
        KvResponseDataView::Error { message } => {
            lemma_dec_kv_response_error(message, pre, post);
        },
    }
}

proof fn lemma_dec_to_server_init(
    name: Seq<u8>,
    version: Seq<u8>,
    total_slots: u32,
    pre: Seq<u8>,
    post: Seq<u8>,
)
    requires
        bytes_wf(name),
        bytes_wf(version),
    ensures
        dec_to_server_at(
            pre + (enc_u64(1) + enc_bytes(name) + enc_bytes(version) + enc_u64(
                total_slots as u64,
            )) + post,
            pre.len() as int,
        ) == Some(
            (
                ToServerView::Init { name, version, total_slots },
                (pre.len() + (enc_u64(1) + enc_bytes(name) + enc_bytes(version) + enc_u64(
                    total_slots as u64,
                )).len()) as int,
            ),
        ),
{
    let e1 = enc_u64(1);
    let e2 = enc_bytes(name);
    let e3 = enc_bytes(version);
    let e4 = enc_u64(total_slots as u64);
    lemma_assoc(pre, e1 + e2 + e3 + e4, post);
    lemma_assoc(e1 + e2 + e3, e4, post);
    lemma_assoc(e1 + e2, e3, e4 + post);
    lemma_assoc(e1, e2, e3 + (e4 + post));
    lemma_assoc(pre, e1, e2 + (e3 + (e4 + post)));
    lemma_dec_u64(1, pre, e2 + (e3 + (e4 + post)));
    lemma_assoc(pre + e1, e2, e3 + (e4 + post));
    lemma_dec_bytes(name, pre + e1, e3 + (e4 + post));
    lemma_assoc(pre + e1 + e2, e3, e4 + post);
    lemma_dec_bytes(version, pre + e1 + e2, e4 + post);
    lemma_assoc(pre + e1 + e2 + e3, e4, post);
    lemma_dec_u64(total_slots as u64, pre + e1 + e2 + e3, post);
}

proof fn lemma_dec_to_server_ping(ts: i64, pre: Seq<u8>, post: Seq<u8>)
    ensures
        dec_to_server_at(pre + (enc_u64(2) + enc_u64(ts as u64)) + post, pre.len() as int)
            == Some(
            (
                ToServerView::Ping { ts },
                (pre.len() + (enc_u64(2) + enc_u64(ts as u64)).len()) as int,
            ),
        ),
{
    let e1 = enc_u64(2);
    let e2 = enc_u64(ts as u64);
    lemma_assoc(pre, e1 + e2, post);
    lemma_assoc(e1, e2, post);
    lemma_assoc(pre, e1, e2 + post);
    lemma_dec_u64(2, pre, e2 + post);
    lemma_assoc(pre + e1, e2, post);
    lemma_dec_u64(ts as u64, pre + e1, post);
    lemma_i64_u64_round(ts);
}

proof fn lemma_dec_to_server_kv_request(
    request_id: u32,
    actor_id: Seq<u8>,
    data: KvRequestDataView,
    pre: Seq<u8>,
    post: Seq<u8>,
)
    requires
        bytes_wf(actor_id),
        kv_request_data_wf(data),
    ensures
        dec_to_server_at(
            pre + (enc_u64(3) + enc_u64(request_id as u64) + enc_bytes(actor_id)
                + enc_kv_request_data(data)) + post,
            pre.len() as int,
        ) == Some(
            (
                ToServerView::KvRequest { request_id, actor_id, data },
                (pre.len() + (enc_u64(3) + enc_u64(request_id as u64) + enc_bytes(actor_id)
                    + enc_kv_request_data(data)).len()) as int,
            ),
        ),
{
    let e1 = enc_u64(3);
    let e2 = enc_u64(request_id as u64);
    let e3 = enc_bytes(actor_id);
    let e4 = enc_kv_request_data(data);
    lemma_assoc(pre, e1 + e2 + e3 + e4, post);
    lemma_assoc(e1 + e2 + e3, e4, post);
    lemma_assoc(e1 + e2, e3, e4 + post);
    lemma_assoc(e1, e2, e3 + (e4 + post));
    lemma_assoc(pre, e1, e2 + (e3 + (e4 + post)));
    lemma_dec_u64(3, pre, e2 + (e3 + (e4 + post)));
    lemma_assoc(pre + e1, e2, e3 + (e4 + post));
    lemma_dec_u64(request_id as u64, pre + e1, e3 + (e4 + post));
    lemma_assoc(pre + e1 + e2, e3, e4 + post);
    lemma_dec_bytes(actor_id, pre + e1 + e2, e4 + post);
    lemma_assoc(pre + e1 + e2 + e3, e4, post);
    lemma_dec_kv_request_data(data, pre + e1 + e2 + e3, post);
}

proof fn lemma_dec_to_server_event(payload: Seq<u8>, pre: Seq<u8>, post: Seq<u8>)
    requires
        bytes_wf(payload),
    ensures
        dec_to_server_at(pre + (enc_u64(4) + enc_bytes(payload)) + post, pre.len() as int)
            == Some(
            (
                ToServerView::Event { payload },
                (pre.len() + (enc_u64(4) + enc_bytes(payload)).len()) as int,
            ),
        ),
{
    let e1 = enc_u64(4);
    let e2 = enc_bytes(payload);
    lemma_assoc(pre, e1 + e2, post);
    lemma_assoc(e1, e2, post);
    lemma_assoc(pre, e1, e2 + post);
    lemma_dec_u64(4, pre, e2 + post);
    lemma_assoc(pre + e1, e2, post);
    lemma_dec_bytes(payload, pre + e1, post);
}

#[verifier::rlimit(100)]
pub proof fn lemma_dec_to_server_at(m: ToServerView, pre: Seq<u8>, post: Seq<u8>)
    requires
        to_server_wf(m),
    ensures
        dec_to_server_at(pre + enc_to_server(m) + post, pre.len() as int) == Some(
            (m, (pre.len() + enc_to_server(m).len()) as int),
        ),
{
    match m {
        ToServerView::Init { name, version, total_slots } => {
            lemma_dec_to_server_init(name, version, total_slots, pre, post);
        },
        ToServerView::Ping { ts } => {
            lemma_dec_to_server_ping(ts, pre, post);
        },
        ToServerView::KvRequest { request_id, actor_id, data } => {
            lemma_dec_to_server_kv_request(request_id, actor_id, data, pre, post);
        },
        ToServerView::Event { payload } => {
            lemma_dec_to_server_event(payload, pre, post);
        },
    }
}

proof fn lemma_dec_to_client_kv_response(
    request_id: u32,
    data: KvResponseDataView,
    pre: Seq<u8>,
    post: Seq<u8>,
)
    requires
        kv_response_data_wf(data),
    ensures
        dec_to_client_at(
            pre + (enc_u64(1) + enc_u64(request_id as u64) + enc_kv_response_data(data)) + post,
            pre.len() as int,
        ) == Some(
            (
                ToClientView::KvResponse { request_id, data },
                (pre.len() + (enc_u64(1) + enc_u64(request_id as u64) + enc_kv_response_data(
                    data,
                )).len()) as int,
            ),
        ),
{
    let e1 = enc_u64(1);
    let e2 = enc_u64(request_id as u64);
    let e3 = enc_kv_response_data(data);
    lemma_assoc(pre, e1 + e2 + e3, post);
    lemma_assoc(e1 + e2, e3, post);
    lemma_assoc(e1, e2, e3 + post);
    lemma_assoc(pre, e1, e2 + (e3 + post));
    lemma_dec_u64(1, pre, e2 + (e3 + post));
    lemma_assoc(pre + e1, e2, e3 + post);
    lemma_dec_u64(request_id as u64, pre + e1, e3 + post);
    lemma_assoc(pre + e1 + e2, e3, post);
    lemma_dec_kv_response_data(data, pre + e1 + e2, post);
}

proof fn lemma_dec_to_client_command(payload: Seq<u8>, pre: Seq<u8>, post: Seq<u8>)
    requires
        bytes_wf(payload),
    ensures
        dec_to_client_at(pre + (enc_u64(2) + enc_bytes(payload)) + post, pre.len() as int)
            == Some(
            (
                ToClientView::Command { payload },
                (pre.len() + (enc_u64(2) + enc_bytes(payload)).len()) as int,
            ),
        ),
{
    let e1 = enc_u64(2);
    let e2 = enc_bytes(payload);
    lemma_assoc(pre, e1 + e2, post);
    lemma_assoc(e1, e2, post);
    lemma_assoc(pre, e1, e2 + post);
    lemma_dec_u64(2, pre, e2 + post);
    lemma_assoc(pre + e1, e2, post);
    lemma_dec_bytes(payload, pre + e1, post);
}

#[verifier::rlimit(100)]
pub proof fn lemma_dec_to_client_at(m: ToClientView, pre: Seq<u8>, post: Seq<u8>)
    requires
        to_client_wf(m),
    ensures
        dec_to_client_at(pre + enc_to_client(m) + post, pre.len() as int) == Some(
            (m, (pre.len() + enc_to_client(m).len()) as int),
        ),
{
    match m {
        ToClientView::KvResponse { request_id, data } => {
            lemma_dec_to_client_kv_response(request_id, data, pre, post);
        },
        ToClientView::Command { payload } => {
            lemma_dec_to_client_command(payload, pre, post);
        },
    }
}

/// Round trip: decoding a serialized `ToServer` message reconstructs it.
pub proof fn lemma_to_server_round_trip(m: ToServerView)
    requires
        to_server_wf(m),
    ensures
        dec_to_server(enc_to_server(m)) == Some(m),
{
    lemma_dec_to_server_at(m, Seq::empty(), Seq::empty());
    assert(Seq::<u8>::empty() + enc_to_server(m) + Seq::<u8>::empty() =~= enc_to_server(m));
}

/// Round trip: decoding a serialized `ToClient` message reconstructs it.
pub proof fn lemma_to_client_round_trip(m: ToClientView)
    requires
        to_client_wf(m),
    ensures
        dec_to_client(enc_to_client(m)) == Some(m),
{
    lemma_dec_to_client_at(m, Seq::empty(), Seq::empty());
    assert(Seq::<u8>::empty() + enc_to_client(m) + Seq::<u8>::empty() =~= enc_to_client(m));
}


// ---------------------------------------------------------------------------
// Executable serializers
// ---------------------------------------------------------------------------

fn push_kv_request_data(out: &mut Vec<u8>, d: &KvRequestData)
    ensures
        final(out)@ == old(out)@ + enc_kv_request_data(d@),
{
    match d {
        KvRequestData::Get { keys } => {
            push_u64(out, 1);
            push_list(out, keys);
        },
        KvRequestData::List { query, reverse, limit } => {
            push_u64(out, 2);
            push_bytes(out, query);
            if *reverse {
                push_u64(out, 1);
            } else {
                push_u64(out, 0);
            }
            match limit {
                None => push_u64(out, 0),
                Some(v) => {
                    push_u64(out, 1);
                    push_u64(out, *v);
                },
            }
        },
        KvRequestData::Put { keys, values } => {
            push_u64(out, 3);
            push_list(out, keys);
            push_list(out, values);
        },
        KvRequestData::Delete { keys } => {
            push_u64(out, 4);
            push_list(out, keys);
        },
        KvRequestData::Drop => {
            push_u64(out, 5);
        },
    }
    proof {
        assert(out@ =~= old(out)@ + enc_kv_request_data(d@));
    }
}

fn push_kv_response_data(out: &mut Vec<u8>, d: &KvResponseData)
    ensures
        final(out)@ == old(out)@ + enc_kv_response_data(d@),
{
    match d {
        KvResponseData::Get { keys, values, metadata } => {
            push_u64(out, 1);
            push_list(out, keys);
            push_list(out, values);
            push_list(out, metadata);
        },
        KvResponseData::List { keys, values, metadata } => {
            push_u64(out, 2);
            push_list(out, keys);
            push_list(out, values);
            push_list(out, metadata);
        },
        KvResponseData::Put => {
            push_u64(out, 3);
        },
        KvResponseData::Delete => {
            push_u64(out, 4);
        },
        KvResponseData::Drop => {
            push_u64(out, 5);
        },
        KvResponseData::Error { message } => {
            push_u64(out, 6);
            push_bytes(out, message);
        },
    }
    proof {
        assert(out@ =~= old(out)@ + enc_kv_response_data(d@));
    }
}

/// Serialize a runner-to-gateway message at the given wire version.
pub fn serialize_to_server(m: &ToServer, wire_version: u16) -> (r: Result<Vec<u8>, CodecError>)
    ensures
        wire_version == PROTOCOL_VERSION ==> (r matches Ok(buf) && buf@ == enc_to_server(m@)),
        wire_version != PROTOCOL_VERSION ==> (r matches Err(e) && e
            == CodecError::UnsupportedVersion),
{
    if wire_version != PROTOCOL_VERSION {
        return Err(CodecError::UnsupportedVersion);
    }
    let mut out: Vec<u8> = Vec::new();
    match m {
        ToServer::Init { name, version, total_slots } => {
            push_u64(&mut out, 1);
            push_bytes(&mut out, name);
            push_bytes(&mut out, version);
            push_u64(&mut out, *total_slots as u64);
        },
        ToServer::Ping { ts } => {
            push_u64(&mut out, 2);
            push_u64(&mut out, #[verifier::truncate] (*ts as u64));
        },
        ToServer::KvRequest { request_id, actor_id, data } => {
            push_u64(&mut out, 3);
            push_u64(&mut out, *request_id as u64);
            push_bytes(&mut out, actor_id);
            push_kv_request_data(&mut out, data);
        },
        ToServer::Event { payload } => {
            push_u64(&mut out, 4);
            push_bytes(&mut out, payload);
        },
    }
    proof {
        assert(out@ =~= enc_to_server(m@));
    }
    Ok(out)
}

/// Serialize a gateway-to-runner message at the given wire version.
pub fn serialize_to_client(m: &ToClient, wire_version: u16) -> (r: Result<Vec<u8>, CodecError>)
    ensures
        wire_version == PROTOCOL_VERSION ==> (r matches Ok(buf) && buf@ == enc_to_client(m@)),
        wire_version != PROTOCOL_VERSION ==> (r matches Err(e) && e
            == CodecError::UnsupportedVersion),
{
    if wire_version != PROTOCOL_VERSION {
        return Err(CodecError::UnsupportedVersion);
    }
    let mut out: Vec<u8> = Vec::new();
    match m {
        ToClient::KvResponse { request_id, data } => {
            push_u64(&mut out, 1);
            push_u64(&mut out, *request_id as u64);
            push_kv_response_data(&mut out, data);
        },
        ToClient::Command { payload } => {
            push_u64(&mut out, 2);
            push_bytes(&mut out, payload);
        },
    }
    proof {
        assert(out@ =~= enc_to_client(m@));
    }
    Ok(out)
}

// ---------------------------------------------------------------------------
// Executable deserializers
// ---------------------------------------------------------------------------

fn read_kv_request_data(buf: &Vec<u8>, pos: usize) -> (r: Option<(KvRequestData, usize)>)
    ensures
        match dec_kv_request_data(buf@, pos as int) {
            Some((dv, p)) => r matches Some((d, p2)) && d@ == dv && p2 as int == p,
            None => r is None,
        },
{
    let (tag, p1) = match read_u64(buf, pos) {
        Some(x) => x,
        None => {
            return None;
        },
    };
    if tag == 1 {
        match read_list(buf, p1) {
            Some((keys, p2)) => Some((KvRequestData::Get { keys }, p2)),
            None => None,
        }
    } else if tag == 2 {
        let (query, p2) = match read_bytes(buf, p1) {
            Some(x) => x,
            None => {
                return None;
            },
        };
        let (rv, p3) = match read_u64(buf, p2) {
            Some(x) => x,
            None => {
                return None;
            },
        };
        if rv > 1 {
            return None;
        }
        let (flag, p4) = match read_u64(buf, p3) {
            Some(x) => x,
            None => {
                return None;
            },
        };
        if flag == 0 {
            Some((KvRequestData::List { query, reverse: rv == 1, limit: None }, p4))
        } else if flag == 1 {
            match read_u64(buf, p4) {
                Some((v, p5)) => Some(
                    (KvRequestData::List { query, reverse: rv == 1, limit: Some(v) }, p5),
                ),
                None => None,
            }
        } else {
            None
        }
    } else if tag == 3 {
        let (keys, p2) = match read_list(buf, p1) {
            Some(x) => x,
            None => {
                return None;
            },
        };
        match read_list(buf, p2) {
            Some((values, p3)) => Some((KvRequestData::Put { keys, values }, p3)),
            None => None,
        }
    } else if tag == 4 {
        match read_list(buf, p1) {
            Some((keys, p2)) => Some((KvRequestData::Delete { keys }, p2)),
            None => None,
        }
    } else if tag == 5 {
        Some((KvRequestData::Drop, p1))
    } else {
        None
    }
}

fn read_kv_response_data(buf: &Vec<u8>, pos: usize) -> (r: Option<(KvResponseData, usize)>)
    ensures
        match dec_kv_response_data(buf@, pos as int) {
            Some((dv, p)) => r matches Some((d, p2)) && d@ == dv && p2 as int == p,
            None => r is None,
        },
{
    let (tag, p1) = match read_u64(buf, pos) {
        Some(x) => x,
        None => {
            return None;
        },
    };
    if tag == 1 || tag == 2 {
        let (keys, p2) = match read_list(buf, p1) {
            Some(x) => x,
            None => {
                return None;
            },
        };
        let (values, p3) = match read_list(buf, p2) {
            Some(x) => x,
            None => {
                return None;
            },
        };
        match read_list(buf, p3) {
            Some((metadata, p4)) => if tag == 1 {
                Some((KvResponseData::Get { keys, values, metadata }, p4))
            } else {
                Some((KvResponseData::List { keys, values, metadata }, p4))
            },
            None => None,
        }
    } else if tag == 3 {
        Some((KvResponseData::Put, p1))
    } else if tag == 4 {
        Some((KvResponseData::Delete, p1))
    } else if tag == 5 {
        Some((KvResponseData::Drop, p1))
    } else if tag == 6 {
        match read_bytes(buf, p1) {
            Some((message, p2)) => Some((KvResponseData::Error { message }, p2)),
            None => None,
        }
    } else {
        None
    }
}

/// Deserialize a runner-to-gateway frame at the given wire version.
pub fn deserialize_to_server(buf: &Vec<u8>, wire_version: u16) -> (r: Result<
    ToServer,
    CodecError,
>)
    ensures
        wire_version == PROTOCOL_VERSION ==> (match dec_to_server(buf@) {
            Some(mv) => r matches Ok(m) && m@ == mv,
            None => r matches Err(e) && e == CodecError::Malformed,
        }),
        wire_version != PROTOCOL_VERSION ==> (r matches Err(e) && e
            == CodecError::UnsupportedVersion),
{
    if wire_version != PROTOCOL_VERSION {
        return Err(CodecError::UnsupportedVersion);
    }
    let (tag, p1) = match read_u64(buf, 0) {
        Some(x) => x,
        None => {
            return Err(CodecError::Malformed);
        },
    };
    if tag == 1 {
        let (name, p2) = match read_bytes(buf, p1) {
            Some(x) => x,
            None => {
                return Err(CodecError::Malformed);
            },
        };
        let (version, p3) = match read_bytes(buf, p2) {
            Some(x) => x,
            None => {
                return Err(CodecError::Malformed);
            },
        };
        let (slots, p4) = match read_u64(buf, p3) {
            Some(x) => x,
            None => {
                return Err(CodecError::Malformed);
            },
        };
        if slots <= u32::MAX as u64 && p4 == buf.len() {
            Ok(ToServer::Init { name, version, total_slots: slots as u32 })
        } else {
            Err(CodecError::Malformed)
        }
    } else if tag == 2 {
        match read_u64(buf, p1) {
            Some((ts, p2)) => if p2 == buf.len() {
                Ok(ToServer::Ping { ts: #[verifier::truncate] (ts as i64) })
            } else {
                Err(CodecError::Malformed)
            },
            None => Err(CodecError::Malformed),
        }
    } else if tag == 3 {
        let (rid, p2) = match read_u64(buf, p1) {
            Some(x) => x,
            None => {
                return Err(CodecError::Malformed);
            },
        };
        if rid > u32::MAX as u64 {
            return Err(CodecError::Malformed);
        }
        let (actor_id, p3) = match read_bytes(buf, p2) {
            Some(x) => x,
            None => {
                return Err(CodecError::Malformed);
            },
        };
        match read_kv_request_data(buf, p3) {
            Some((data, p4)) => if p4 == buf.len() {
                Ok(ToServer::KvRequest { request_id: rid as u32, actor_id, data })
            } else {
                Err(CodecError::Malformed)
            },
            None => Err(CodecError::Malformed),
        }
    } else if tag == 4 {
        match read_bytes(buf, p1) {
            Some((payload, p2)) => if p2 == buf.len() {
                Ok(ToServer::Event { payload })
            } else {
                Err(CodecError::Malformed)
            },
            None => Err(CodecError::Malformed),
        }
    } else {
        Err(CodecError::Malformed)
    }
}

/// Deserialize a gateway-to-runner frame at the given wire version.
pub fn deserialize_to_client(buf: &Vec<u8>, wire_version: u16) -> (r: Result<
    ToClient,
    CodecError,
>)
    ensures
        wire_version == PROTOCOL_VERSION ==> (match dec_to_client(buf@) {
            Some(mv) => r matches Ok(m) && m@ == mv,
            None => r matches Err(e) && e == CodecError::Malformed,
        }),
        wire_version != PROTOCOL_VERSION ==> (r matches Err(e) && e
            == CodecError::UnsupportedVersion),
{
    if wire_version != PROTOCOL_VERSION {
        return Err(CodecError::UnsupportedVersion);
    }
    let (tag, p1) = match read_u64(buf, 0) {
        Some(x) => x,
        None => {
            return Err(CodecError::Malformed);
        },
    };
    if tag == 1 {
        let (rid, p2) = match read_u64(buf, p1) {
            Some(x) => x,
            None => {
                return Err(CodecError::Malformed);
            },
        };
        if rid > u32::MAX as u64 {
            return Err(CodecError::Malformed);
        }
        match read_kv_response_data(buf, p2) {
            Some((data, p3)) => if p3 == buf.len() {
                Ok(ToClient::KvResponse { request_id: rid as u32, data })
            } else {
                Err(CodecError::Malformed)
            },
            None => Err(CodecError::Malformed),
        }
    } else if tag == 2 {
        match read_bytes(buf, p1) {
            Some((payload, p2)) => if p2 == buf.len() {
                Ok(ToClient::Command { payload })
            } else {
                Err(CodecError::Malformed)
            },
            None => Err(CodecError::Malformed),
        }
    } else {
        Err(CodecError::Malformed)
    }
}

} // verus!
