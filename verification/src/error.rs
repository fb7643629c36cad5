//! The gateway's error taxonomy (group `ws`) and its mapping to WebSocket
//! close frames.
//!
//! A close frame carries a numeric code — 1000 (normal) only for a normal
//! peer close, 1011 otherwise — and a reason string `"ws.<code>"` held to at
//! most 123 bytes, cut only at a character boundary, as the transport's
//! close frames demand.

use vstd::prelude::*;
use vstd::string::StrSliceExecFns;
use vstd::string::StringExecFns;

verus! {

broadcast use vstd::string::group_string_axioms;

/// Close code for a normal connection close.
pub const CLOSE_CODE_NORMAL: u16 = 1000;

/// Close code for every other termination.
pub const CLOSE_CODE_ERROR: u16 = 1011;

/// Everything that can end a runner connection.
#[derive(Clone, Debug, PartialEq, Eq)]
pub enum WsError {
    /// A newer connection for the same runner displaced this one.
    NewRunnerConnected,
    /// Normal peer close or end of stream.
    ConnectionClosed,
    /// A workflow asked for this runner's socket to be closed.
    Eviction,
    /// No init packet arrived within the handshake window.
    TimedOutWaitingForInit,
    /// The first frame was not a binary `ToServer::Init`.
    InvalidInitialPacket { detail: String },
    /// A mid-stream frame could not be decoded or processed.
    InvalidPacket { detail: String },
    /// The upgrade URL was missing or carried unusable query parameters.
    InvalidUrl { detail: String },
}

/// View of an error: the same shape over character sequences.
pub enum WsErrorView {
    NewRunnerConnected,
    ConnectionClosed,
    Eviction,
    TimedOutWaitingForInit,
    InvalidInitialPacket { detail: Seq<char> },
    InvalidPacket { detail: Seq<char> },
    InvalidUrl { detail: Seq<char> },
}

impl View for WsError {
    type V = WsErrorView;

    open spec fn view(&self) -> WsErrorView {
        match self {
            WsError::NewRunnerConnected => WsErrorView::NewRunnerConnected,
            WsError::ConnectionClosed => WsErrorView::ConnectionClosed,
            WsError::Eviction => WsErrorView::Eviction,
            WsError::TimedOutWaitingForInit => WsErrorView::TimedOutWaitingForInit,
            WsError::InvalidInitialPacket { detail } => WsErrorView::InvalidInitialPacket {
                detail: detail.view(),
            },
            WsError::InvalidPacket { detail } => WsErrorView::InvalidPacket {
                detail: detail.view(),
            },
            WsError::InvalidUrl { detail } => WsErrorView::InvalidUrl { detail: detail.view() },
        }
    }
}

/// The error's code within group `ws`, as it appears in a close reason.
pub open spec fn spec_error_code(e: WsError) -> Seq<char> {
    match e {
        WsError::NewRunnerConnected => "new_runner_connected"@,
        WsError::ConnectionClosed => "connection_closed"@,
        WsError::Eviction => "eviction"@,
        WsError::TimedOutWaitingForInit => "timed_out_waiting_for_init"@,
        WsError::InvalidInitialPacket { .. } => "invalid_initial_packet"@,
        WsError::InvalidPacket { .. } => "invalid_packet"@,
        WsError::InvalidUrl { .. } => "invalid_url"@,
    }
}

/// The reason string of a close frame: `"ws."` followed by the error code.
pub open spec fn spec_close_reason(e: WsError) -> Seq<char> {
    "ws."@ + spec_error_code(e)
}

/// The numeric close code: normal only for a normal close.
pub open spec fn spec_close_code(e: WsError) -> u16 {
    if e is ConnectionClosed {
        CLOSE_CODE_NORMAL
    } else {
        CLOSE_CODE_ERROR
    }
}

/// A WebSocket close frame as the gateway emits it.
pub struct CloseFrame {
    pub code: u16,
    pub reason: String,
}

/// Well-formed close frame: the reason fits the transport's 123-byte cap.
pub open spec fn close_frame_wf(f: CloseFrame) -> bool {
    f.reason@.len() <= 123 && vstd::utf8::is_ascii_chars(f.reason@)
}

fn error_code_str(e: &WsError) -> (r: &'static str)
    ensures
        r@ == spec_error_code(*e),
        r@.len() <= 26,
        r.is_ascii(),
{
    proof {
        reveal_strlit("new_runner_connected");
        reveal_strlit("connection_closed");
        reveal_strlit("eviction");
        reveal_strlit("timed_out_waiting_for_init");
        reveal_strlit("invalid_initial_packet");
        reveal_strlit("invalid_packet");
        reveal_strlit("invalid_url");
    }
    match e {
        WsError::NewRunnerConnected => "new_runner_connected",
        WsError::ConnectionClosed => "connection_closed",
        WsError::Eviction => "eviction",
        WsError::TimedOutWaitingForInit => "timed_out_waiting_for_init",
        WsError::InvalidInitialPacket { .. } => "invalid_initial_packet",
        WsError::InvalidPacket { .. } => "invalid_packet",
        WsError::InvalidUrl { .. } => "invalid_url",
    }
}

/// Map a terminating error to the close frame sent to the peer: code 1000
/// only for a normal close, and reason `"ws.<code>"`, always within the
/// 123-byte cap.
pub fn err_to_close_frame(e: &WsError) -> (f: CloseFrame)
    ensures
        f.code == spec_close_code(*e),
        f.reason@ == spec_close_reason(*e),
        close_frame_wf(f),
{
    proof {
        reveal_strlit("ws.");
    }
    let code: u16 = if let WsError::ConnectionClosed = e {
        CLOSE_CODE_NORMAL
    } else {
        CLOSE_CODE_ERROR
    };
    let mut reason = String::from_str("ws.");
    reason.append(error_code_str(e));
    CloseFrame { code, reason }
}

} // verus!
