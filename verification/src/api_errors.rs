//! The HTTP answers of the daemon's REST interface to failed requests: the
//! status code and the error envelope (domain, code, message) each domain
//! error maps to.

use vstd::prelude::*;
use vstd::string::StringExecFns;
use crate::daemon_config::AudioError;
use crate::nm_devices::{net_error_text, NetError};
use crate::procs::ProcError;
use crate::text::{decimal, prefixed, push_decimal};

verus! {

pub const NOT_FOUND: u16 = 404;
pub const BAD_REQUEST: u16 = 400;
pub const FORBIDDEN: u16 = 403;
pub const INTERNAL_SERVER_ERROR: u16 = 500;
pub const NOT_IMPLEMENTED: u16 = 501;
pub const SERVICE_UNAVAILABLE: u16 = 503;

/// A failed REST request: the status and the error envelope.
#[derive(Debug, Clone)]
pub struct ApiError {
    pub status: u16,
    pub domain: String,
    pub code: String,
    pub message: String,
}

/// `e` is the answer with this status, domain, code and message.
pub open spec fn api_error_is(e: ApiError, status: u16, domain: Seq<char>, code: Seq<char>, message: Seq<char>) -> bool {
    e.status == status && e.domain@ == domain && e.code@ == code && e.message@ == message
}

fn api_error(status: u16, domain: &str, code: &str, message: String) -> (e: ApiError)
    ensures
        api_error_is(e, status, domain@, code@, message@),
{
    ApiError { status, domain: String::from_str(domain), code: String::from_str(code), message }
}

/// The answer of an endpoint of `domain` that does nothing yet.
pub fn not_implemented(domain: &str) -> (e: ApiError)
    ensures
        api_error_is(e, NOT_IMPLEMENTED, domain@, "not_implemented"@, "This endpoint is not yet implemented"@),
{
    api_error(NOT_IMPLEMENTED, domain, "not_implemented", String::from_str("This endpoint is not yet implemented"))
}

/// The answer to a failed process request about `pid`: not found (404),
/// permission denied (403), or a failed signal (500, with its message).
pub open spec fn proc_answer(err: ProcError, pid: u32, e: ApiError) -> bool {
    match err {
        ProcError::NotFound(_) => api_error_is(e, NOT_FOUND, "proc"@, "not_found"@, "process not found: PID "@ + decimal(pid as nat)),
        ProcError::PermissionDenied(_) => api_error_is(
            e,
            FORBIDDEN,
            "proc"@,
            "permission_denied"@,
            "permission denied killing PID "@ + decimal(pid as nat),
        ),
        ProcError::SignalFailed(m) => api_error_is(e, INTERNAL_SERVER_ERROR, "proc"@, "signal_failed"@, m@),
    }
}

/// The answer to a failed process request about `pid`.
pub fn proc_error(err: ProcError, pid: u32) -> (e: ApiError)
    ensures
        proc_answer(err, pid, e),
{
    match err {
        ProcError::NotFound(_) => {
            let mut m = String::from_str("process not found: PID ");
            push_decimal(&mut m, pid as u64);
            api_error(NOT_FOUND, "proc", "not_found", m)
        },
        ProcError::PermissionDenied(_) => {
            let mut m = String::from_str("permission denied killing PID ");
            push_decimal(&mut m, pid as u64);
            api_error(FORBIDDEN, "proc", "permission_denied", m)
        },
        ProcError::SignalFailed(m) => api_error(INTERNAL_SERVER_ERROR, "proc", "signal_failed", m),
    }
}

/// The answer to a process search without a name.
pub fn missing_name() -> (e: ApiError)
    ensures
        api_error_is(e, BAD_REQUEST, "proc"@, "missing_name"@, "query param 'name' is required"@),
{
    api_error(BAD_REQUEST, "proc", "missing_name", String::from_str("query param 'name' is required"))
}

/// The answer to a failed audio request: a missing sink (404), no
/// connection to the sound server (503), a failed operation (500).
pub open spec fn audio_answer(err: AudioError, e: ApiError) -> bool {
    match err {
        AudioError::SinkNotFound(n) => api_error_is(e, NOT_FOUND, "audio"@, "sink_not_found"@, "sink not found: "@ + n@),
        AudioError::Connection(m) => api_error_is(e, SERVICE_UNAVAILABLE, "audio"@, "connection_failed"@, m@),
        AudioError::OperationFailed(m) => api_error_is(e, INTERNAL_SERVER_ERROR, "audio"@, "operation_failed"@, m@),
    }
}

/// The answer to a failed audio request.
pub fn audio_error(err: AudioError) -> (e: ApiError)
    ensures
        audio_answer(err, e),
{
    match err {
        AudioError::SinkNotFound(n) => api_error(NOT_FOUND, "audio", "sink_not_found", prefixed("sink not found: ", n.as_str())),
        AudioError::Connection(m) => api_error(SERVICE_UNAVAILABLE, "audio", "connection_failed", m),
        AudioError::OperationFailed(m) => api_error(INTERNAL_SERVER_ERROR, "audio", "operation_failed", m),
    }
}

/// The answer to a failed network request: `400`, whatever the failure,
/// with the error's text.
pub fn network_error(err: &NetError) -> (e: ApiError)
    ensures
        api_error_is(e, BAD_REQUEST, "network"@, "network_error"@, net_error_text(*err)),
{
    api_error(BAD_REQUEST, "network", "network_error", err.message())
}

/// Errors of the disk service.
#[derive(Debug, Clone)]
pub enum DiskError {
    /// A D-Bus call failed; its error text.
    DBus(String),
    NotFound(String),
    MountFailed(String),
    UnmountFailed(String),
}

/// The answer to a failed disk request: a missing device (404), otherwise
/// 500; a D-Bus failure carries the D-Bus error's own text.
pub open spec fn disk_answer(err: DiskError, e: ApiError) -> bool {
    match err {
        DiskError::NotFound(p) => api_error_is(e, NOT_FOUND, "disk"@, "not_found"@, "device not found: "@ + p@),
        DiskError::MountFailed(m) => api_error_is(e, INTERNAL_SERVER_ERROR, "disk"@, "mount_failed"@, m@),
        DiskError::UnmountFailed(m) => api_error_is(e, INTERNAL_SERVER_ERROR, "disk"@, "unmount_failed"@, m@),
        DiskError::DBus(m) => api_error_is(e, INTERNAL_SERVER_ERROR, "disk"@, "dbus_error"@, m@),
    }
}

/// The answer to a failed disk request.
pub fn disk_error(err: DiskError) -> (e: ApiError)
    ensures
        disk_answer(err, e),
{
    match err {
        DiskError::NotFound(p) => api_error(NOT_FOUND, "disk", "not_found", prefixed("device not found: ", p.as_str())),
        DiskError::MountFailed(m) => api_error(INTERNAL_SERVER_ERROR, "disk", "mount_failed", m),
        DiskError::UnmountFailed(m) => api_error(INTERNAL_SERVER_ERROR, "disk", "unmount_failed", m),
        DiskError::DBus(m) => api_error(INTERNAL_SERVER_ERROR, "disk", "dbus_error", m),
    }
}

} // verus!
