//! Decisions of the daemon's JSON-RPC server: how a request line is
//! taken, which audio operation an `Audio` request asks for, and the error
//! each refused request is answered with.

use vstd::prelude::*;
use vstd::string::StringExecFns;
use crate::text::{chars_of, push_chars, str_eq, trim, trim_bounds};

verus! {

/// The request is not valid JSON-RPC.
pub const INVALID_REQUEST: i32 = -32600;
/// No such method or action.
pub const METHOD_NOT_FOUND: i32 = -32601;
/// The parameters do not fit the method.
pub const INVALID_PARAMS: i32 = -32602;
/// A service failed to carry the request out.
pub const APP_BASE: i32 = -32000;

/// The error object of a JSON-RPC response.
#[derive(Debug, Clone)]
pub struct RpcError {
    pub code: i32,
    pub message: String,
}

/// The error `(code, message)` as the contracts see it.
pub open spec fn rpc_error_is(e: RpcError, code: i32, message: Seq<char>) -> bool {
    e.code == code && e.message@ == message
}

// ── Request lines ────────────────────────────────────────────────────────────

/// What the server does with one line read from a client.
#[derive(Debug, Clone)]
pub enum LineStep {
    /// Nothing but white space: read on.
    Skip,
    /// The trimmed text, to be parsed as a request.
    Parse(String),
}

/// A blank line is skipped; any other is parsed with the white space around
/// it removed.
pub fn read_step(line: &str) -> (s: LineStep)
    ensures
        trim(line@).len() == 0 ==> s is Skip,
        trim(line@).len() > 0 ==> (s matches LineStep::Parse(t) && t@ == trim(line@)),
{
    let v = chars_of(line);
    let (lo, hi) = trim_bounds(&v, 0, v.len());
    proof {
        assert(v@.subrange(0, v@.len() as int) == v@);
    }
    if lo == hi {
        LineStep::Skip
    } else {
        let mut t = String::new();
        push_chars(&mut t, &v, lo, hi);
        LineStep::Parse(t)
    }
}

/// The answer to a line that does not parse as a request.
pub fn invalid_request() -> (e: RpcError)
    ensures
        rpc_error_is(e, INVALID_REQUEST, "Invalid JSON-RPC request"@),
{
    RpcError { code: INVALID_REQUEST, message: String::from_str("Invalid JSON-RPC request") }
}

/// What a parsed request leads to.
#[derive(Debug, Clone, Copy, PartialEq, Eq, Structural)]
pub enum RequestStep {
    /// Switch the connection to event streaming and confirm.
    Subscribe,
    /// Run the method.
    Execute,
}

/// `Subscribe` switches the connection to event streaming; every other
/// method is executed.
pub fn request_step(method: &str) -> (s: RequestStep)
    ensures
        s == (if method@ == "Subscribe"@ { RequestStep::Subscribe } else { RequestStep::Execute }),
{
    if str_eq(method, "Subscribe") {
        RequestStep::Subscribe
    } else {
        RequestStep::Execute
    }
}

/// A connection forwards events once it has subscribed, and stays subscribed.
pub fn subscribed_after(subscribed: bool, step: RequestStep) -> (r: bool)
    ensures
        r == (subscribed || step == RequestStep::Subscribe),
{
    subscribed || step == RequestStep::Subscribe
}

/// The answer to parameters that do not fit the method: the parser's reason
/// after `Invalid params: `.
pub fn invalid_params(reason: &str) -> (e: RpcError)
    ensures
        rpc_error_is(e, INVALID_PARAMS, "Invalid params: "@ + reason@),
{
    let mut m = String::from_str("Invalid params: ");
    m.append(reason);
    RpcError { code: INVALID_PARAMS, message: m }
}

/// The answer to a request a service failed to carry out: its error text.
pub fn service_failure(message: String) -> (e: RpcError)
    ensures
        rpc_error_is(e, APP_BASE, message@),
{
    RpcError { code: APP_BASE, message }
}

// ── Methods no service takes ─────────────────────────────────────────────────

/// The daemon's own methods, answered when no service takes a request.
#[derive(Debug, Clone, Copy, PartialEq, Eq, Structural)]
pub enum BuiltinMethod {
    Ping,
    Hello,
    Health,
    Subscribe,
}

/// The built-in method a name stands for, if any.
pub open spec fn builtin_of(method: Seq<char>) -> Option<BuiltinMethod> {
    if method == "Ping"@ {
        Some(BuiltinMethod::Ping)
    } else if method == "Hello"@ {
        Some(BuiltinMethod::Hello)
    } else if method == "Health"@ {
        Some(BuiltinMethod::Health)
    } else if method == "Subscribe"@ {
        Some(BuiltinMethod::Subscribe)
    } else {
        None
    }
}

/// A request that no service took: one of the daemon's own methods, or
/// refused as a missing method with `Unknown method: <method>`.
pub fn builtin_method(method: &str) -> (r: Result<BuiltinMethod, RpcError>)
    ensures
        match builtin_of(method@) {
            Some(b) => r == Ok::<BuiltinMethod, RpcError>(b),
            None => r matches Err(e) && rpc_error_is(e, METHOD_NOT_FOUND, "Unknown method: "@ + method@),
        },
{
    if str_eq(method, "Ping") {
        Ok(BuiltinMethod::Ping)
    } else if str_eq(method, "Hello") {
        Ok(BuiltinMethod::Hello)
    } else if str_eq(method, "Health") {
        Ok(BuiltinMethod::Health)
    } else if str_eq(method, "Subscribe") {
        Ok(BuiltinMethod::Subscribe)
    } else {
        let mut m = String::from_str("Unknown method: ");
        m.append(method);
        Err(RpcError { code: METHOD_NOT_FOUND, message: m })
    }
}

// ── Audio requests ───────────────────────────────────────────────────────────

/// The audio operations a request can ask for.
#[derive(Debug, Clone, Copy, PartialEq, Eq, Structural)]
pub enum AudioCall {
    ListSinks,
    ListSources,
    SetVolume(u32),
    SetInputVolume(u32),
    /// Toggle the mute state with `toggle_mute`.
    ToggleMute,
    /// Toggle the output's mute state with `toggle_output_mute`.
    ToggleOutputMute,
    /// Turn the output's mute off.
    UnmuteOutput,
    /// Toggle the input's mute state with `toggle_input_mute`.
    ToggleInputMute,
}

/// The device a REST audio request names is the input exactly when it is
/// `input`; any other name, or none, means the output.
pub open spec fn names_input(device: Option<String>) -> bool {
    device matches Some(d) && d@ == "input"@
}

fn is_input(device: &Option<String>) -> (b: bool)
    ensures
        b == names_input(*device),
{
    match device {
        Some(d) => str_eq(d.as_str(), "input"),
        None => false,
    }
}

/// The operation of the REST volume request: the input's volume when the
/// device named is `input`, else the output's.
pub fn rest_volume_call(device: &Option<String>, percent: u32) -> (c: AudioCall)
    ensures
        c == (if names_input(*device) { AudioCall::SetInputVolume(percent) } else { AudioCall::SetVolume(percent) }),
{
    if is_input(device) {
        AudioCall::SetInputVolume(percent)
    } else {
        AudioCall::SetVolume(percent)
    }
}

/// The operation of the REST mute request: toggle the input's mute state
/// when the device named is `input`, else the output's.
pub fn rest_mute_call(device: &Option<String>) -> (c: AudioCall)
    ensures
        c == (if names_input(*device) { AudioCall::ToggleInputMute } else { AudioCall::ToggleOutputMute }),
{
    if is_input(device) {
        AudioCall::ToggleInputMute
    } else {
        AudioCall::ToggleOutputMute
    }
}

/// The audio operation the server's `Audio` command runs for `action`; the
/// volume actions need a percentage.
pub open spec fn server_audio_plan(action: Seq<char>, percent: Option<u32>) -> Option<AudioCall> {
    if action == "sinks"@ {
        Some(AudioCall::ListSinks)
    } else if action == "sources"@ {
        Some(AudioCall::ListSources)
    } else if action == "volume"@ {
        match percent {
            Some(p) => Some(AudioCall::SetVolume(p)),
            None => None,
        }
    } else if action == "input_volume"@ {
        match percent {
            Some(p) => Some(AudioCall::SetInputVolume(p)),
            None => None,
        }
    } else if action == "mute"@ {
        Some(AudioCall::ToggleMute)
    } else if action == "unmute"@ {
        Some(AudioCall::UnmuteOutput)
    } else {
        None
    }
}

/// The server's `Audio` command: the operation for `action` (none given
/// counts as the empty action). A volume action without a percentage is
/// refused with `percent required`, any other action with `unknown action`,
/// both as invalid parameters.
pub fn server_audio_call(action: &Option<String>, percent: Option<u32>) -> (r: Result<AudioCall, RpcError>)
    ensures
        ({
            let a = match action {
                Some(s) => s@,
                None => Seq::<char>::empty(),
            };
            match r {
                Ok(c) => server_audio_plan(a, percent) == Some(c),
                Err(e) => server_audio_plan(a, percent) is None && (if a == "volume"@ || a == "input_volume"@ {
                    rpc_error_is(e, INVALID_PARAMS, "percent required"@)
                } else {
                    rpc_error_is(e, INVALID_PARAMS, "unknown action"@)
                }),
            }
        }),
{
    let a = match action {
        Some(s) => s.clone(),
        None => String::new(),
    };
    let a = a.as_str();
    if str_eq(a, "sinks") {
        Ok(AudioCall::ListSinks)
    } else if str_eq(a, "sources") {
        Ok(AudioCall::ListSources)
    } else if str_eq(a, "volume") || str_eq(a, "input_volume") {
        match percent {
            Some(p) => if str_eq(a, "volume") {
                Ok(AudioCall::SetVolume(p))
            } else {
                Ok(AudioCall::SetInputVolume(p))
            },
            None => Err(RpcError { code: INVALID_PARAMS, message: String::from_str("percent required") }),
        }
    } else if str_eq(a, "mute") {
        Ok(AudioCall::ToggleMute)
    } else if str_eq(a, "unmute") {
        Ok(AudioCall::UnmuteOutput)
    } else {
        Err(RpcError { code: INVALID_PARAMS, message: String::from_str("unknown action") })
    }
}

/// The audio operation the audio service runs for `action`: a missing
/// percentage counts as 0 and is cut to 32 bits; `mute` toggles the
/// output's mute state and `unmute` turns it off.
pub open spec fn service_audio_plan(action: Seq<char>, percent: u32) -> Option<AudioCall> {
    if action == "sinks"@ {
        Some(AudioCall::ListSinks)
    } else if action == "sources"@ {
        Some(AudioCall::ListSources)
    } else if action == "volume"@ {
        Some(AudioCall::SetVolume(percent))
    } else if action == "input_volume"@ {
        Some(AudioCall::SetInputVolume(percent))
    } else if action == "mute"@ {
        Some(AudioCall::ToggleOutputMute)
    } else if action == "unmute"@ {
        Some(AudioCall::UnmuteOutput)
    } else {
        None
    }
}

/// The audio service's `Audio` request: the operation for `action` (none
/// given means `sinks`); an unknown action is refused as a missing method
/// with `Unknown audio action: <action>`.
pub fn service_audio_call(action: &Option<String>, percent: Option<u64>) -> (r: Result<AudioCall, RpcError>)
    ensures
        ({
            let a = match action {
                Some(s) => s@,
                None => "sinks"@,
            };
            let p: u32 = match percent {
                Some(p) => p as u32,
                None => 0u32,
            };
            match r {
                Ok(c) => service_audio_plan(a, p) == Some(c),
                Err(e) => service_audio_plan(a, p) is None
                    && rpc_error_is(e, METHOD_NOT_FOUND, "Unknown audio action: "@ + a),
            }
        }),
{
    let a = match action {
        Some(s) => s.clone(),
        None => String::from_str("sinks"),
    };
    let p: u32 = match percent {
        Some(p) => p as u32,
        None => 0,
    };
    let s = a.as_str();
    if str_eq(s, "sinks") {
        Ok(AudioCall::ListSinks)
    } else if str_eq(s, "sources") {
        Ok(AudioCall::ListSources)
    } else if str_eq(s, "volume") {
        Ok(AudioCall::SetVolume(p))
    } else if str_eq(s, "input_volume") {
        Ok(AudioCall::SetInputVolume(p))
    } else if str_eq(s, "mute") {
        Ok(AudioCall::ToggleOutputMute)
    } else if str_eq(s, "unmute") {
        Ok(AudioCall::UnmuteOutput)
    } else {
        let mut m = String::from_str("Unknown audio action: ");
        m.append(s);
        Err(RpcError { code: METHOD_NOT_FOUND, message: m })
    }
}

// ── Laws ─────────────────────────────────────────────────────────────────────

proof fn lemma_action_words_differ()
    ensures
        "sinks"@ != "sources"@,
        "sinks"@ != "volume"@,
        "sinks"@ != "input_volume"@,
        "sinks"@ != "mute"@,
        "sinks"@ != "unmute"@,
        "sources"@ != "volume"@,
        "sources"@ != "input_volume"@,
        "sources"@ != "mute"@,
        "sources"@ != "unmute"@,
        "volume"@ != "input_volume"@,
        "volume"@ != "mute"@,
        "volume"@ != "unmute"@,
        "input_volume"@ != "mute"@,
        "input_volume"@ != "unmute"@,
        "mute"@ != "unmute"@,
{
    reveal_strlit("sinks");
    reveal_strlit("sources");
    reveal_strlit("volume");
    reveal_strlit("input_volume");
    reveal_strlit("mute");
    reveal_strlit("unmute");
    assert("sinks"@[1] != "sources"@[1]);
    assert("sinks"@.len() != "volume"@.len());
    assert("sinks"@[0] != "input_volume"@[0]);
    assert("sinks"@.len() != "mute"@.len());
    assert("sinks"@.len() != "unmute"@.len());
    assert("sources"@[0] != "volume"@[0]);
    assert("sources"@[0] != "input_volume"@[0]);
    assert("sources"@.len() != "mute"@.len());
    assert("sources"@[0] != "unmute"@[0]);
    assert("volume"@.len() != "input_volume"@.len());
    assert("volume"@[0] != "mute"@[0]);
    assert("volume"@[0] != "unmute"@[0]);
    assert("input_volume"@[0] != "mute"@[0]);
    assert("input_volume"@[0] != "unmute"@[0]);
    assert("mute"@.len() != "unmute"@.len());
}

/// The audio service gives each action its own operation: two different
/// actions never lead to the same call, the output volume is set only by
/// `volume` and the input volume only by `input_volume`, each with the
/// percentage asked for; `mute` toggles the output and `unmute` turns its
/// mute off.
pub proof fn law_service_actions_distinct(a: Seq<char>, b: Seq<char>, p: u32)
    ensures
        service_audio_plan(a, p) is Some && service_audio_plan(a, p) == service_audio_plan(b, p) ==> a == b,
        service_audio_plan("volume"@, p) == Some(AudioCall::SetVolume(p)),
        service_audio_plan("input_volume"@, p) == Some(AudioCall::SetInputVolume(p)),
        service_audio_plan("sinks"@, p) == Some(AudioCall::ListSinks),
        service_audio_plan("sources"@, p) == Some(AudioCall::ListSources),
        service_audio_plan("mute"@, p) == Some(AudioCall::ToggleOutputMute),
        service_audio_plan("unmute"@, p) == Some(AudioCall::UnmuteOutput),
        service_audio_plan(a, p) matches Some(AudioCall::SetVolume(x)) ==> a == "volume"@ && x == p,
        service_audio_plan(a, p) matches Some(AudioCall::SetInputVolume(x)) ==> a == "input_volume"@ && x == p,
{
    lemma_action_words_differ();
}

/// The server's `Audio` command gives each action its own operation in the
/// same way; the volume actions carry the percentage given, `mute` toggles
/// the mute state and `unmute` turns the output's mute off.
pub proof fn law_server_actions_distinct(a: Seq<char>, b: Seq<char>, p: Option<u32>)
    ensures
        server_audio_plan(a, p) is Some && server_audio_plan(a, p) == server_audio_plan(b, p) ==> a == b,
        p matches Some(q) ==> server_audio_plan("volume"@, p) == Some(AudioCall::SetVolume(q)),
        p matches Some(q) ==> server_audio_plan("input_volume"@, p) == Some(AudioCall::SetInputVolume(q)),
        server_audio_plan("sinks"@, p) == Some(AudioCall::ListSinks),
        server_audio_plan("sources"@, p) == Some(AudioCall::ListSources),
        server_audio_plan("mute"@, p) == Some(AudioCall::ToggleMute),
        server_audio_plan("unmute"@, p) == Some(AudioCall::UnmuteOutput),
        server_audio_plan(a, p) matches Some(AudioCall::SetVolume(x)) ==> a == "volume"@ && p == Some(x),
        server_audio_plan(a, p) matches Some(AudioCall::SetInputVolume(x)) ==> a == "input_volume"@ && p == Some(x),
{
    lemma_action_words_differ();
}

} // verus!
