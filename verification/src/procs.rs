//! Process signalling and name search over `sysinfo`.

use vstd::prelude::*;
use vstd::string::StringExecFns;
use crate::text::{chars_of, decimal, prefixed, push_decimal};
use sysinfo::{Pid, Process, ProcessRefreshKind, ProcessesToUpdate, RefreshKind, Signal, System};

verus! {

#[verifier::external_type_specification]
#[verifier::external_body]
pub struct ExProcess(Process);

/// Errors of the process queries.
#[derive(Debug, Clone, PartialEq, Eq)]
pub enum ProcError {
    NotFound(u32),
    PermissionDenied(u32),
    SignalFailed(String),
}

/// What a process error says.
pub open spec fn proc_error_text(e: ProcError) -> Seq<char> {
    match e {
        ProcError::NotFound(pid) => "process not found: PID "@ + decimal(pid as nat),
        ProcError::PermissionDenied(pid) => "permission denied killing PID "@ + decimal(pid as nat),
        ProcError::SignalFailed(m) => "signal failed: "@ + m@,
    }
}

impl ProcError {
    /// The error's text.
    pub fn message(&self) -> (m: String)
        ensures
            m@ == proc_error_text(*self),
    {
        match self {
            ProcError::NotFound(pid) => {
                let mut m = String::from_str("process not found: PID ");
                push_decimal(&mut m, *pid as u64);
                m
            },
            ProcError::PermissionDenied(pid) => {
                let mut m = String::from_str("permission denied killing PID ");
                push_decimal(&mut m, *pid as u64);
                m
            },
            ProcError::SignalFailed(m) => prefixed("signal failed: ", m.as_str()),
        }
    }
}

/// The signal a kill request sends.
#[derive(Debug, Clone, Copy, PartialEq, Eq)]
pub enum KillSignal {
    Term,
    Kill,
}

/// A forced kill sends `SIGKILL`, any other `SIGTERM`.
pub fn kill_signal(force: bool) -> (s: KillSignal)
    ensures
        s == (if force { KillSignal::Kill } else { KillSignal::Term }),
{
    if force { KillSignal::Kill } else { KillSignal::Term }
}

/// The message of a signal that could not be sent to `pid`.
pub open spec fn kill_failed_message(pid: u32) -> Seq<char> {
    "kill("@ + decimal(pid as nat) + ") failed"@
}

/// The outcome of a kill request, given what the system answered: `None`
/// when no process has the pid, else what sending the signal returned
/// (`None` when the platform lacks the signal).
pub fn kill_outcome(pid: u32, sent: Option<Option<bool>>) -> (r: Result<(), ProcError>)
    ensures
        sent is None ==> r == Err::<(), ProcError>(ProcError::NotFound(pid)),
        sent == Some(None::<bool>) ==> (r matches Err(ProcError::SignalFailed(m)) && m@ == kill_failed_message(pid)),
        (sent matches Some(Some(_))) ==> r is Ok,
{
    match sent {
        None => Err(ProcError::NotFound(pid)),
        Some(None) => {
            let mut m = String::from_str("kill(");
            push_decimal(&mut m, pid as u64);
            m.append(") failed");
            Err(ProcError::SignalFailed(m))
        },
        Some(Some(_)) => Ok(()),
    }
}

/// `System::new_with_specifics` with process readings enabled.
#[verifier::external_body]
fn process_system() -> System {
    System::new_with_specifics(RefreshKind::new().with_processes(ProcessRefreshKind::everything()))
}

/// `System::refresh_processes` over all processes, dropping those that died.
#[verifier::external_body]
fn refresh_all_processes(sys: &mut System) {
    sys.refresh_processes(ProcessesToUpdate::All, true);
}

/// `System::process`: the process with this pid, if the last refresh saw one.
#[verifier::external_body]
fn find_process(sys: &System, pid: u32) -> Option<&Process> {
    sys.process(Pid::from_u32(pid))
}

/// `Process::kill_with`: `None` when the platform lacks the signal, else
/// whether it was sent.
#[verifier::external_body]
fn send_signal(p: &Process, signal: KillSignal) -> Option<bool> {
    let s = match signal {
        KillSignal::Term => Signal::Term,
        KillSignal::Kill => Signal::Kill,
    };
    p.kill_with(s)
}

/// Sends `SIGTERM` (or `SIGKILL` when `force`) to `pid`. Fails with
/// `NotFound(pid)` when no such process runs, and with the message
/// `kill(<pid>) failed` when the platform cannot send the signal.
pub fn kill_process(pid: u32, force: bool) -> (r: Result<(), ProcError>)
    ensures
        r is Ok
            || r == Err::<(), ProcError>(ProcError::NotFound(pid))
            || (r matches Err(ProcError::SignalFailed(m)) && m@ == kill_failed_message(pid)),
{
    let mut sys = process_system();
    refresh_all_processes(&mut sys);
    let sent = match find_process(&sys, pid) {
        None => None,
        Some(p) => Some(send_signal(p, kill_signal(force))),
    };
    kill_outcome(pid, sent)
}

// ── Search by name ───────────────────────────────────────────────────────────

/// What `str::to_lowercase` makes of a string (Unicode lower-case mapping).
pub uninterp spec fn lowercase(s: Seq<char>) -> Seq<char>;

/// `str::to_lowercase`.
#[verifier::external_body]
fn to_lowercase(s: &str) -> (r: String)
    ensures
        r@ == lowercase(s@),
{
    s.to_lowercase()
}

/// `needle` occurs in `hay` as a contiguous run of characters.
pub open spec fn occurs_in(needle: Seq<char>, hay: Seq<char>) -> bool {
    exists|k: int| 0 <= k <= hay.len() - needle.len() && #[trigger] hay.subrange(k, k + needle.len()) == needle
}

fn matches_at(hay: &Vec<char>, needle: &Vec<char>, k: usize) -> (b: bool)
    requires
        k + needle.len() <= hay.len(),
    ensures
        b == (hay@.subrange(k as int, k + needle.len()) == needle@),
{
    let mut j: usize = 0;
    while j < needle.len()
        invariant
            j <= needle.len(),
            k + needle.len() <= hay.len(),
            forall|i: int| 0 <= i < j ==> hay@[k + i] == needle@[i],
        decreases needle.len() - j,
    {
        if hay[k + j] != needle[j] {
            assert(hay@.subrange(k as int, k + needle.len())[j as int] != needle@[j as int]);
            return false;
        }
        j = j + 1;
    }
    assert(hay@.subrange(k as int, k + needle.len()) =~= needle@);
    true
}

/// Whether `needle` occurs in `hay`.
pub fn contains_chars(hay: &Vec<char>, needle: &Vec<char>) -> (b: bool)
    ensures
        b == occurs_in(needle@, hay@),
{
    if needle.len() > hay.len() {
        return false;
    }
    let last = hay.len() - needle.len();
    let mut k: usize = 0;
    while k < last
        invariant
            last == hay.len() - needle.len(),
            needle.len() <= hay.len(),
            k <= last,
            forall|i: int| 0 <= i < k ==> #[trigger] hay@.subrange(i, i + needle.len()) != needle@,
        decreases last - k,
    {
        if matches_at(hay, needle, k) {
            assert(hay@.subrange(k as int, k + needle.len()) == needle@);
            return true;
        }
        k = k + 1;
    }
    if matches_at(hay, needle, last) {
        assert(hay@.subrange(last as int, last + needle.len()) == needle@);
        return true;
    }
    assert(forall|i: int| 0 <= i <= last ==> #[trigger] hay@.subrange(i, i + needle.len()) != needle@);
    false
}

/// A process name matches a search term when the term occurs in the name,
/// both taken in lower case.
pub fn name_matches(name: &str, term: &str) -> (b: bool)
    ensures
        b == occurs_in(lowercase(term@), lowercase(name@)),
{
    let n = to_lowercase(name);
    let t = to_lowercase(term);
    let nc = chars_of(n.as_str());
    let tc = chars_of(t.as_str());
    contains_chars(&nc, &tc)
}

} // verus!
