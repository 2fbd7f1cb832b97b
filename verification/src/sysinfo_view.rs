//! The rows the command-line client shows for the system information the
//! daemon reports: operating system, session, compositor, display and
//! hardware, each row a label and a value.

use vstd::prelude::*;
use vstd::string::StringExecFns;
use crate::format::{format_uptime, uptime_text};
use crate::text::{decimal, push_char, push_decimal};
use vstd::string::StringSliceAdditionalSpecFns;
use vstd::utf8::encode_utf8;

verus! {

/// The operating system part of the report.
#[derive(Debug, Clone)]
pub struct OsSummary {
    pub name: Option<String>,
    pub kernel: Option<String>,
    pub hostname: Option<String>,
}

/// The session part of the report.
#[derive(Debug, Clone)]
pub struct SessionSummary {
    pub user: Option<String>,
    pub uptime_seconds: Option<u64>,
    pub shell: Option<String>,
    pub terminal: Option<String>,
}

/// The compositor part of the report.
#[derive(Debug, Clone)]
pub struct CompositorSummary {
    pub name: Option<String>,
    pub kind: Option<String>,
}

/// The first monitor of the display part of the report. The scale is a
/// floating-point number; it comes written with one decimal.
#[derive(Debug, Clone)]
pub struct MonitorSummary {
    pub width: Option<u64>,
    pub height: Option<u64>,
    pub scale_text: String,
}

/// The hardware part of the report. The memory and disk sizes are shown in
/// GiB as floating-point numbers; they come written as shown.
#[derive(Debug, Clone)]
pub struct HardwareSummary {
    pub cpu_model: Option<String>,
    pub cpu_cores: Option<u64>,
    pub memory_text: String,
    pub gpu: Option<String>,
    /// `used / total`, when both are reported.
    pub disk_text: Option<String>,
}

/// The parts of a system report; a part the daemon did not send is absent.
#[derive(Debug, Clone)]
pub struct SysinfoSummary {
    pub os: Option<OsSummary>,
    pub session: Option<SessionSummary>,
    pub compositor: Option<CompositorSummary>,
    /// The display part, when it lists a monitor: its first one.
    pub monitor: Option<MonitorSummary>,
    pub hardware: Option<HardwareSummary>,
}

/// A row as the contracts see it.
pub open spec fn row(label: Seq<char>, value: Seq<char>) -> (Seq<char>, Seq<char>) {
    (label, value)
}

/// An optional text, or `fallback` when absent.
pub open spec fn or_text(o: Option<String>, fallback: Seq<char>) -> Seq<char> {
    match o {
        Some(s) => s@,
        None => fallback,
    }
}

/// A row present only when the value is.
pub open spec fn opt_row(label: Seq<char>, o: Option<String>) -> Seq<(Seq<char>, Seq<char>)> {
    match o {
        Some(s) => seq![row(label, s@)],
        None => seq![],
    }
}

pub open spec fn os_rows(o: Option<OsSummary>) -> Seq<(Seq<char>, Seq<char>)> {
    match o {
        Some(os) => seq![
            row("OS"@, or_text(os.name, "-"@)),
            row("Kernel"@, or_text(os.kernel, "-"@)),
            row("Host"@, or_text(os.hostname, "-"@)),
        ],
        None => seq![],
    }
}

pub open spec fn session_rows(s: Option<SessionSummary>) -> Seq<(Seq<char>, Seq<char>)> {
    match s {
        Some(sess) => opt_row("User"@, sess.user) + (match sess.uptime_seconds {
            Some(u) => seq![row("Uptime"@, uptime_text(u as nat))],
            None => seq![],
        }) + opt_row("Shell"@, sess.shell) + opt_row("Terminal"@, sess.terminal),
        None => seq![],
    }
}

pub open spec fn compositor_rows(c: Option<CompositorSummary>) -> Seq<(Seq<char>, Seq<char>)> {
    match c {
        Some(comp) => seq![row("DE/WM"@, or_text(comp.name, "-"@) + " ("@ + or_text(comp.kind, "unknown"@) + ")"@)],
        None => seq![],
    }
}

/// A count, or 0 when absent.
pub open spec fn or_zero(o: Option<u64>) -> nat {
    match o {
        Some(n) => n as nat,
        None => 0,
    }
}

pub open spec fn monitor_rows(m: Option<MonitorSummary>) -> Seq<(Seq<char>, Seq<char>)> {
    match m {
        Some(mon) => seq![row(
            "Resolution"@,
            decimal(or_zero(mon.width)) + "x"@ + decimal(or_zero(mon.height)) + " @ "@ + mon.scale_text@ + "x"@,
        )],
        None => seq![],
    }
}

pub open spec fn hardware_rows(h: Option<HardwareSummary>) -> Seq<(Seq<char>, Seq<char>)> {
    match h {
        Some(hw) => seq![
            row("CPU"@, or_text(hw.cpu_model, "-"@) + " ("@ + decimal(or_zero(hw.cpu_cores)) + " cores)"@),
            row("Memory"@, hw.memory_text@ + " GB"@),
        ] + opt_row("GPU"@, hw.gpu) + opt_row("Disk"@, hw.disk_text),
        None => seq![],
    }
}

/// The rows shown for a report: operating system, session, compositor,
/// resolution and hardware, each part only when reported.
pub open spec fn summary_rows(s: SysinfoSummary) -> Seq<(Seq<char>, Seq<char>)> {
    os_rows(s.os) + session_rows(s.session) + compositor_rows(s.compositor) + monitor_rows(s.monitor)
        + hardware_rows(s.hardware)
}

/// The rows as the contracts see them.
pub open spec fn rows_view(v: Seq<(String, String)>) -> Seq<(Seq<char>, Seq<char>)> {
    Seq::new(v.len(), |i: int| (v[i].0@, v[i].1@))
}

fn push_row(rows: &mut Vec<(String, String)>, label: &str, value: String)
    ensures
        rows_view(final(rows)@) == rows_view(old(rows)@).push(row(label@, value@)),
{
    let ghost before = rows_view(rows@);
    rows.push((String::from_str(label), value));
    assert(rows_view(rows@) =~= before.push(row(label@, value@)));
}

fn text_or(o: &Option<String>, fallback: &str) -> (s: String)
    ensures
        s@ == or_text(*o, fallback@),
{
    match o {
        Some(t) => t.clone(),
        None => String::from_str(fallback),
    }
}

fn push_opt_row(rows: &mut Vec<(String, String)>, label: &str, o: &Option<String>)
    ensures
        rows_view(final(rows)@) == rows_view(old(rows)@) + opt_row(label@, *o),
{
    let ghost before = rows_view(rows@);
    match o {
        Some(t) => {
            push_row(rows, label, t.clone());
        },
        None => {},
    }
    assert(rows_view(rows@) =~= before + opt_row(label@, *o));
}

fn count_or_zero(o: Option<u64>) -> (n: u64)
    ensures
        n == or_zero(o),
{
    match o {
        Some(n) => n,
        None => 0,
    }
}

fn push_os_rows(rows: &mut Vec<(String, String)>, o: &Option<OsSummary>)
    ensures
        rows_view(final(rows)@) == rows_view(old(rows)@) + os_rows(*o),
{
    let ghost before = rows_view(rows@);
    if let Some(os) = o {
        push_row(rows, "OS", text_or(&os.name, "-"));
        push_row(rows, "Kernel", text_or(&os.kernel, "-"));
        push_row(rows, "Host", text_or(&os.hostname, "-"));
    }
    assert(rows_view(rows@) =~= before + os_rows(*o));
}

fn push_session_rows(rows: &mut Vec<(String, String)>, s: &Option<SessionSummary>)
    ensures
        rows_view(final(rows)@) == rows_view(old(rows)@) + session_rows(*s),
{
    let ghost before = rows_view(rows@);
    if let Some(sess) = s {
        push_opt_row(rows, "User", &sess.user);
        let ghost mid = rows_view(rows@);
        if let Some(u) = sess.uptime_seconds {
            push_row(rows, "Uptime", format_uptime(u));
        }
        assert(rows_view(rows@) =~= mid + (match sess.uptime_seconds {
            Some(u) => seq![row("Uptime"@, uptime_text(u as nat))],
            None => seq![],
        }));
        push_opt_row(rows, "Shell", &sess.shell);
        push_opt_row(rows, "Terminal", &sess.terminal);
    }
    assert(rows_view(rows@) =~= before + session_rows(*s));
}

fn push_compositor_rows(rows: &mut Vec<(String, String)>, c: &Option<CompositorSummary>)
    ensures
        rows_view(final(rows)@) == rows_view(old(rows)@) + compositor_rows(*c),
{
    let ghost before = rows_view(rows@);
    if let Some(comp) = c {
        let mut v = text_or(&comp.name, "-");
        v.append(" (");
        v.append(text_or(&comp.kind, "unknown").as_str());
        v.append(")");
        push_row(rows, "DE/WM", v);
    }
    assert(rows_view(rows@) =~= before + compositor_rows(*c));
}

fn push_monitor_rows(rows: &mut Vec<(String, String)>, m: &Option<MonitorSummary>)
    ensures
        rows_view(final(rows)@) == rows_view(old(rows)@) + monitor_rows(*m),
{
    let ghost before = rows_view(rows@);
    if let Some(mon) = m {
        let mut v = String::new();
        push_decimal(&mut v, count_or_zero(mon.width));
        v.append("x");
        push_decimal(&mut v, count_or_zero(mon.height));
        v.append(" @ ");
        v.append(mon.scale_text.as_str());
        v.append("x");
        push_row(rows, "Resolution", v);
    }
    assert(rows_view(rows@) =~= before + monitor_rows(*m));
}

fn push_hardware_rows(rows: &mut Vec<(String, String)>, h: &Option<HardwareSummary>)
    ensures
        rows_view(final(rows)@) == rows_view(old(rows)@) + hardware_rows(*h),
{
    let ghost before = rows_view(rows@);
    if let Some(hw) = h {
        let mut cpu = text_or(&hw.cpu_model, "-");
        cpu.append(" (");
        push_decimal(&mut cpu, count_or_zero(hw.cpu_cores));
        cpu.append(" cores)");
        push_row(rows, "CPU", cpu);
        let mut mem = hw.memory_text.clone();
        mem.append(" GB");
        push_row(rows, "Memory", mem);
        push_opt_row(rows, "GPU", &hw.gpu);
        push_opt_row(rows, "Disk", &hw.disk_text);
    }
    assert(rows_view(rows@) =~= before + hardware_rows(*h));
}

/// The rows the client shows for a system report.
pub fn collect_pairs(info: &SysinfoSummary) -> (rows: Vec<(String, String)>)
    ensures
        rows_view(rows@) == summary_rows(*info),
{
    let mut rows: Vec<(String, String)> = Vec::new();
    assert(rows_view(rows@) =~= seq![]);
    push_os_rows(&mut rows, &info.os);
    push_session_rows(&mut rows, &info.session);
    push_compositor_rows(&mut rows, &info.compositor);
    push_monitor_rows(&mut rows, &info.monitor);
    push_hardware_rows(&mut rows, &info.hardware);
    assert(rows_view(rows@) =~= summary_rows(*info));
    rows
}

// ── Logo layout ──────────────────────────────────────────────────────────────

/// The length of a text in bytes (UTF-8).
pub open spec fn byte_len(s: Seq<char>) -> nat {
    encode_utf8(s).len()
}

/// `n` spaces.
pub open spec fn spaces(n: nat) -> Seq<char> {
    Seq::new(n, |i: int| ' ')
}

/// `a - b`, or 0 when `b` is larger.
pub open spec fn sat_sub(a: nat, b: nat) -> nat {
    if a > b { (a - b) as nat } else { 0 }
}

/// Where the values start, counted from the end of the logo column: two
/// past the logo's width, but no more than what the terminal leaves after it.
pub open spec fn info_column(logo_width: nat, term_width: nat) -> nat {
    min_nat(logo_width + 2, sat_sub(term_width, logo_width + 2))
}

/// The smaller of two naturals.
pub open spec fn min_nat(a: nat, b: nat) -> nat {
    if a <= b { a } else { b }
}

/// Row `i` of the logo view: the logo line padded to the logo's width and
/// two spaces (only spaces below the logo), then the label, padding up to
/// the value column, and the value (nothing past the last row).
pub open spec fn logo_row(
    lines: Seq<Seq<char>>,
    width: nat,
    pairs: Seq<(Seq<char>, Seq<char>)>,
    col: nat,
    i: int,
) -> Seq<char> {
    let left = if i < lines.len() {
        lines[i] + spaces(sat_sub(width, byte_len(lines[i]))) + "  "@
    } else {
        spaces(width + 2)
    };
    let right = if i < pairs.len() {
        pairs[i].0 + spaces(sat_sub(col, byte_len(pairs[i].0) + 1)) + pairs[i].1
    } else {
        Seq::<char>::empty()
    };
    left + right + seq!['\n']
}

/// The first `k` rows of the logo view.
pub open spec fn logo_rows(
    lines: Seq<Seq<char>>,
    width: nat,
    pairs: Seq<(Seq<char>, Seq<char>)>,
    col: nat,
    k: nat,
) -> Seq<char>
    decreases k,
{
    if k == 0 {
        Seq::<char>::empty()
    } else {
        logo_rows(lines, width, pairs, col, (k - 1) as nat) + logo_row(lines, width, pairs, col, k - 1)
    }
}

/// The texts of the lines.
pub open spec fn lines_view(v: Seq<String>) -> Seq<Seq<char>> {
    Seq::new(v.len(), |i: int| v[i]@)
}

fn push_spaces(s: &mut String, n: usize)
    ensures
        final(s)@ == old(s)@ + spaces(n as nat),
{
    let ghost start = s@;
    let mut i: usize = 0;
    while i < n
        invariant
            i <= n,
            s@ == start + spaces(i as nat),
        decreases n - i,
    {
        push_char(s, ' ');
        i = i + 1;
        assert(s@ =~= start + spaces(i as nat));
    }
}

fn text_bytes(s: &String) -> (n: usize)
    ensures
        n == byte_len(s@),
{
    let t: &str = s.as_str();
    let b: &[u8] = t.as_bytes();
    assert(b@ == encode_utf8(s@));
    b.len()
}

fn push_logo_row(
    out: &mut String,
    lines: &Vec<String>,
    logo_width: usize,
    pairs: &Vec<(String, String)>,
    col: usize,
    i: usize,
)
    requires
        logo_width + 2 <= usize::MAX,
    ensures
        final(out)@ == old(out)@ + logo_row(lines_view(lines@), logo_width as nat, rows_view(pairs@), col as nat, i as int),
{
    let ghost before = out@;
    if i < lines.len() {
        let line = &lines[i];
        out.append(line.as_str());
        let n = text_bytes(line);
        let pad: usize = if n < logo_width { logo_width - n } else { 0 };
        push_spaces(out, pad);
        out.append("  ");
    } else {
        push_spaces(out, logo_width + 2);
    }
    let ghost mid = out@;
    if i < pairs.len() {
        let (key, val) = &pairs[i];
        out.append(key.as_str());
        let k = text_bytes(key);
        let pad: usize = if k < col { col - k - 1 } else { 0 };
        push_spaces(out, pad);
        out.append(val.as_str());
    }
    push_char(out, '\n');
    proof {
        let lv = lines_view(lines@);
        let pv = rows_view(pairs@);
        let left = if (i as int) < lv.len() {
            lv[i as int] + spaces(sat_sub(logo_width as nat, byte_len(lv[i as int]))) + "  "@
        } else {
            spaces((logo_width + 2) as nat)
        };
        assert(mid =~= before + left);
        assert(out@ =~= before + logo_row(lv, logo_width as nat, pv, col as nat, i as int));
    }
}

/// The logo view: the logo beside the report's rows, one line per logo line
/// or row, whichever are more, each ending in a newline.
pub fn logo_text(lines: &Vec<String>, logo_width: usize, pairs: &Vec<(String, String)>, term_width: usize) -> (out: String)
    requires
        logo_width + 2 <= usize::MAX,
    ensures
        out@ == logo_rows(
            lines_view(lines@),
            logo_width as nat,
            rows_view(pairs@),
            info_column(logo_width as nat, term_width as nat),
            if lines.len() >= pairs.len() { lines.len() as nat } else { pairs.len() as nat },
        ),
{
    let wide: usize = logo_width + 2;
    let rest: usize = if term_width > wide { term_width - wide } else { 0 };
    let col: usize = if wide <= rest { wide } else { rest };
    let rows: usize = if lines.len() >= pairs.len() { lines.len() } else { pairs.len() };
    let ghost lv = lines_view(lines@);
    let ghost pv = rows_view(pairs@);
    let mut out = String::new();
    let mut i: usize = 0;
    while i < rows
        invariant
            i <= rows,
            rows == (if lines.len() >= pairs.len() { lines.len() } else { pairs.len() }),
            lv == lines_view(lines@),
            pv == rows_view(pairs@),
            wide == logo_width + 2,
            col == info_column(logo_width as nat, term_width as nat),
            out@ == logo_rows(lv, logo_width as nat, pv, col as nat, i as nat),
        decreases rows - i,
    {
        push_logo_row(&mut out, lines, logo_width, pairs, col, i);
        i = i + 1;
    }
    out
}

} // verus!
