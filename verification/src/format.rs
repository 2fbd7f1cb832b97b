//! Text the command-line client prints or reads: uptimes, truncated cells,
//! `#rrggbb` colours, decimal user ids, and the daemon's socket path.

use vstd::prelude::*;
use vstd::arithmetic::div_mod::lemma_fundamental_div_mod_converse;
use crate::text::{chars_of, decimal, push_char, is_space, push_chars, push_decimal, trim, trim_bounds};
use vstd::string::{StringExecFns, StringSliceAdditionalSpecFns};
use vstd::utf8::{decode_utf8, encode_utf8, is_char_boundary};

verus! {

// ── Uptime ───────────────────────────────────────────────────────────────────

/// An uptime in words: days and hours when it is a day or more, hours and
/// minutes when it is an hour or more, else minutes.
pub open spec fn uptime_text(seconds: nat) -> Seq<char> {
    let days = seconds / 86400;
    let hours = (seconds % 86400) / 3600;
    let mins = (seconds % 3600) / 60;
    if days > 0 {
        decimal(days) + " days, "@ + decimal(hours) + " hours"@
    } else if hours > 0 {
        decimal(hours) + " hours, "@ + decimal(mins) + " mins"@
    } else {
        decimal(mins) + " mins"@
    }
}

/// Formats an uptime given in seconds.
pub fn format_uptime(seconds: u64) -> (r: String)
    ensures
        r@ == uptime_text(seconds as nat),
{
    let days = seconds / 86400;
    let hours = (seconds % 86400) / 3600;
    let mins = (seconds % 3600) / 60;
    let mut r = String::new();
    if days > 0 {
        push_decimal(&mut r, days);
        r.append(" days, ");
        push_decimal(&mut r, hours);
        r.append(" hours");
    } else if hours > 0 {
        push_decimal(&mut r, hours);
        r.append(" hours, ");
        push_decimal(&mut r, mins);
        r.append(" mins");
    } else {
        push_decimal(&mut r, mins);
        r.append(" mins");
    }
    r
}

/// An uptime of at least a day reads `<d> days, <h> hours`, where `d` is the
/// number of whole days and `h` the whole hours left over after them.
pub proof fn law_uptime_days(seconds: nat, d: nat, h: nat)
    requires
        d >= 1,
        h < 24,
        d * 86400 + h * 3600 <= seconds < d * 86400 + (h + 1) * 3600,
    ensures
        uptime_text(seconds) == decimal(d) + " days, "@ + decimal(h) + " hours"@,
{
    let r = seconds - d * 86400;
    lemma_fundamental_div_mod_converse(seconds as int, 86400, d as int, r);
    lemma_fundamental_div_mod_converse(r, 3600, h as int, r - h * 3600);
}

/// An uptime of at least an hour but under a day reads `<h> hours, <m>
/// mins`, where `h` is the number of whole hours and `m` the whole minutes
/// left over after them.
pub proof fn law_uptime_hours(seconds: nat, h: nat, m: nat)
    requires
        1 <= h < 24,
        m < 60,
        h * 3600 + m * 60 <= seconds < h * 3600 + (m + 1) * 60,
    ensures
        uptime_text(seconds) == decimal(h) + " hours, "@ + decimal(m) + " mins"@,
{
    lemma_fundamental_div_mod_converse(seconds as int, 86400, 0, seconds as int);
    lemma_fundamental_div_mod_converse(seconds as int, 3600, h as int, seconds - h * 3600);
    let r = seconds - h * 3600;
    lemma_fundamental_div_mod_converse(r, 60, m as int, r - m * 60);
}

/// An uptime under an hour reads `<m> mins`, the number of whole minutes.
pub proof fn law_uptime_minutes(seconds: nat, m: nat)
    requires
        m < 60,
        m * 60 <= seconds < (m + 1) * 60,
    ensures
        uptime_text(seconds) == decimal(m) + " mins"@,
{
    lemma_fundamental_div_mod_converse(seconds as int, 86400, 0, seconds as int);
    lemma_fundamental_div_mod_converse(seconds as int, 3600, 0, seconds as int);
    lemma_fundamental_div_mod_converse(seconds as int, 60, m as int, seconds - m * 60);
}

// ── Table cells ──────────────────────────────────────────────────────────────

/// A cell longer than `max` bytes is cut to its first `max - 1` bytes (none
/// when `max` is 0) and ends in an ellipsis; a shorter one is kept whole.
pub open spec fn truncated(s: Seq<char>, max: nat) -> Seq<char> {
    let bytes = encode_utf8(s);
    if bytes.len() > max {
        let keep = if max == 0 { 0 } else { max - 1 };
        decode_utf8(bytes.subrange(0, keep as int)) + "…"@
    } else {
        s
    }
}

/// Shortens `s` for a table cell of at most `max` bytes (plus the ellipsis).
pub fn truncate(s: &str, max: usize) -> (r: String)
    requires
        s.spec_bytes().len() <= usize::MAX,
        s.spec_bytes().len() > max ==> is_char_boundary(
            s.spec_bytes(),
            (if max == 0 { 0 } else { max - 1 }) as int,
        ),
    ensures
        r@ == truncated(s@, max as nat),
{
    if s.len() > max {
        let keep = if max == 0 { 0 } else { max - 1 };
        let (head, _) = s.split_at(keep);
        proof {
            vstd::utf8::encode_utf8_decode_utf8(head@);
            assert(head.spec_bytes() == encode_utf8(head@));
            assert(head@ == decode_utf8(s.spec_bytes().subrange(0, keep as int)));
            assert(s.spec_bytes() == encode_utf8(s@));
        }
        let mut r = String::from_str(head);
        r.append("…");
        assert(r@ == head@ + "…"@);
        assert(encode_utf8(s@).len() > max);
        assert(r@ == truncated(s@, max as nat));
        r
    } else {
        assert(s.spec_bytes() == encode_utf8(s@));
        String::from_str(s)
    }
}

// ── Numbers ──────────────────────────────────────────────────────────────────

/// The value of a digit character in base 16 (or 10), or `None`.
pub open spec fn digit_value(c: char, radix: nat) -> Option<nat> {
    let n = c as u32;
    let v: int = if 0x30 <= n <= 0x39 {
        n - 0x30
    } else if 0x61 <= n <= 0x7a {
        n - 0x61 + 10
    } else if 0x41 <= n <= 0x5a {
        n - 0x41 + 10
    } else {
        100
    };
    if v < radix {
        Some(v as nat)
    } else {
        None
    }
}

/// All characters of `s` are digits in `radix`.
pub open spec fn all_digits(s: Seq<char>, radix: nat) -> bool {
    forall|i: int| 0 <= i < s.len() ==> (#[trigger] digit_value(s[i], radix)) is Some
}

/// The number the digits of `s` spell in `radix`.
pub open spec fn digits_value(s: Seq<char>, radix: nat) -> nat
    decreases s.len(),
{
    if s.len() == 0 {
        0
    } else {
        digits_value(s.drop_last(), radix) * radix + digit_value(s.last(), radix).unwrap()
    }
}

/// What `from_str_radix` makes of `s` for an unsigned type whose largest
/// value is `max`: an optional `+`, then at least one digit, within range.
pub open spec fn parse_unsigned(s: Seq<char>, radix: nat, max: nat) -> Option<nat> {
    let body = if s.len() > 0 && s[0] == '+' { s.drop_first() } else { s };
    if body.len() > 0 && all_digits(body, radix) && digits_value(body, radix) <= max {
        Some(digits_value(body, radix))
    } else {
        None
    }
}

fn digit_of(c: char, radix: u64) -> (r: Option<u64>)
    requires
        radix == 10 || radix == 16,
    ensures
        match r {
            Some(v) => digit_value(c, radix as nat) == Some(v as nat),
            None => digit_value(c, radix as nat) is None,
        },
{
    let n = c as u32;
    let v: u64 = if 0x30 <= n && n <= 0x39 {
        (n - 0x30) as u64
    } else if 0x61 <= n && n <= 0x7a {
        (n - 0x61 + 10) as u64
    } else if 0x41 <= n && n <= 0x5a {
        (n - 0x41 + 10) as u64
    } else {
        100
    };
    if v < radix {
        Some(v)
    } else {
        None
    }
}

proof fn lemma_digits_value_mono(s: Seq<char>, radix: nat)
    requires
        radix >= 2,
        s.len() > 0,
        all_digits(s, radix),
    ensures
        digits_value(s.drop_last(), radix) <= digits_value(s, radix),
{
    let p = digits_value(s.drop_last(), radix);
    assert(p * radix >= p) by (nonlinear_arith)
        requires
            radix >= 2,
    ;
}

/// Parses `v[lo..hi]` as `from_str_radix` does for an unsigned type with
/// largest value `max` (`u8` or `u32`), in base 10 or 16.
pub fn parse_unsigned_range(v: &[char], lo: usize, hi: usize, radix: u64, max: u64) -> (r: Option<u64>)
    requires
        lo <= hi <= v@.len(),
        radix == 10 || radix == 16,
        max <= 0xffff_ffff,
    ensures
        match r {
            Some(x) => parse_unsigned(v@.subrange(lo as int, hi as int), radix as nat, max as nat) == Some(
                x as nat,
            ),
            None => parse_unsigned(v@.subrange(lo as int, hi as int), radix as nat, max as nat) is None,
        },
{
    let ghost s = v@.subrange(lo as int, hi as int);
    let ghost full = parse_unsigned(s, radix as nat, max as nat);
    let start = if hi > lo && v[lo] == '+' { lo + 1 } else { lo };
    let ghost body = v@.subrange(start as int, hi as int);
    proof {
        if hi > lo && v@[lo as int] == '+' {
            assert(s[0] == '+');
            assert(body == s.drop_first());
        } else {
            assert(body == s);
        }
    }
    if start == hi {
        return None;
    }
    let mut acc: u64 = 0;
    let mut i = start;
    while i < hi
        invariant
            start <= i <= hi <= v@.len(),
            body == v@.subrange(start as int, hi as int),
            body.len() > 0,
            full == (if all_digits(body, radix as nat) && digits_value(body, radix as nat) <= max {
                Some(digits_value(body, radix as nat))
            } else {
                None
            }),
            full == parse_unsigned(v@.subrange(lo as int, hi as int), radix as nat, max as nat),
            radix == 10 || radix == 16,
            max <= 0xffff_ffff,
            all_digits(v@.subrange(start as int, i as int), radix as nat),
            acc == digits_value(v@.subrange(start as int, i as int), radix as nat),
            acc <= max,
        decreases hi - i,
    {
        let ghost pre = v@.subrange(start as int, i as int);
        let ghost next = v@.subrange(start as int, i + 1);
        proof {
            assert(next.drop_last() == pre);
            assert(next.last() == v@[i as int]);
        }
        match digit_of(v[i], radix) {
            Some(d) => {
                proof {
                    assert forall|k: int| 0 <= k < next.len() implies (#[trigger] digit_value(next[k], radix as nat)) is Some by {
                        if k < pre.len() {
                            assert(next[k] == pre[k]);
                        }
                    }
                    assert(acc * radix <= 0xffff_ffff * 16) by (nonlinear_arith)
                        requires acc <= 0xffff_ffff, radix <= 16;
                }
                let x = acc * radix + d;
                if x > max {
                    proof {
                        // Every longer digit string is at least as large.
                        assert(digits_value(next, radix as nat) == x);
                        if all_digits(body, radix as nat) {
                            lemma_prefix_bound(body, (i - start + 1) as int, radix as nat);
                            assert(body.subrange(0, i - start + 1) == next);
                        }
                    }
                    return None;
                }
                acc = x;
            },
            None => {
                proof {
                    assert(body[i - start] == v@[i as int]);
                }
                return None;
            },
        }
        i = i + 1;
    }
    Some(acc)
}

proof fn lemma_prefix_bound(s: Seq<char>, k: int, radix: nat)
    requires
        radix >= 2,
        0 < k <= s.len(),
        all_digits(s, radix),
    ensures
        digits_value(s.subrange(0, k), radix) <= digits_value(s, radix),
    decreases s.len() - k,
{
    if k < s.len() {
        lemma_prefix_bound(s.drop_last(), k, radix);
        assert(s.drop_last().subrange(0, k) == s.subrange(0, k));
        assert forall|i: int| 0 <= i < s.drop_last().len() implies (#[trigger] digit_value(s.drop_last()[i], radix)) is Some by {
            assert(s.drop_last()[i] == s[i]);
        }
        lemma_digits_value_mono(s, radix);
    } else {
        assert(s.subrange(0, k) == s);
    }
}


// ── Colours ──────────────────────────────────────────────────────────────────

/// `b` without its leading `'#'` bytes.
pub open spec fn strip_hashes(b: Seq<u8>) -> Seq<u8>
    decreases b.len(),
{
    if b.len() > 0 && b[0] == 0x23 {
        strip_hashes(b.drop_first())
    } else {
        b
    }
}

/// The value of a hexadecimal digit byte, or `None`.
pub open spec fn hex_digit(b: u8) -> Option<nat> {
    if 0x30 <= b <= 0x39 {
        Some((b - 0x30) as nat)
    } else if 0x61 <= b <= 0x66 {
        Some((b - 0x61 + 10) as nat)
    } else if 0x41 <= b <= 0x46 {
        Some((b - 0x41 + 10) as nat)
    } else {
        None
    }
}

/// What `u8::from_str_radix(_, 16)` makes of the two bytes `a`, `b`: a `'+'`
/// and one digit, or two digits.
pub open spec fn hex_pair(a: u8, b: u8) -> Option<u8> {
    if a == 0x2b {
        match hex_digit(b) {
            Some(d) => Some(d as u8),
            None => None,
        }
    } else {
        match (hex_digit(a), hex_digit(b)) {
            (Some(x), Some(y)) => Some((x * 16 + y) as u8),
            _ => None,
        }
    }
}

/// The colour that `#rrggbb` text names: after its leading `'#'`s, exactly six
/// bytes that read as three hexadecimal pairs.
pub open spec fn hex_rgb(bytes: Seq<u8>) -> Option<(u8, u8, u8)> {
    let h = strip_hashes(bytes);
    if h.len() != 6 {
        None
    } else {
        match (hex_pair(h[0], h[1]), hex_pair(h[2], h[3]), hex_pair(h[4], h[5])) {
            (Some(r), Some(g), Some(b)) => Some((r, g, b)),
            _ => None,
        }
    }
}

fn hex_digit_of(b: u8) -> (r: Option<u8>)
    ensures
        match r {
            Some(d) => hex_digit(b) == Some(d as nat) && d < 16,
            None => hex_digit(b) is None,
        },
{
    if 0x30 <= b && b <= 0x39 {
        Some(b - 0x30)
    } else if 0x61 <= b && b <= 0x66 {
        Some(b - 0x61 + 10)
    } else if 0x41 <= b && b <= 0x46 {
        Some(b - 0x41 + 10)
    } else {
        None
    }
}

fn hex_pair_of(a: u8, b: u8) -> (r: Option<u8>)
    ensures
        r == hex_pair(a, b),
{
    if a == 0x2b {
        hex_digit_of(b)
    } else {
        match (hex_digit_of(a), hex_digit_of(b)) {
            (Some(x), Some(y)) => Some(x * 16 + y),
            _ => None,
        }
    }
}

/// Reads a `#rrggbb` colour as red, green and blue.
pub fn parse_hex_rgb(hex: &str) -> (r: Option<(u8, u8, u8)>)
    requires
        strip_hashes(hex.spec_bytes()).len() == 6 ==> is_char_boundary(
            strip_hashes(hex.spec_bytes()),
            2,
        ) && is_char_boundary(strip_hashes(hex.spec_bytes()), 4),
    ensures
        r == hex_rgb(hex.spec_bytes()),
{
    let b = hex.as_bytes();
    let mut k: usize = 0;
    proof {
        assert(b@.subrange(0, b@.len() as int) == b@);
    }
    while k < b.len() && b[k] == 0x23
        invariant
            k <= b@.len(),
            strip_hashes(b@.subrange(k as int, b@.len() as int)) == strip_hashes(b@),
        decreases b.len() - k,
    {
        proof {
            let t = b@.subrange(k as int, b@.len() as int);
            assert(t.drop_first() == b@.subrange(k + 1, b@.len() as int));
        }
        k = k + 1;
    }
    proof {
        assert(b@.subrange(0, b@.len() as int) == b@);
    }
    let ghost h = b@.subrange(k as int, b@.len() as int);
    assert(strip_hashes(h) == h);
    if b.len() - k != 6 {
        return None;
    }
    let red = hex_pair_of(b[k], b[k + 1]);
    let green = hex_pair_of(b[k + 2], b[k + 3]);
    let blue = hex_pair_of(b[k + 4], b[k + 5]);
    assert(h[0] == b@[k as int] && h[1] == b@[k + 1] && h[2] == b@[k + 2] && h[3] == b@[k + 3]
        && h[4] == b@[k + 4] && h[5] == b@[k + 5]);
    match (red, green, blue) {
        (Some(r), Some(g), Some(bl)) => Some((r, g, bl)),
        _ => None,
    }
}

// ── Socket path ──────────────────────────────────────────────────────────────

/// The relative path `name` appended to the directory `dir` as `Path::join`
/// does: a separator is added unless `dir` is empty or already ends in one.
pub open spec fn join_path(dir: Seq<char>, name: Seq<char>) -> Seq<char> {
    if dir.len() == 0 {
        name
    } else if dir.last() == '/' {
        dir + name
    } else {
        dir + seq!['/'] + name
    }
}

/// The daemon's socket: `CRAWL_SOCKET` when set; else `crawl.sock` in
/// `XDG_RUNTIME_DIR`; else in the user's `/run/user/<uid>`; else in `/tmp`.
pub open spec fn default_socket(
    crawl_socket: Option<Seq<char>>,
    runtime_dir: Option<Seq<char>>,
    uid: Option<u32>,
) -> Seq<char> {
    match crawl_socket {
        Some(p) => p,
        None => match runtime_dir {
            Some(d) => join_path(d, "crawl.sock"@),
            None => match uid {
                Some(u) => "/run/user/"@ + decimal(u as nat) + "/crawl.sock"@,
                None => "/tmp/crawl.sock"@,
            },
        },
    }
}

/// Resolves the daemon's socket path from the `CRAWL_SOCKET` and
/// `XDG_RUNTIME_DIR` variables and the user id, when each is known.
pub fn socket_path_from(
    crawl_socket: Option<String>,
    runtime_dir: Option<String>,
    uid: Option<u32>,
) -> (r: String)
    ensures
        r@ == default_socket(
            match crawl_socket { Some(s) => Some(s@), None => None },
            match runtime_dir { Some(s) => Some(s@), None => None },
            uid,
        ),
{
    match crawl_socket {
        Some(p) => p,
        None => match runtime_dir {
            Some(d) => {
                let v = chars_of(d.as_str());
                let mut r = d;
                if v.len() > 0 && v[v.len() - 1] != '/' {
                    push_char(&mut r, '/');
                }
                r.append("crawl.sock");
                r
            },
            None => match uid {
                Some(u) => {
                    let mut r = String::from_str("/run/user/");
                    push_decimal(&mut r, u as u64);
                    r.append("/crawl.sock");
                    r
                },
                None => String::from_str("/tmp/crawl.sock"),
            },
        },
    }
}

/// The relative path `name` appended to the directory `dir`.
pub fn join_dir(dir: String, name: &str) -> (r: String)
    ensures
        r@ == join_path(dir@, name@),
{
    let v = chars_of(dir.as_str());
    let mut r = dir;
    if v.len() > 0 && v[v.len() - 1] != '/' {
        push_char(&mut r, '/');
    }
    r.append(name);
    r
}

/// The user id written in `/proc/self/uid`: the trimmed text as a decimal `u32`.
pub fn parse_uid(content: &str) -> (r: Option<u32>)
    ensures
        match r {
            Some(u) => parse_unsigned(trim(content@), 10, 0xffff_ffff) == Some(u as nat),
            None => parse_unsigned(trim(content@), 10, 0xffff_ffff) is None,
        },
{
    let v = chars_of(content);
    let (lo, hi) = trim_bounds(&v, 0, v.len());
    assert(v@.subrange(0, v@.len() as int) == v@);
    match parse_unsigned_range(&v, lo, hi, 10, 0xffff_ffff) {
        Some(x) => Some(x as u32),
        None => None,
    }
}

/// The user id the command-line client takes from the `UID` variable: its
/// value as a decimal `u32`, or 1000 when it is unset or does not parse.
pub fn uid_or_default(uid_var: Option<&str>) -> (r: u32)
    ensures
        r == match uid_var {
            Some(s) => match parse_unsigned(s@, 10, 0xffff_ffff) {
                Some(u) => u as u32,
                None => 1000u32,
            },
            None => 1000u32,
        },
{
    match uid_var {
        Some(s) => {
            let v = chars_of(s);
            assert(v@.subrange(0, v@.len() as int) == v@);
            match parse_unsigned_range(&v, 0, v.len(), 10, 0xffff_ffff) {
                Some(x) => x as u32,
                None => 1000,
            }
        },
        None => 1000,
    }
}

/// The socket the daemon listens on by default: `crawl.sock` in its runtime directory.
pub fn daemon_socket_path(runtime_dir: &str) -> (r: String)
    ensures
        r@ == runtime_dir@ + "/crawl.sock"@,
{
    let mut r = String::from_str(runtime_dir);
    r.append("/crawl.sock");
    r
}

} // verus!
