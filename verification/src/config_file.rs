//! Reading and rewriting one `section.key` entry of the daemon's TOML-like
//! configuration text, line by line, as the `Get` and `Set` commands do.

use vstd::prelude::*;
use crate::text::{chars_of, push_char, is_space, trim_start, trim_end, push_chars, range_starts_with, starts_with, trim, trim_bounds};

verus! {

// ── Lines ────────────────────────────────────────────────────────────────────

/// The pieces of `s` between `'\n'` characters; there is always at least one.
pub open spec fn segments(s: Seq<char>) -> Seq<Seq<char>>
    decreases s.len(),
{
    if s.len() == 0 {
        seq![Seq::<char>::empty()]
    } else {
        let prev = segments(s.drop_last());
        if s.last() == '\n' {
            prev.push(Seq::<char>::empty())
        } else {
            prev.update(prev.len() - 1, prev.last().push(s.last()))
        }
    }
}

/// A line that ended in `"\r\n"` loses its `'\r'`.
pub open spec fn strip_cr(l: Seq<char>) -> Seq<char> {
    if l.len() > 0 && l.last() == '\r' {
        l.drop_last()
    } else {
        l
    }
}

/// The lines of `s` as `str::lines` yields them: split at `'\n'`, a `'\r'`
/// before the `'\n'` dropped, and no empty line after a final `'\n'`.
pub open spec fn lines(s: Seq<char>) -> Seq<Seq<char>> {
    let segs = segments(s);
    let body = segs.drop_last().map_values(|l: Seq<char>| strip_cr(l));
    if segs.last().len() > 0 {
        body.push(segs.last())
    } else {
        body
    }
}

/// The lines joined with `'\n'` between them, as `[String]::join("\n")` does.
pub open spec fn join_lines(ls: Seq<Seq<char>>) -> Seq<char>
    decreases ls.len(),
{
    if ls.len() == 0 {
        Seq::<char>::empty()
    } else if ls.len() == 1 {
        ls[0]
    } else {
        join_lines(ls.drop_last()) + seq!['\n'] + ls.last()
    }
}

proof fn lemma_segments_len(s: Seq<char>)
    ensures
        segments(s).len() >= 1,
    decreases s.len(),
{
    if s.len() > 0 {
        lemma_segments_len(s.drop_last());
    }
}

/// The bounds in `v` of each line of `v`.
pub(crate) fn line_ranges(v: &[char]) -> (r: Vec<(usize, usize)>)
    ensures
        r@.len() == lines(v@).len(),
        forall|i: int| 0 <= i < r@.len() ==> #[trigger] r@[i].0 <= r@[i].1 <= v@.len(),
        forall|i: int|
            0 <= i < r@.len() ==> #[trigger] lines(v@)[i] == v@.subrange(
                r@[i].0 as int,
                r@[i].1 as int,
            ),
{
    let mut r: Vec<(usize, usize)> = Vec::new();
    let mut start: usize = 0;
    let mut k: usize = 0;
    proof {
        assert(v@.subrange(0, 0) == Seq::<char>::empty());
    }
    while k < v.len()
        invariant
            start <= k <= v@.len(),
            segments(v@.subrange(0, k as int)).len() == r@.len() + 1,
            segments(v@.subrange(0, k as int)).last() == v@.subrange(start as int, k as int),
            forall|i: int| 0 <= i < r@.len() ==> #[trigger] r@[i].0 <= r@[i].1 <= v@.len(),
            forall|i: int|
                0 <= i < r@.len() ==> #[trigger] strip_cr(
                    segments(v@.subrange(0, k as int))[i],
                ) == v@.subrange(r@[i].0 as int, r@[i].1 as int),
        decreases v.len() - k,
    {
        let ghost prev = segments(v@.subrange(0, k as int));
        let ghost old_r = r@;
        proof {
            lemma_segments_len(v@.subrange(0, k as int));
            assert(v@.subrange(0, k + 1).drop_last() == v@.subrange(0, k as int));
            assert(v@.subrange(0, k + 1).last() == v@[k as int]);
        }
        if v[k] == '\n' {
            let end = if k > start && v[k - 1] == '\r' { k - 1 } else { k };
            proof {
                let seg = v@.subrange(start as int, k as int);
                if k > start && v@[k - 1] == '\r' {
                    assert(seg.last() == '\r');
                    assert(strip_cr(seg) == seg.drop_last());
                    assert(seg.drop_last() == v@.subrange(start as int, k - 1));
                } else {
                    assert(strip_cr(seg) == seg);
                }
            }
            r.push((start, end));
            assert forall|i: int| 0 <= i < r@.len() implies #[trigger] r@[i].0 <= r@[i].1
                <= v@.len() by {
                if i < r@.len() - 1 {
                    assert(r@[i] == old_r[i]);
                }
            }
            start = k + 1;
            k = k + 1;
            proof {
                let cur = segments(v@.subrange(0, k as int));
                assert(cur == prev.push(Seq::<char>::empty()));
                assert(v@.subrange(start as int, k as int) == Seq::<char>::empty());
                assert forall|i: int| 0 <= i < r@.len() implies #[trigger] strip_cr(cur[i]) == v@.subrange(
                    r@[i].0 as int,
                    r@[i].1 as int,
                ) by {
                    if i < r@.len() - 1 {
                        assert(cur[i] == prev[i]);
                        assert(r@[i] == old_r[i]);
                        assert(strip_cr(prev[i]) == v@.subrange(old_r[i].0 as int, old_r[i].1 as int));
                    } else {
                        assert(cur[i] == prev.last());
                    }
                }
            }
        } else {
            k = k + 1;
            proof {
                let cur = segments(v@.subrange(0, k as int));
                assert(cur == prev.update(prev.len() - 1, prev.last().push(v@[k - 1])));
                assert(v@.subrange(start as int, k as int) == v@.subrange(
                    start as int,
                    k - 1,
                ).push(v@[k - 1]));
                assert forall|i: int| 0 <= i < r@.len() implies #[trigger] strip_cr(cur[i]) == v@.subrange(
                    r@[i].0 as int,
                    r@[i].1 as int,
                ) by {
                    assert(cur[i] == prev[i]);
                    assert(strip_cr(prev[i]) == v@.subrange(old_r[i].0 as int, old_r[i].1 as int));
                }
            }
        }
    }
    proof {
        assert(v@.subrange(0, v@.len() as int) == v@);
    }
    let ghost segs = segments(v@);
    let ghost body = segs.drop_last().map_values(|l: Seq<char>| strip_cr(l));
    let ghost old_r = r@;
    proof {
        lemma_segments_len(v@);
        assert forall|i: int| 0 <= i < old_r.len() implies #[trigger] body[i] == v@.subrange(
            old_r[i].0 as int,
            old_r[i].1 as int,
        ) by {
            assert(body[i] == strip_cr(segs[i]));
            assert(strip_cr(segments(v@.subrange(0, v@.len() as int))[i]) == v@.subrange(
                old_r[i].0 as int,
                old_r[i].1 as int,
            ));
        }
    }
    if start < v.len() {
        r.push((start, v.len()));
        proof {
            assert(lines(v@) == body.push(segs.last()));
            assert forall|i: int| 0 <= i < r@.len() implies #[trigger] lines(v@)[i] == v@.subrange(r@[i].0 as int, r@[i].1 as int) by {
                if i < r@.len() - 1 {
                    assert(lines(v@)[i] == body[i]);
                    assert(r@[i] == old_r[i]);
                } else {
                    assert(segs.last() == v@.subrange(start as int, v@.len() as int));
                }
            }
        }
    } else {
        proof {
            assert(lines(v@) == body);
            assert forall|i: int| 0 <= i < r@.len() implies #[trigger] lines(v@)[i] == v@.subrange(r@[i].0 as int, r@[i].1 as int) by {
                assert(lines(v@)[i] == body[i]);
            }
        }
    }
    r
}


// ── Keys and entries ─────────────────────────────────────────────────────────

/// The index of the first `c` in `s`, or `-1`.
pub open spec fn find_first(s: Seq<char>, c: char) -> int
    decreases s.len(),
{
    if s.len() == 0 {
        -1
    } else if s[0] == c {
        0
    } else {
        let r = find_first(s.drop_first(), c);
        if r < 0 {
            -1
        } else {
            r + 1
        }
    }
}

proof fn lemma_find_first(s: Seq<char>, c: char, r: int)
    requires
        -1 <= r < s.len(),
        r >= 0 ==> s[r] == c,
        forall|k: int| 0 <= k < s.len() && (r < 0 || k < r) ==> #[trigger] s[k] != c,
    ensures
        find_first(s, c) == r,
    decreases s.len(),
{
    if s.len() > 0 && r != 0 {
        let t = s.drop_first();
        assert forall|k: int| 0 <= k < t.len() && (r - 1 < 0 || k < r - 1) implies #[trigger] t[k]
            != c by {
            assert(t[k] == s[k + 1]);
        }
        if r > 0 {
            assert(t[r - 1] == s[r]);
            lemma_find_first(t, c, r - 1);
        } else {
            lemma_find_first(t, c, -1);
        }
        assert(s[0] != c);
    }
}

proof fn lemma_find_first_found(s: Seq<char>, c: char)
    ensures
        -1 <= find_first(s, c) < s.len(),
        find_first(s, c) >= 0 ==> s[find_first(s, c)] == c,
        find_first(s, c) < 0 ==> forall|k: int| 0 <= k < s.len() ==> #[trigger] s[k] != c,
        forall|k: int| 0 <= k < find_first(s, c) ==> #[trigger] s[k] != c,
    decreases s.len(),
{
    if s.len() > 0 && s[0] != c {
        let t = s.drop_first();
        lemma_find_first_found(t, c);
        let r = find_first(s, c);
        assert forall|k: int| 0 <= k < s.len() && (r < 0 || k < r) implies #[trigger] s[k] != c by {
            if k > 0 {
                assert(s[k] == t[k - 1]);
            }
        }
        if r >= 0 {
            assert(s[r] == t[r - 1]);
        }
    }
}

/// The section part of a `section.name` key: what comes before the first
/// `'.'`, or the whole key when it has none.
pub open spec fn key_section(key: Seq<char>) -> Seq<char> {
    let d = find_first(key, '.');
    if d < 0 {
        key
    } else {
        key.subrange(0, d)
    }
}

/// The name part of a `section.name` key: what comes between the first and
/// the second `'.'`, or the whole key when it has no `'.'`.
pub open spec fn key_name(key: Seq<char>) -> Seq<char> {
    let d = find_first(key, '.');
    if d < 0 {
        key
    } else {
        let rest = key.subrange(d + 1, key.len() as int);
        let e = find_first(rest, '.');
        if e < 0 {
            rest
        } else {
            rest.subrange(0, e)
        }
    }
}

/// The header line `[section]` that opens the key's section.
pub open spec fn section_header(key: Seq<char>) -> Seq<char> {
    seq!['['] + key_section(key) + seq![']']
}

/// A trimmed line that starts with `'['` and ends with `']'` opens a section.
pub open spec fn is_header_like(t: Seq<char>) -> bool {
    t.len() > 0 && t[0] == '[' && t.last() == ']'
}

/// A trimmed line holds the entry `name` when it starts with `name` and has an `'='`.
pub open spec fn entry_matches(t: Seq<char>, name: Seq<char>) -> bool {
    starts_with(t, name) && find_first(t, '=') >= 0
}

/// What follows the first `'='` of a line, trimmed.
pub open spec fn entry_value(t: Seq<char>) -> Seq<char> {
    trim(t.subrange(find_first(t, '=') + 1, t.len() as int))
}

/// The value a lookup finds, scanning the lines from `i` on: inside the
/// section, the first matching entry; `None` once the section is left.
pub open spec fn get_scan(
    ls: Seq<Seq<char>>,
    i: int,
    in_sec: bool,
    header: Seq<char>,
    name: Seq<char>,
) -> Option<Seq<char>>
    decreases ls.len() - i,
{
    if i < 0 || i >= ls.len() {
        None
    } else {
        let t = trim(ls[i]);
        if t == header {
            get_scan(ls, i + 1, true, header, name)
        } else if in_sec && is_header_like(t) {
            None
        } else if in_sec && entry_matches(t, name) {
            Some(entry_value(t))
        } else {
            get_scan(ls, i + 1, in_sec, header, name)
        }
    }
}

/// The line an update rewrites, scanning from `i` on: the first matching
/// entry inside any block headed by the section's header.
pub open spec fn set_scan(
    ls: Seq<Seq<char>>,
    i: int,
    in_sec: bool,
    header: Seq<char>,
    name: Seq<char>,
) -> Option<int>
    decreases ls.len() - i,
{
    if i < 0 || i >= ls.len() {
        None
    } else {
        let t = trim(ls[i]);
        if t == header {
            set_scan(ls, i + 1, true, header, name)
        } else if in_sec && is_header_like(t) {
            set_scan(ls, i + 1, false, header, name)
        } else if in_sec && entry_matches(t, name) {
            Some(i)
        } else {
            set_scan(ls, i + 1, in_sec, header, name)
        }
    }
}

/// The value of `key` in the configuration text, as the `Get` command reads it.
pub open spec fn config_value(content: Seq<char>, key: Seq<char>) -> Option<Seq<char>> {
    get_scan(lines(content), 0, false, section_header(key), key_name(key))
}

/// The line `name = value` that an update writes.
pub open spec fn entry_line(key: Seq<char>, value: Seq<char>) -> Seq<char> {
    key_name(key) + seq![' ', '=', ' '] + value
}

/// The configuration text after the `Set` command writes `value` for `key`,
/// or `None` when no line of the section holds the key.
pub open spec fn config_with_value(content: Seq<char>, key: Seq<char>, value: Seq<char>) -> Option<
    Seq<char>,
> {
    let ls = lines(content);
    match set_scan(ls, 0, false, section_header(key), key_name(key)) {
        Some(j) => Some(join_lines(ls.update(j, entry_line(key, value)))),
        None => None,
    }
}

// ── Executable scanning ──────────────────────────────────────────────────────

/// The position of the first `c` in `v[lo..hi]`.
pub(crate) fn find_in(v: &[char], lo: usize, hi: usize, c: char) -> (r: Option<usize>)
    requires
        lo <= hi <= v@.len(),
    ensures
        match r {
            Some(p) => lo <= p < hi && find_first(v@.subrange(lo as int, hi as int), c) == p - lo,
            None => find_first(v@.subrange(lo as int, hi as int), c) == -1,
        },
{
    let ghost s = v@.subrange(lo as int, hi as int);
    let mut p = lo;
    while p < hi
        invariant
            lo <= p <= hi <= v@.len(),
            s == v@.subrange(lo as int, hi as int),
            forall|q: int| lo <= q < p ==> v@[q] != c,
        decreases hi - p,
    {
        if v[p] == c {
            proof {
                assert forall|k: int| 0 <= k < s.len() && k < p - lo implies #[trigger] s[k]
                    != c by {
                    assert(s[k] == v@[lo + k]);
                }
                assert(s[p - lo] == v@[p as int]);
                lemma_find_first(s, c, p - lo);
            }
            return Some(p);
        }
        p = p + 1;
    }
    proof {
        assert forall|k: int| 0 <= k < s.len() implies #[trigger] s[k] != c by {
            assert(s[k] == v@[lo + k]);
        }
        lemma_find_first(s, c, -1);
    }
    None
}

/// Whether `v[lo..hi]` equals `w`.
fn range_eq(v: &[char], lo: usize, hi: usize, w: &[char]) -> (res: bool)
    requires
        lo <= hi <= v@.len(),
    ensures
        res == (v@.subrange(lo as int, hi as int) == w@),
{
    if hi - lo != w.len() {
        return false;
    }
    let mut i: usize = 0;
    while i < w.len()
        invariant
            hi - lo == w@.len(),
            lo <= hi <= v@.len(),
            i <= w@.len(),
            forall|k: int| 0 <= k < i ==> v@[lo + k] == w@[k],
        decreases w.len() - i,
    {
        if v[lo + i] != w[i] {
            assert(v@.subrange(lo as int, hi as int)[i as int] != w@[i as int]);
            return false;
        }
        i = i + 1;
    }
    assert(v@.subrange(lo as int, hi as int) =~= w@);
    true
}

/// The section header and the entry name of `key`.
fn key_parts(k: &[char]) -> (r: (Vec<char>, Vec<char>))
    ensures
        r.0@ == section_header(k@),
        r.1@ == key_name(k@),
{
    let n = k.len();
    proof {
        assert(k@.subrange(0, n as int) == k@);
    }
    let (sec_hi, name_lo, name_hi) = match find_in(k, 0, n, '.') {
        None => (n, 0, n),
        Some(d) => {
            proof {
                assert(k@.subrange(d + 1, n as int) == k@.subrange(0, n as int).subrange(
                    d + 1,
                    n as int,
                ));
            }
            match find_in(k, d + 1, n, '.') {
                None => (d, d + 1, n),
                Some(e) => {
                    proof {
                        assert(k@.subrange(d + 1, e as int) == k@.subrange(d + 1, n as int).subrange(
                            0,
                            e - d - 1,
                        ));
                    }
                    (d, d + 1, e)
                },
            }
        },
    };
    let mut header: Vec<char> = Vec::new();
    header.push('[');
    let mut i: usize = 0;
    while i < sec_hi
        invariant
            sec_hi <= n == k@.len(),
            i <= sec_hi,
            header@ == seq!['['] + k@.subrange(0, i as int),
        decreases sec_hi - i,
    {
        header.push(k[i]);
        i = i + 1;
        assert(header@ == seq!['['] + k@.subrange(0, i as int));
    }
    header.push(']');
    let mut name: Vec<char> = Vec::new();
    let mut j = name_lo;
    while j < name_hi
        invariant
            name_lo <= j <= name_hi <= n == k@.len(),
            name@ == k@.subrange(name_lo as int, j as int),
        decreases name_hi - j,
    {
        name.push(k[j]);
        j = j + 1;
        assert(name@ == k@.subrange(name_lo as int, j as int));
    }
    (header, name)
}

/// Whether the trimmed line `v[lo..hi]` opens a section.
fn range_is_header_like(v: &[char], lo: usize, hi: usize) -> (res: bool)
    requires
        lo <= hi <= v@.len(),
    ensures
        res == is_header_like(v@.subrange(lo as int, hi as int)),
{
    hi > lo && v[lo] == '[' && v[hi - 1] == ']'
}

/// The value stored for `key` (`section.name`) in the configuration text,
/// found as the `Get` command finds it; `None` when the key is not there.
pub fn lookup_config_value(content: &str, key: &str) -> (res: Option<String>)
    ensures
        match res {
            Some(s) => config_value(content@, key@) == Some(s@),
            None => config_value(content@, key@) is None,
        },
{
    let v = chars_of(content);
    let k = chars_of(key);
    let (header, name) = key_parts(&k);
    let ranges = line_ranges(&v);
    let ghost ls = lines(v@);
    let mut in_section = false;
    let mut i: usize = 0;
    while i < ranges.len()
        invariant
            ls == lines(v@),
            v@ == content@,
            header@ == section_header(key@),
            name@ == key_name(key@),
            i <= ranges@.len() == ls.len(),
            forall|q: int| 0 <= q < ranges@.len() ==> #[trigger] ranges@[q].0 <= ranges@[q].1 <= v@.len(),
            forall|q: int|
                0 <= q < ranges@.len() ==> #[trigger] ls[q] == v@.subrange(
                    ranges@[q].0 as int,
                    ranges@[q].1 as int,
                ),
            get_scan(ls, 0, false, header@, name@) == get_scan(ls, i as int, in_section, header@, name@),
        decreases ranges.len() - i,
    {
        let (a, b) = ranges[i];
        let (lo, hi) = trim_bounds(&v, a, b);
        proof {
            assert(ls[i as int] == v@.subrange(a as int, b as int));
            assert(trim(ls[i as int]) == v@.subrange(lo as int, hi as int));
        }
        if range_eq(&v, lo, hi, &header) {
            in_section = true;
        } else if in_section && range_is_header_like(&v, lo, hi) {
            return None;
        } else if in_section && range_starts_with(&v, lo, hi, &name) {
            match find_in(&v, lo, hi, '=') {
                Some(e) => {
                    let (vl, vh) = trim_bounds(&v, e + 1, hi);
                    proof {
                        let t = v@.subrange(lo as int, hi as int);
                        assert(t.subrange(e - lo + 1, t.len() as int) == v@.subrange(
                            e + 1,
                            hi as int,
                        ));
                    }
                    let mut out = String::new();
                    push_chars(&mut out, &v, vl, vh);
                    return Some(out);
                },
                None => {},
            }
        }
        i = i + 1;
    }
    None
}


/// The configuration text with the entry for `key` (`section.name`) rewritten
/// to `name = value`, as the `Set` command writes it; `None` when no line of
/// the section holds the key.
pub fn set_config_value(content: &str, key: &str, value: &str) -> (res: Option<String>)
    ensures
        match res {
            Some(s) => config_with_value(content@, key@, value@) == Some(s@),
            None => config_with_value(content@, key@, value@) is None,
        },
{
    let v = chars_of(content);
    let k = chars_of(key);
    let val = chars_of(value);
    let (header, name) = key_parts(&k);
    let ranges = line_ranges(&v);
    let ghost ls = lines(v@);
    let mut in_section = false;
    let mut i: usize = 0;
    let mut found: Option<usize> = None;
    while found.is_none() && i < ranges.len()
        invariant
            ls == lines(v@),
            v@ == content@,
            header@ == section_header(key@),
            name@ == key_name(key@),
            i <= ranges@.len() == ls.len(),
            forall|q: int| 0 <= q < ranges@.len() ==> #[trigger] ranges@[q].0 <= ranges@[q].1 <= v@.len(),
            forall|q: int|
                0 <= q < ranges@.len() ==> #[trigger] ls[q] == v@.subrange(
                    ranges@[q].0 as int,
                    ranges@[q].1 as int,
                ),
            match found {
                None => set_scan(ls, 0, false, header@, name@) == set_scan(
                    ls,
                    i as int,
                    in_section,
                    header@,
                    name@,
                ),
                Some(jj) => jj < ls.len() && set_scan(ls, 0, false, header@, name@) == Some(jj as int),
            },
        decreases ranges.len() - i,
    {
        let (a, b) = ranges[i];
        let (lo, hi) = trim_bounds(&v, a, b);
        proof {
            assert(ls[i as int] == v@.subrange(a as int, b as int));
            assert(trim(ls[i as int]) == v@.subrange(lo as int, hi as int));
        }
        if range_eq(&v, lo, hi, &header) {
            in_section = true;
        } else if in_section && range_is_header_like(&v, lo, hi) {
            in_section = false;
        } else if in_section && range_starts_with(&v, lo, hi, &name) {
            match find_in(&v, lo, hi, '=') {
                Some(_) => {
                    found = Some(i);
                },
                None => {},
            }
        }
        i = i + 1;
    }
    let j = match found {
        Some(j) => j,
        None => {
            return None;
        },
    };
    // The new entry line `name = value`.
    let mut line: Vec<char> = name.clone();
    line.push(' ');
    line.push('=');
    line.push(' ');
    let mut p: usize = 0;
    while p < val.len()
        invariant
            p <= val@.len(),
            line@ == name@ + seq![' ', '=', ' '] + val@.subrange(0, p as int),
        decreases val.len() - p,
    {
        line.push(val[p]);
        p = p + 1;
        assert(line@ == name@ + seq![' ', '=', ' '] + val@.subrange(0, p as int));
    }
    assert(val@.subrange(0, val@.len() as int) == val@);
    let ghost ls2 = ls.update(j as int, line@);
    let mut out = String::new();
    let mut q: usize = 0;
    while q < ranges.len()
        invariant
            j < ranges@.len() == ls.len() == ls2.len(),
            ls2 == ls.update(j as int, line@),
            q <= ranges@.len(),
            forall|r: int| 0 <= r < ranges@.len() ==> #[trigger] ranges@[r].0 <= ranges@[r].1 <= v@.len(),
            forall|r: int|
                0 <= r < ranges@.len() ==> #[trigger] ls[r] == v@.subrange(
                    ranges@[r].0 as int,
                    ranges@[r].1 as int,
                ),
            out@ == join_lines(ls2.subrange(0, q as int)),
        decreases ranges.len() - q,
    {
        let ghost before = out@;
        if q > 0 {
            push_char(&mut out, '\n');
        }
        if q == j {
            push_chars(&mut out, &line, 0, line.len());
            assert(line@.subrange(0, line@.len() as int) == line@);
        } else {
            let (a, b) = ranges[q];
            push_chars(&mut out, &v, a, b);
        }
        proof {
            let t = ls2.subrange(0, q + 1);
            assert(t.drop_last() == ls2.subrange(0, q as int));
            assert(t.last() == ls2[q as int]);
            if q == 0 {
                assert(t.len() == 1);
            }
        }
        q = q + 1;
    }
    assert(ls2.subrange(0, ls2.len() as int) == ls2);
    Some(out)
}


// ── Reading back what was written ────────────────────────────────────────────

/// No `'\n'` occurs in `l`.
pub open spec fn single_line(l: Seq<char>) -> bool {
    forall|k: int| 0 <= k < l.len() ==> #[trigger] l[k] != '\n'
}

proof fn lemma_segments_concat(s: Seq<char>, l: Seq<char>)
    requires
        single_line(l),
    ensures
        segments(s + l) == segments(s).update(
            segments(s).len() - 1,
            segments(s).last() + l,
        ),
    decreases l.len(),
{
    lemma_segments_len(s);
    if l.len() == 0 {
        assert(s + l == s);
        assert(segments(s).last() + l == segments(s).last());
        assert(segments(s).update(segments(s).len() - 1, segments(s).last()) == segments(s));
    } else {
        let l0 = l.drop_last();
        let c = l.last();
        assert(single_line(l0)) by {
            assert forall|k: int| 0 <= k < l0.len() implies #[trigger] l0[k] != '\n' by {
                assert(l0[k] == l[k]);
            }
        }
        lemma_segments_concat(s, l0);
        assert((s + l).drop_last() == s + l0);
        assert((s + l).last() == c);
        assert(c == l[l.len() - 1]);
        lemma_segments_len(s + l0);
        assert(segments(s).last() + l == (segments(s).last() + l0).push(c));
    }
}

proof fn lemma_single_line_segments(s: Seq<char>)
    ensures
        forall|i: int| 0 <= i < segments(s).len() ==> single_line(#[trigger] segments(s)[i]),
    decreases s.len(),
{
    if s.len() > 0 {
        let p = s.drop_last();
        lemma_single_line_segments(p);
        lemma_segments_len(p);
        let prev = segments(p);
        if s.last() != '\n' {
            let nl = prev.last().push(s.last());
            assert(single_line(prev.last()));
            assert forall|k: int| 0 <= k < nl.len() implies #[trigger] nl[k] != '\n' by {
                if k < nl.len() - 1 {
                    assert(nl[k] == prev.last()[k]);
                }
            }
            assert forall|i: int| 0 <= i < segments(s).len() implies single_line(
                #[trigger] segments(s)[i],
            ) by {
                if i < prev.len() - 1 {
                    assert(segments(s)[i] == prev[i]);
                }
            }
        } else {
            assert forall|i: int| 0 <= i < segments(s).len() implies single_line(
                #[trigger] segments(s)[i],
            ) by {
                if i < prev.len() {
                    assert(segments(s)[i] == prev[i]);
                }
            }
        }
    }
}

proof fn lemma_lines_single(s: Seq<char>)
    ensures
        forall|i: int| 0 <= i < lines(s).len() ==> single_line(#[trigger] lines(s)[i]),
{
    lemma_single_line_segments(s);
    lemma_segments_len(s);
    let segs = segments(s);
    assert forall|i: int| 0 <= i < lines(s).len() implies single_line(#[trigger] lines(s)[i]) by {
        if i < segs.len() - 1 {
            let l = segs[i];
            assert(lines(s)[i] == strip_cr(l));
            assert(single_line(l));
            assert forall|k: int| 0 <= k < strip_cr(l).len() implies #[trigger] strip_cr(l)[k]
                != '\n' by {
                assert(strip_cr(l)[k] == l[k]);
            }
        } else {
            assert(lines(s)[i] == segs.last());
        }
    }
}

proof fn lemma_segments_join(ls: Seq<Seq<char>>)
    requires
        ls.len() >= 1,
        forall|i: int| 0 <= i < ls.len() ==> single_line(#[trigger] ls[i]),
    ensures
        segments(join_lines(ls)) == ls,
    decreases ls.len(),
{
    if ls.len() == 1 {
        lemma_segments_concat(Seq::<char>::empty(), ls[0]);
        assert(Seq::<char>::empty() + ls[0] == ls[0]);
        assert(segments(Seq::<char>::empty()) == seq![Seq::<char>::empty()]);
        assert(Seq::<char>::empty() + ls[0] == ls[0]);
        assert(segments(join_lines(ls)) =~= ls);
    } else {
        let init = ls.drop_last();
        assert forall|i: int| 0 <= i < init.len() implies single_line(#[trigger] init[i]) by {
            assert(init[i] == ls[i]);
        }
        lemma_segments_join(init);
        let head = join_lines(init) + seq!['\n'];
        assert(head == join_lines(init).push('\n'));
        assert(head.drop_last() == join_lines(init));
        assert(single_line(ls.last()));
        lemma_segments_concat(head, ls.last());
        assert(join_lines(ls) == head + ls.last());
        assert(segments(head) == init.push(Seq::<char>::empty()));
        assert(Seq::<char>::empty() + ls.last() == ls.last());
        assert(segments(join_lines(ls)) =~= ls);
    }
}

proof fn lemma_trim_push_space(x: Seq<char>, c: char)
    requires
        is_space(c),
    ensures
        trim(x.push(c)) == trim(x),
    decreases x.len(),
{
    if x.len() == 0 {
        assert(x.push(c).drop_first() == x);
        assert(trim_start(x.push(c)) == trim_start(x));
    } else if is_space(x[0]) {
        let t = x.drop_first();
        lemma_trim_push_space(t, c);
        assert(x.push(c).drop_first() == t.push(c));
        assert(trim_start(x.push(c)) == trim_start(t.push(c)));
    } else {
        assert(trim_start(x.push(c)) == x.push(c));
        assert(trim_start(x) == x);
        assert(x.push(c).drop_last() == x);
    }
}

proof fn lemma_trim_strip_cr(l: Seq<char>)
    ensures
        trim(strip_cr(l)) == trim(l),
{
    if l.len() > 0 && l.last() == '\r' {
        lemma_trim_push_space(l.drop_last(), '\r');
        assert(l.drop_last().push('\r') == l);
    }
}

proof fn lemma_set_scan_after(ls: Seq<Seq<char>>, i: int, in_sec: bool, h: Seq<char>, n: Seq<char>)
    ensures
        set_scan(ls, i, in_sec, h, n) matches Some(r) ==> i <= r < ls.len(),
    decreases ls.len() - i,
{
    if 0 <= i < ls.len() {
        lemma_set_scan_after(ls, i + 1, true, h, n);
        lemma_set_scan_after(ls, i + 1, false, h, n);
    }
}

proof fn lemma_set_scan_no_header(ls: Seq<Seq<char>>, i: int, h: Seq<char>, n: Seq<char>)
    requires
        i >= 0,
        forall|k: int| i <= k < ls.len() ==> trim(#[trigger] ls[k]) != h,
    ensures
        set_scan(ls, i, false, h, n) is None,
    decreases ls.len() - i,
{
    if i < ls.len() {
        lemma_set_scan_no_header(ls, i + 1, h, n);
    }
}

proof fn lemma_scans_agree(
    a: Seq<Seq<char>>,
    b: Seq<Seq<char>>,
    i: int,
    in_sec: bool,
    h: Seq<char>,
    n: Seq<char>,
    j: int,
    nl: Seq<char>,
)
    requires
        0 <= i <= j < a.len(),
        j < b.len(),
        forall|k: int| i <= k < j ==> trim(#[trigger] b[k]) == trim(a[k]),
        trim(b[j]) == nl,
        nl != h,
        !is_header_like(nl),
        entry_matches(nl, n),
        set_scan(a, i, in_sec, h, n) == Some(j),
        in_sec ==> forall|k: int| i <= k < a.len() ==> trim(#[trigger] a[k]) != h,
        forall|p: int, q: int|
            0 <= p < a.len() && 0 <= q < a.len() && trim(#[trigger] a[p]) == h && trim(
                #[trigger] a[q],
            ) == h ==> p == q,
    ensures
        get_scan(b, i, in_sec, h, n) == Some(entry_value(nl)),
    decreases j - i,
{
    let t = trim(a[i]);
    lemma_set_scan_after(a, i + 1, true, h, n);
    lemma_set_scan_after(a, i + 1, false, h, n);
    if i == j {
        assert(in_sec && !is_header_like(t) && entry_matches(t, n) && t != h);
    } else {
        assert(trim(b[i]) == t);
        if t == h {
            assert forall|k: int| i + 1 <= k < a.len() implies trim(#[trigger] a[k]) != h by {
                if trim(a[k]) == h {
                    assert(k == i);
                }
            }
            lemma_scans_agree(a, b, i + 1, true, h, n, j, nl);
        } else if in_sec && is_header_like(t) {
            lemma_set_scan_no_header(a, i + 1, h, n);
        } else if in_sec && entry_matches(t, n) {
        } else {
            lemma_scans_agree(a, b, i + 1, in_sec, h, n, j, nl);
        }
    }
}

/// Reading a key right after writing it gives back the written value: when
/// the section's header line occurs once, the key's name is a plain word
/// (it starts with neither white space nor `'['` and holds no `'='` or line
/// break), and the value is one line without white space at its ends, then
/// the `Get` of `key` in the text that `Set` produced is the value.
pub proof fn law_get_after_set(content: Seq<char>, key: Seq<char>, value: Seq<char>)
    requires
        config_with_value(content, key, value) is Some,
        forall|p: int, q: int|
            0 <= p < lines(content).len() && 0 <= q < lines(content).len() && trim(
                #[trigger] lines(content)[p],
            ) == section_header(key) && trim(#[trigger] lines(content)[q]) == section_header(key)
                ==> p == q,
        key_name(key).len() > 0,
        !is_space(key_name(key)[0]),
        key_name(key)[0] != '[',
        find_first(key_name(key), '=') < 0,
        single_line(key_name(key)),
        value.len() > 0,
        trim(value) == value,
        single_line(value),
    ensures
        config_value(config_with_value(content, key, value).unwrap(), key) == Some(value),
{
    let ls = lines(content);
    let h = section_header(key);
    let n = key_name(key);
    let nl = entry_line(key, value);
    let j = set_scan(ls, 0, false, h, n).unwrap();
    lemma_set_scan_after(ls, 0, false, h, n);
    let ls2 = ls.update(j, nl);
    let out = join_lines(ls2);
    // The written line is one plain line.
    assert(nl == n + seq![' ', '=', ' '] + value);
    assert(nl.len() == n.len() + 3 + value.len());
    assert(nl[0] == n[0]);
    assert(nl.last() == value.last());
    assert(!is_space(value[0])) by {
        if is_space(value[0]) {
            lemma_trim_start_len(value.drop_first());
            lemma_trim_end_len(trim_start(value));
        }
    }
    assert(trim_start(value) == value);
    assert(!is_space(value.last())) by {
        if is_space(value.last()) {
            lemma_trim_end_len(value.drop_last());
        }
    }
    assert(single_line(nl)) by {
        assert forall|k: int| 0 <= k < nl.len() implies #[trigger] nl[k] != '\n' by {
            if k < n.len() {
                assert(nl[k] == n[k]);
            } else if k >= n.len() + 3 {
                assert(nl[k] == value[k - n.len() - 3]);
            }
        }
    }
    assert(trim_start(nl) == nl);
    assert(trim_end(nl) == nl);
    assert(trim(nl) == nl);
    assert(nl != h) by {
        assert(h[0] == '[');
    }
    assert(!is_header_like(nl));
    // The first '=' of the written line follows the name.
    assert forall|k: int| 0 <= k < nl.len() && k < n.len() + 1 implies #[trigger] nl[k] != '=' by {
        if k < n.len() {
            assert(nl[k] == n[k]);
            lemma_find_first_found(n, '=');
        }
    }
    lemma_find_first(nl, '=', n.len() + 1 as int);
    assert(nl.subrange(0, n.len() as int) == n);
    assert(entry_matches(nl, n));
    let rest = nl.subrange(n.len() + 2 as int, nl.len() as int);
    assert(rest == seq![' '] + value);
    assert(rest.drop_first() == value);
    assert(trim_start(rest) == trim_start(value));
    assert(trim_start(value) == value);
    assert(trim_end(value) == value) by {
        assert(trim(value) == trim_end(trim_start(value)));
    }
    assert(entry_value(nl) == value);
    // The lines of the written text.
    lemma_lines_single(content);
    assert forall|i: int| 0 <= i < ls2.len() implies single_line(#[trigger] ls2[i]) by {
        if i != j {
            assert(ls2[i] == ls[i]);
        }
    }
    lemma_segments_join(ls2);
    let ls3 = lines(out);
    assert forall|k: int| 0 <= k < j implies trim(#[trigger] ls3[k]) == trim(ls[k]) by {
        assert(ls3[k] == strip_cr(ls2[k]));
        lemma_trim_strip_cr(ls2[k]);
    }
    if j < ls2.len() - 1 {
        assert(ls3[j] == strip_cr(nl));
        assert(strip_cr(nl) == nl);
    } else {
        assert(ls3[j] == nl);
    }
    lemma_scans_agree(ls, ls3, 0, false, h, n, j, nl);
}

/// `Set` rewrites one line and no other: when the key's name and the value
/// are each one line, the text it writes, split at its line breaks, is the
/// lines of the old text (as `str::lines` reads them) with only the matched
/// entry replaced by `name = value`.
pub proof fn law_set_rewrites_one_line(content: Seq<char>, key: Seq<char>, value: Seq<char>)
    requires
        config_with_value(content, key, value) is Some,
        single_line(key_name(key)),
        single_line(value),
    ensures
        set_scan(lines(content), 0, false, section_header(key), key_name(key)) matches Some(j)
            && segments(config_with_value(content, key, value).unwrap()) == lines(content).update(
            j,
            entry_line(key, value),
        ),
{
    let ls = lines(content);
    let n = key_name(key);
    let nl = entry_line(key, value);
    let j = set_scan(ls, 0, false, section_header(key), n).unwrap();
    lemma_set_scan_after(ls, 0, false, section_header(key), n);
    assert(single_line(nl)) by {
        assert forall|k: int| 0 <= k < nl.len() implies #[trigger] nl[k] != '\n' by {
            if k < n.len() {
                assert(nl[k] == n[k]);
            } else if k >= n.len() + 3 {
                assert(nl[k] == value[k - n.len() - 3]);
            }
        }
    }
    lemma_lines_single(content);
    let ls2 = ls.update(j, nl);
    assert forall|i: int| 0 <= i < ls2.len() implies single_line(#[trigger] ls2[i]) by {
        if i != j {
            assert(ls2[i] == ls[i]);
        }
    }
    lemma_segments_join(ls2);
}

proof fn lemma_trim_start_len(s: Seq<char>)
    ensures
        trim_start(s).len() <= s.len(),
    decreases s.len(),
{
    if s.len() > 0 {
        lemma_trim_start_len(s.drop_first());
    }
}

proof fn lemma_trim_end_len(s: Seq<char>)
    ensures
        trim_end(s).len() <= s.len(),
    decreases s.len(),
{
    if s.len() > 0 {
        lemma_trim_end_len(s.drop_last());
    }
}

} // verus!
