//! MPRIS media players: how a player's bus readings become its report, and
//! which bus-name changes are players appearing or vanishing.

use vstd::prelude::*;
use vstd::string::StringExecFns;
use crate::text::{chars_of, prefixed, push_chars, range_starts_with, starts_with, str_eq};
use crate::wallpaper::opt_view;

verus! {

/// The bus-name prefix of MPRIS players.
pub open spec fn mpris_prefix() -> Seq<char> {
    "org.mpris.MediaPlayer2."@
}

/// Whether a player is playing, paused or stopped.
#[derive(Debug, Clone, Copy, PartialEq, Eq, Structural)]
pub enum PlaybackStatus {
    Playing,
    Paused,
    Stopped,
}

/// The status MPRIS names: `Playing`, `Paused`, and anything else stopped.
pub open spec fn status_named(s: Seq<char>) -> PlaybackStatus {
    if s == "Playing"@ {
        PlaybackStatus::Playing
    } else if s == "Paused"@ {
        PlaybackStatus::Paused
    } else {
        PlaybackStatus::Stopped
    }
}

/// The status a player reports.
pub fn playback_status(s: &str) -> (r: PlaybackStatus)
    ensures
        r == status_named(s@),
{
    if str_eq(s, "Playing") {
        PlaybackStatus::Playing
    } else if str_eq(s, "Paused") {
        PlaybackStatus::Paused
    } else {
        PlaybackStatus::Stopped
    }
}

/// A metadata value as far as the report reads it.
#[derive(Debug, Clone)]
pub enum MetaValue {
    Text(String),
    Int(i64),
    Other,
}

/// The index of the first entry of `meta` from `i` on with `key`; -1 when
/// there is none.
pub open spec fn meta_from(meta: Seq<(String, MetaValue)>, key: Seq<char>, i: int) -> int
    decreases meta.len() - i,
{
    if i < 0 || i >= meta.len() {
        -1
    } else if meta[i].0@ == key {
        i
    } else {
        meta_from(meta, key, i + 1)
    }
}

/// The text stored under `key`, if the value there is a text.
pub open spec fn meta_text(meta: Seq<(String, MetaValue)>, key: Seq<char>) -> Option<Seq<char>> {
    let i = meta_from(meta, key, 0);
    if i >= 0 {
        match meta[i].1 {
            MetaValue::Text(s) => Some(s@),
            _ => None,
        }
    } else {
        None
    }
}

/// The integer stored under `key`, if the value there is one.
pub open spec fn meta_int(meta: Seq<(String, MetaValue)>, key: Seq<char>) -> Option<i64> {
    let i = meta_from(meta, key, 0);
    if i >= 0 {
        match meta[i].1 {
            MetaValue::Int(n) => Some(n),
            _ => None,
        }
    } else {
        None
    }
}

proof fn lemma_meta_from(meta: Seq<(String, MetaValue)>, key: Seq<char>, i: int)
    requires
        0 <= i <= meta.len(),
        forall|k: int| 0 <= k < i ==> meta[k].0@ != key,
    ensures
        meta_from(meta, key, 0) == meta_from(meta, key, i),
    decreases i,
{
    if i > 0 {
        lemma_meta_from(meta, key, i - 1);
        assert(meta[i - 1].0@ != key);
    }
}

fn find_key(meta: &Vec<(String, MetaValue)>, key: &str) -> (r: Option<usize>)
    ensures
        match r {
            Some(i) => i < meta@.len() && meta_from(meta@, key@, 0) == i,
            None => meta_from(meta@, key@, 0) == -1,
        },
{
    let mut i: usize = 0;
    while i < meta.len()
        invariant
            i <= meta@.len(),
            forall|k: int| 0 <= k < i ==> meta@[k].0@ != key@,
        decreases meta.len() - i,
    {
        if str_eq(meta[i].0.as_str(), key) {
            proof {
                lemma_meta_from(meta@, key@, i as int);
            }
            return Some(i);
        }
        i = i + 1;
    }
    proof {
        lemma_meta_from(meta@, key@, i as int);
    }
    None
}

/// The text stored under `key`.
pub fn extract_string(meta: &Vec<(String, MetaValue)>, key: &str) -> (r: Option<String>)
    ensures
        opt_view(r) == meta_text(meta@, key@),
{
    match find_key(meta, key) {
        Some(i) => match &meta[i].1 {
            MetaValue::Text(s) => Some(s.clone()),
            _ => None,
        },
        None => None,
    }
}

/// The artists stored under `key`: read as a single text (a list of
/// artists is not read).
pub fn extract_string_list(meta: &Vec<(String, MetaValue)>, key: &str) -> (r: Option<String>)
    ensures
        opt_view(r) == meta_text(meta@, key@),
{
    extract_string(meta, key)
}

/// The integer stored under `key`.
pub fn extract_i64(meta: &Vec<(String, MetaValue)>, key: &str) -> (r: Option<i64>)
    ensures
        r == meta_int(meta@, key@),
{
    match find_key(meta, key) {
        Some(i) => match &meta[i].1 {
            MetaValue::Int(n) => Some(*n),
            _ => None,
        },
        None => None,
    }
}

/// `s` with every leading copy of the non-empty `p` removed.
pub open spec fn strip_prefixes(s: Seq<char>, p: Seq<char>) -> Seq<char>
    decreases s.len(),
{
    if p.len() > 0 && starts_with(s, p) {
        strip_prefixes(s.subrange(p.len() as int, s.len() as int), p)
    } else {
        s
    }
}

/// The name a player is shown by: its identity, or else its bus name
/// without the MPRIS prefix.
pub open spec fn player_name_of(identity: Option<Seq<char>>, bus_name: Seq<char>) -> Seq<char> {
    match identity {
        Some(i) => i,
        None => strip_prefixes(bus_name, mpris_prefix()),
    }
}

/// The name a player is shown by.
pub fn player_name(identity: Option<String>, bus_name: &str) -> (r: String)
    ensures
        r@ == player_name_of(opt_view(identity), bus_name@),
{
    match identity {
        Some(i) => i,
        None => {
            proof {
                reveal_strlit("org.mpris.MediaPlayer2.");
            }
            let p = chars_of("org.mpris.MediaPlayer2.");
            let v = chars_of(bus_name);
            let n = v.len();
            let mut lo: usize = 0;
            assert(v@.subrange(0, n as int) == v@);
            while range_starts_with(&v, lo, n, &p)
                invariant
                    lo <= n == v@.len(),
                    p@ == mpris_prefix(),
                    p@.len() > 0,
                    strip_prefixes(v@.subrange(lo as int, n as int), p@) == strip_prefixes(v@, p@),
                decreases n - lo,
            {
                let ghost s = v@.subrange(lo as int, n as int);
                assert(s.subrange(p@.len() as int, s.len() as int) == v@.subrange(lo + p@.len(), n as int));
                lo = lo + p.len();
            }
            let mut r = String::new();
            push_chars(&mut r, &v, lo, n);
            r
        },
    }
}

/// Whether a bus name belongs to an MPRIS player.
pub fn is_player_bus(name: &str) -> (b: bool)
    ensures
        b == starts_with(name@, mpris_prefix()),
{
    proof {
        reveal_strlit("org.mpris.MediaPlayer2.");
    }
    let p = chars_of("org.mpris.MediaPlayer2.");
    let v = chars_of(name);
    assert(v@.subrange(0, v@.len() as int) == v@);
    range_starts_with(&v, 0, v.len(), &p)
}

/// What a change of a bus name's owner means for the players.
#[derive(Debug, Clone, Copy, PartialEq, Eq, Structural)]
pub enum PlayerChange {
    Appeared,
    Vanished,
    Unchanged,
}

/// A player appears when its name gains an owner and vanishes when it
/// loses it; other names and changes are not player changes.
pub open spec fn player_change_of(name: Seq<char>, old_owner: Seq<char>, new_owner: Seq<char>) -> PlayerChange {
    if !starts_with(name, mpris_prefix()) {
        PlayerChange::Unchanged
    } else if old_owner.len() == 0 && new_owner.len() > 0 {
        PlayerChange::Appeared
    } else if old_owner.len() > 0 && new_owner.len() == 0 {
        PlayerChange::Vanished
    } else {
        PlayerChange::Unchanged
    }
}

/// What a bus name's change of owner (empty for none) means.
pub fn player_change(name: &str, old_owner: &str, new_owner: &str) -> (c: PlayerChange)
    ensures
        c == player_change_of(name@, old_owner@, new_owner@),
{
    if !is_player_bus(name) {
        PlayerChange::Unchanged
    } else if old_owner.is_empty() && !new_owner.is_empty() {
        PlayerChange::Appeared
    } else if !old_owner.is_empty() && new_owner.is_empty() {
        PlayerChange::Vanished
    } else {
        PlayerChange::Unchanged
    }
}

/// What a player reports on the bus; a property that could not be read is
/// `None` (or, for the capabilities, `false`; for the status, empty).
#[derive(Debug, Clone)]
pub struct PlayerReading {
    pub bus_name: String,
    pub status: String,
    pub metadata: Vec<(String, MetaValue)>,
    pub identity: Option<String>,
    pub position_us: Option<i64>,
    pub can_play: bool,
    pub can_pause: bool,
    pub can_next: bool,
    pub can_prev: bool,
}

/// A media player's report (its volume, a floating-point figure, is read
/// beside it).
#[derive(Debug, Clone)]
pub struct MediaPlayer {
    pub player_name: String,
    pub bus_name: String,
    pub status: PlaybackStatus,
    pub title: Option<String>,
    pub artist: Option<String>,
    pub album: Option<String>,
    pub art_url: Option<String>,
    pub position_us: Option<i64>,
    pub length_us: Option<i64>,
    pub can_play: bool,
    pub can_pause: bool,
    pub can_next: bool,
    pub can_prev: bool,
}

/// `p` is the report of the player read as `r`.
pub open spec fn player_of(r: PlayerReading, p: MediaPlayer) -> bool {
    &&& p.player_name@ == player_name_of(opt_view(r.identity), r.bus_name@)
    &&& p.bus_name@ == r.bus_name@
    &&& p.status == status_named(r.status@)
    &&& opt_view(p.title) == meta_text(r.metadata@, "xesam:title"@)
    &&& opt_view(p.artist) == meta_text(r.metadata@, "xesam:artist"@)
    &&& opt_view(p.album) == meta_text(r.metadata@, "xesam:album"@)
    &&& opt_view(p.art_url) == meta_text(r.metadata@, "mpris:artUrl"@)
    &&& p.position_us == r.position_us
    &&& p.length_us == meta_int(r.metadata@, "mpris:length"@)
    &&& p.can_play == r.can_play
    &&& p.can_pause == r.can_pause
    &&& p.can_next == r.can_next
    &&& p.can_prev == r.can_prev
}

/// The report of the player read as `r`.
pub fn build_player_info(r: PlayerReading) -> (p: MediaPlayer)
    ensures
        player_of(r, p),
{
    let name = player_name(r.identity.clone(), r.bus_name.as_str());
    MediaPlayer {
        player_name: name,
        bus_name: r.bus_name.clone(),
        status: playback_status(r.status.as_str()),
        title: extract_string(&r.metadata, "xesam:title"),
        artist: extract_string_list(&r.metadata, "xesam:artist"),
        album: extract_string(&r.metadata, "xesam:album"),
        art_url: extract_string(&r.metadata, "mpris:artUrl"),
        position_us: r.position_us,
        length_us: extract_i64(&r.metadata, "mpris:length"),
        can_play: r.can_play,
        can_pause: r.can_pause,
        can_next: r.can_next,
        can_prev: r.can_prev,
    }
}

/// Errors of the media service.
#[derive(Debug, Clone)]
pub enum MediaError {
    DBus(String),
    NoPlayer,
    PlayerNotFound(String),
}

/// What a media error says.
pub open spec fn media_error_text(e: MediaError) -> Seq<char> {
    match e {
        MediaError::DBus(m) => "D-Bus error: "@ + m@,
        MediaError::NoPlayer => "no active player found"@,
        MediaError::PlayerNotFound(n) => "player not found: "@ + n@,
    }
}

impl MediaError {
    /// The error's text.
    pub fn message(&self) -> (m: String)
        ensures
            m@ == media_error_text(*self),
    {
        match self {
            MediaError::DBus(m) => prefixed("D-Bus error: ", m.as_str()),
            MediaError::NoPlayer => String::from_str("no active player found"),
            MediaError::PlayerNotFound(n) => prefixed("player not found: ", n.as_str()),
        }
    }
}

} // verus!
