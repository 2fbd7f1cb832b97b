//! Block devices as UDisks2 reports them, and which of them the device
//! listing shows.

use vstd::prelude::*;
use crate::network::{lossy_utf8, utf8_lossy};
use crate::text::{chars_of, push_chars};
use crate::wallpaper::opt_view;

verus! {

/// A block device.
#[derive(Debug)]
pub struct BlockDevice {
    /// The device node, such as `/dev/sda1`.
    pub device: String,
    pub label: Option<String>,
    pub size_bytes: u64,
    pub filesystem: Option<String>,
    pub mount_point: Option<String>,
    pub mounted: bool,
    pub removable: bool,
}

fn clone_opt(o: &Option<String>) -> (r: Option<String>)
    ensures
        r == *o,
{
    match o {
        Some(s) => Some(s.clone()),
        None => None,
    }
}

impl Clone for BlockDevice {
    fn clone(&self) -> (r: Self)
        ensures
            r == *self,
    {
        BlockDevice {
            device: self.device.clone(),
            label: clone_opt(&self.label),
            size_bytes: self.size_bytes,
            filesystem: clone_opt(&self.filesystem),
            mount_point: clone_opt(&self.mount_point),
            mounted: self.mounted,
            removable: self.removable,
        }
    }
}

/// What UDisks2 reports of one block device: the device node and mount
/// points as NUL-terminated bytes, the label, the size and the filesystem
/// type (empty when unknown).
#[derive(Debug, Clone)]
pub struct BlockReading {
    pub device: Vec<u8>,
    pub label: String,
    pub size_bytes: u64,
    pub id_type: String,
    pub mount_points: Vec<Vec<u8>>,
}

/// `s` without NUL characters at its end.
pub open spec fn trim_end_nul(s: Seq<char>) -> Seq<char>
    decreases s.len(),
{
    if s.len() > 0 && s.last() == '\0' {
        trim_end_nul(s.drop_last())
    } else {
        s
    }
}

/// A NUL-terminated path as text: decoded (invalid UTF-8 replaced) with the
/// trailing NULs removed.
pub open spec fn path_text(bytes: Seq<u8>) -> Seq<char> {
    trim_end_nul(lossy_utf8(bytes))
}

/// A text that UDisks2 leaves empty when unknown, as an option.
pub open spec fn known(s: Seq<char>) -> Option<Seq<char>> {
    if s.len() == 0 {
        None
    } else {
        Some(s)
    }
}

/// `d` is the device read as `r`: its node and first mount point as text,
/// label and filesystem when known, mounted when it has a mount point, and
/// not marked removable.
pub open spec fn device_of(r: BlockReading, d: BlockDevice) -> bool {
    &&& d.device@ == path_text(r.device@)
    &&& opt_view(d.label) == known(r.label@)
    &&& d.size_bytes == r.size_bytes
    &&& opt_view(d.filesystem) == known(r.id_type@)
    &&& opt_view(d.mount_point) == (if r.mount_points@.len() > 0 {
        Some(path_text(r.mount_points@[0]@))
    } else {
        None
    })
    &&& d.mounted == (r.mount_points@.len() > 0)
    &&& !d.removable
}

fn path_string(bytes: &[u8]) -> (s: String)
    ensures
        s@ == path_text(bytes@),
{
    let decoded = utf8_lossy(bytes);
    let v = chars_of(decoded.as_str());
    let mut hi: usize = v.len();
    assert(v@.subrange(0, hi as int) == v@);
    while hi > 0 && v[hi - 1] == '\0'
        invariant
            hi <= v@.len(),
            trim_end_nul(v@.subrange(0, hi as int)) == trim_end_nul(v@),
        decreases hi,
    {
        assert(v@.subrange(0, hi as int).drop_last() == v@.subrange(0, hi - 1));
        hi = hi - 1;
    }
    let mut s = String::new();
    push_chars(&mut s, &v, 0, hi);
    assert(s@ == v@.subrange(0, hi as int));
    s
}

fn known_string(s: &String) -> (r: Option<String>)
    ensures
        opt_view(r) == known(s@),
{
    if s.as_str().is_empty() {
        None
    } else {
        Some(s.clone())
    }
}

/// The device read as `r`.
pub fn block_device(r: &BlockReading) -> (d: BlockDevice)
    ensures
        device_of(*r, d),
{
    let mount_point = if r.mount_points.len() > 0 {
        Some(path_string(r.mount_points[0].as_slice()))
    } else {
        None
    };
    BlockDevice {
        device: path_string(r.device.as_slice()),
        label: known_string(&r.label),
        size_bytes: r.size_bytes,
        filesystem: known_string(&r.id_type),
        mount_point,
        mounted: r.mount_points.len() > 0,
        removable: false,
    }
}

/// Whether `s` ends with `suffix`.
pub open spec fn ends_with(s: Seq<char>, suffix: Seq<char>) -> bool {
    suffix.len() <= s.len() && s.subrange(s.len() - suffix.len(), s.len() as int) == suffix
}

/// The listing shows devices larger than 1 MiB whose node does not end in
/// `loop`.
pub open spec fn listed(d: BlockDevice) -> bool {
    d.size_bytes > 1_048_576 && !ends_with(d.device@, "loop"@)
}

/// The devices of `s` the listing shows, in order.
pub open spec fn listed_seq(s: Seq<BlockDevice>) -> Seq<BlockDevice>
    decreases s.len(),
{
    if s.len() == 0 {
        s
    } else if listed(s.last()) {
        listed_seq(s.drop_last()).push(s.last())
    } else {
        listed_seq(s.drop_last())
    }
}

fn ends_with_loop(s: &str) -> (b: bool)
    ensures
        b == ends_with(s@, "loop"@),
{
    proof {
        reveal_strlit("loop");
    }
    let v = chars_of(s);
    let n = v.len();
    if n < 4 {
        return false;
    }
    let b = v[n - 4] == 'l' && v[n - 3] == 'o' && v[n - 2] == 'o' && v[n - 1] == 'p';
    let ghost tail = v@.subrange(n - 4, n as int);
    assert(b ==> tail =~= "loop"@);
    assert(tail == "loop"@ ==> tail[0] == 'l' && tail[1] == 'o' && tail[2] == 'o' && tail[3] == 'p');
    b
}

/// Whether the listing shows `d`.
pub fn is_listed(d: &BlockDevice) -> (b: bool)
    ensures
        b == listed(*d),
{
    d.size_bytes > 1_048_576 && !ends_with_loop(d.device.as_str())
}

/// The devices the listing shows, in order.
pub fn listed_devices(devices: &Vec<BlockDevice>) -> (r: Vec<BlockDevice>)
    ensures
        r@ == listed_seq(devices@),
{
    let mut r: Vec<BlockDevice> = Vec::new();
    let mut i: usize = 0;
    while i < devices.len()
        invariant
            i <= devices@.len(),
            r@ == listed_seq(devices@.subrange(0, i as int)),
        decreases devices.len() - i,
    {
        let ghost s = devices@.subrange(0, i + 1);
        assert(s.drop_last() == devices@.subrange(0, i as int));
        assert(s.last() == devices@[i as int]);
        if is_listed(&devices[i]) {
            r.push(devices[i].clone());
        }
        i = i + 1;
    }
    assert(devices@.subrange(0, devices@.len() as int) == devices@);
    r
}

/// Every device the listing shows passes its test, and listing the
/// listing again changes nothing.
pub proof fn law_listing_is_a_filter(s: Seq<BlockDevice>)
    ensures
        forall|i: int| 0 <= i < listed_seq(s).len() ==> listed(#[trigger] listed_seq(s)[i]),
        listed_seq(listed_seq(s)) == listed_seq(s),
        listed_seq(s).len() <= s.len(),
    decreases s.len(),
{
    if s.len() > 0 {
        law_listing_is_a_filter(s.drop_last());
        let t = listed_seq(s.drop_last());
        if listed(s.last()) {
            let u = t.push(s.last());
            assert(u.drop_last() == t);
            assert(u.last() == s.last());
            assert(listed_seq(u) == listed_seq(t).push(s.last()));
            assert forall|i: int| 0 <= i < u.len() implies listed(#[trigger] u[i]) by {
                if i < t.len() {
                    assert(u[i] == t[i]);
                }
            }
        }
    }
}

} // verus!
