//! The command-line client's handle on the daemon: where its socket is, how
//! request ids are numbered, and how a request's parameter object is made.

use vstd::prelude::*;
use vstd::string::StringExecFns;
use crate::cli::{params_view, Param, ParamValue, ParamView};
use crate::text::{prefixed, str_eq};

verus! {

/// Client for sending commands to the daemon over its socket.
pub struct CrawlClient {
    socket_path: String,
}

impl CrawlClient {
    /// A client for the daemon listening at `socket_path`.
    pub fn new(socket_path: String) -> (r: Self)
        ensures
            r.spec_socket_path() == socket_path@,
    {
        Self { socket_path }
    }

    /// The socket path the client was made with.
    pub closed spec fn spec_socket_path(&self) -> Seq<char> {
        self.socket_path@
    }

    /// The socket the client connects to.
    pub fn socket_path(&self) -> (r: &String)
        ensures
            r@ == self.spec_socket_path(),
    {
        &self.socket_path
    }
}

/// Numbers requests: each call gives the next id, starting from 1.
pub struct RequestIds {
    next: u64,
}

impl RequestIds {
    /// Ids that start at 1.
    pub fn new() -> (r: Self)
        ensures
            r.spec_next() == 1,
    {
        Self { next: 1 }
    }

    /// The id the next call hands out.
    pub closed spec fn spec_next(&self) -> u64 {
        self.next
    }

    /// Hands out the next request id (the counter wraps after `u64::MAX`).
    pub fn next_id(&mut self) -> (id: u64)
        ensures
            id == old(self).spec_next(),
            final(self).spec_next() == (if id == u64::MAX { 0 } else { (id + 1) as u64 }),
    {
        let id = self.next;
        self.next = if id == u64::MAX { 0 } else { id + 1 };
        id
    }
}

// ── Parameter objects ────────────────────────────────────────────────────────

/// The object the entries make: each key with the value of its last entry.
pub open spec fn object_map(s: Seq<(Seq<char>, ParamView)>) -> Map<Seq<char>, ParamView>
    decreases s.len(),
{
    if s.len() == 0 {
        Map::empty()
    } else {
        object_map(s.drop_last()).insert(s.last().0, s.last().1)
    }
}

/// No key occurs twice.
pub open spec fn distinct_keys(s: Seq<(Seq<char>, ParamView)>) -> bool {
    forall|i: int, j: int| 0 <= i < j < s.len() ==> s[i].0 != s[j].0
}

/// Overwriting the value of a key that occurs once sets that key in the object.
proof fn lemma_object_update(s: Seq<(Seq<char>, ParamView)>, j: int, v: ParamView)
    requires
        distinct_keys(s),
        0 <= j < s.len(),
    ensures
        object_map(s.update(j, (s[j].0, v))) == object_map(s).insert(s[j].0, v),
    decreases s.len(),
{
    let t = s.update(j, (s[j].0, v));
    if j == s.len() - 1 {
        assert(t.drop_last() == s.drop_last());
        assert(object_map(s).insert(s[j].0, v) =~= object_map(s.drop_last()).insert(s[j].0, v));
    } else {
        let d = s.drop_last();
        assert(distinct_keys(d)) by {
            assert forall|a: int, b: int| 0 <= a < b < d.len() implies d[a].0 != d[b].0 by {
                assert(d[a] == s[a] && d[b] == s[b]);
            }
        }
        assert(d[j] == s[j]);
        lemma_object_update(d, j, v);
        assert(t.drop_last() == d.update(j, (s[j].0, v)));
        assert(t.last() == s.last());
        assert(s.last().0 != s[j].0);
        assert(object_map(t) =~= object_map(s).insert(s[j].0, v));
    }
}

/// The parameter object of a request: `method` naming the method, then the
/// call's parameters, each setting its key (a later value wins).
pub open spec fn request_object(method: Seq<char>, params: Option<Seq<(Seq<char>, ParamView)>>) -> Map<Seq<char>, ParamView> {
    object_map(
        seq![("method"@, ParamView::Str(method))] + match params {
            Some(ps) => ps,
            None => Seq::<(Seq<char>, ParamView)>::empty(),
        },
    )
}

/// The parameter object a request to `method` carries: `method` naming the
/// method, then each of the call's parameters set in turn, one entry per key.
pub fn request_params(method: &str, params: &Option<Vec<Param>>) -> (r: Vec<Param>)
    ensures
        distinct_keys(params_view(r@)),
        object_map(params_view(r@)) == request_object(method@, match params {
            Some(ps) => Some(params_view(ps@)),
            None => None,
        }),
{
    let mut r: Vec<Param> = Vec::new();
    r.push(Param { key: String::from_str("method"), value: ParamValue::Str(String::from_str(method)) });
    let ghost head = seq![("method"@, ParamView::Str(method@))];
    proof {
        assert(params_view(r@) =~= head);
        assert(object_map(head.drop_last()) =~= Map::empty());
    }
    let empty: Vec<Param> = Vec::new();
    let ps: &Vec<Param> = match params {
        Some(ps) => ps,
        None => &empty,
    };
    let ghost all = match params {
        Some(q) => params_view(q@),
        None => Seq::<(Seq<char>, ParamView)>::empty(),
    };
    assert(params_view(ps@) =~= all);
    let mut i: usize = 0;
    while i < ps.len()
        invariant
            i <= ps.len(),
            params_view(ps@) == all,
            distinct_keys(params_view(r@)),
            object_map(params_view(r@)) == object_map(head + all.subrange(0, i as int)),
        decreases ps.len() - i,
    {
        let p = ps[i].clone();
        let ghost before = params_view(r@);
        let mut j: usize = 0;
        let mut found = false;
        while j < r.len() && !found
            invariant
                j <= r.len(),
                !found ==> forall|k: int| 0 <= k < j ==> r@[k].key@ != p.key@,
                found ==> j < r.len() && r@[j as int].key@ == p.key@,
            decreases r.len() - j, (if found { 0int } else { 1int }),
        {
            if str_eq(r[j].key.as_str(), p.key.as_str()) {
                found = true;
            } else {
                j = j + 1;
            }
        }
        let ghost x = head + all.subrange(0, i as int);
        proof {
            assert(p@ == ps@[i as int]@);
            assert(p@ == all[i as int]);
            assert(head + all.subrange(0, i + 1) =~= x.push(all[i as int]));
            assert(x.push(all[i as int]).drop_last() =~= x);
            assert(object_map(x.push(all[i as int])) == object_map(x).insert(all[i as int].0, all[i as int].1));
        }
        if found {
            r.set(j, p);
            proof {
                assert(params_view(r@) =~= before.update(j as int, (before[j as int].0, all[i as int].1)));
                lemma_object_update(before, j as int, all[i as int].1);
                assert(before[j as int].0 == all[i as int].0);
                assert forall|a: int, b: int| 0 <= a < b < params_view(r@).len() implies params_view(r@)[a].0 != params_view(r@)[b].0 by {
                    assert(params_view(r@)[a].0 == before[a].0);
                    assert(params_view(r@)[b].0 == before[b].0);
                }
            }
        } else {
            r.push(p);
            proof {
                assert(params_view(r@) =~= before.push(all[i as int]));
                assert(params_view(r@).drop_last() == before);
                assert(object_map(params_view(r@)) == object_map(before).insert(all[i as int].0, all[i as int].1));
                assert forall|a: int, b: int| 0 <= a < b < params_view(r@).len() implies params_view(r@)[a].0 != params_view(r@)[b].0 by {
                    if b == before.len() {
                        assert(params_view(r@)[a].0 == before[a].0);
                    } else {
                        assert(params_view(r@)[a].0 == before[a].0);
                        assert(params_view(r@)[b].0 == before[b].0);
                    }
                }
            }
        }
        i = i + 1;
    }
    assert(all.subrange(0, all.len() as int) == all);
    r
}

/// What the client reports when the daemon answers with an error.
pub fn daemon_error_message(message: &str) -> (m: String)
    ensures
        m@ == "daemon error: "@ + message@,
{
    prefixed("daemon error: ", message)
}

} // verus!
