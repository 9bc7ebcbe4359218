use vstd::prelude::*;
use crate::event::Event;
use crate::filter::{Filter, any_matches, subscription_matches};

verus! {

/// One live subscription: its connection, its identifier on that connection,
/// and its filters.
#[derive(Debug)]
pub struct Entry {
    pub conn: u64,
    pub sub_id: String,
    pub filters: Vec<Filter>,
}

/// Whether an entry is among those that a removal for `conn` (and, when given,
/// for one subscription identifier) takes out.
pub open spec fn removed_by(x: Entry, conn: u64, sid: Option<Seq<char>>) -> bool {
    x.conn == conn && match sid {
        Some(s) => x.sub_id@ == s,
        None => true,
    }
}

/// Whether the sequence holds the subscription `sid` of `conn` with these filters.
pub open spec fn seq_holds(s: Seq<Entry>, conn: u64, sid: Seq<char>, filters: Seq<Filter>) -> bool {
    exists|i: int|
        0 <= i < s.len() && (#[trigger] s[i]).conn == conn && s[i].sub_id@ == sid
            && s[i].filters@ == filters
}

/// No two entries share a connection and a subscription identifier.
pub open spec fn keys_unique(s: Seq<Entry>) -> bool {
    forall|i: int, j: int|
        0 <= i < j < s.len() ==> !((#[trigger] s[i]).conn == (#[trigger] s[j]).conn && s[i].sub_id@
            == s[j].sub_id@)
}

/// The process-wide set of live subscriptions, keyed by connection and
/// subscription identifier.
#[derive(Debug)]
pub struct Registry {
    entries: Vec<Entry>,
}

impl Registry {
    pub closed spec fn well_formed(&self) -> bool {
        keys_unique(self.entries@)
    }

    /// The subscription `sid` of `conn` is live with these filters.
    pub closed spec fn holds(&self, conn: u64, sid: Seq<char>, filters: Seq<Filter>) -> bool {
        seq_holds(self.entries@, conn, sid, filters)
    }

    /// The subscription `sid` of `conn` is live and one of its filters matches `e`.
    pub open spec fn delivers(&self, conn: u64, sid: Seq<char>, e: &Event) -> bool {
        exists|fs: Seq<Filter>| #[trigger] self.holds(conn, sid, fs) && any_matches(fs, e)
    }

    /// Number of live subscriptions.
    pub closed spec fn spec_len(&self) -> nat {
        self.entries@.len()
    }

    /// An empty registry.
    pub fn new() -> (r: Registry)
        ensures
            r.well_formed(),
            r.spec_len() == 0,
            forall|c: u64, s: Seq<char>, fs: Seq<Filter>| !r.holds(c, s, fs),
    {
        Registry { entries: Vec::new() }
    }

    /// Number of live subscriptions.
    pub fn len(&self) -> (r: usize)
        ensures
            r == self.spec_len(),
    {
        self.entries.len()
    }

    /// Takes out every entry of `conn` (only the one named `sid`, when given).
    fn remove_where(&mut self, conn: u64, sid: Option<&String>)
        requires
            old(self).well_formed(),
        ensures
            final(self).well_formed(),
            forall|c: u64, s: Seq<char>, fs: Seq<Filter>|
                #[trigger] final(self).holds(c, s, fs) <==> (old(self).holds(c, s, fs) && !(c == conn
                    && match sid {
                    Some(x) => s == x@,
                    None => true,
                })),
    {
        let ghost gsid: Option<Seq<char>> = match sid {
            Some(x) => Some(x@),
            None => None,
        };
        let ghost orig = self.entries@;
        let mut src: Vec<Entry> = Vec::new();
        std::mem::swap(&mut src, &mut self.entries);
        let mut out: Vec<Entry> = Vec::new();
        let ghost mut idx: Seq<int> = Seq::empty();
        while src.len() > 0
            invariant
                keys_unique(orig),
                gsid == match sid {
                    Some(x) => Some(x@),
                    None => None::<Seq<char>>,
                },
                src@.len() <= orig.len(),
                forall|i: int| 0 <= i < src@.len() ==> #[trigger] src@[i] == orig[i],
                idx.len() == out@.len(),
                forall|k: int|
                    0 <= k < idx.len() ==> src@.len() <= #[trigger] idx[k] < orig.len() && out@[k]
                        == orig[idx[k]] && !removed_by(orig[idx[k]], conn, gsid),
                forall|k1: int, k2: int| 0 <= k1 < k2 < idx.len() ==> #[trigger] idx[k1] > #[trigger] idx[k2],
                forall|m: int|
                    src@.len() <= m < orig.len() && !removed_by(#[trigger] orig[m], conn, gsid)
                        ==> exists|k: int| 0 <= k < idx.len() && #[trigger] idx[k] == m,
            decreases src@.len(),
        {
            let ghost n = src@.len() - 1;
            assert(src@[n] == orig[n]);
            let x = src.pop().unwrap();
            assert(x == orig[n]);
            let doomed = if x.conn != conn {
                false
            } else {
                match sid {
                    Some(s) => {
                        let same = x.sub_id == *s;
                        assert(gsid == Some(s@));
                        same
                    },
                    None => true,
                }
            };
            assert(doomed == removed_by(orig[n], conn, gsid));
            if !doomed {
                let ghost old_out = out@;
                out.push(x);
                proof {
                    let old_idx = idx;
                    idx = idx.push(n);
                    assert forall|k: int| 0 <= k < idx.len() implies src@.len() <= #[trigger] idx[k]
                        < orig.len() && out@[k] == orig[idx[k]] && !removed_by(orig[idx[k]], conn, gsid) by {
                        if k < old_idx.len() {
                            assert(out@[k] == old_out[k]);
                            assert(idx[k] == old_idx[k]);
                        }
                    }
                    assert forall|m: int|
                        src@.len() <= m < orig.len() && !removed_by(#[trigger] orig[m], conn, gsid)
                            implies exists|k: int| 0 <= k < idx.len() && #[trigger] idx[k] == m by {
                        if m == n {
                            assert(idx[idx.len() - 1] == m);
                        } else {
                            let k = choose|k: int| 0 <= k < old_idx.len() && #[trigger] old_idx[k] == m;
                            assert(idx[k] == m);
                        }
                    }
                }
            }
        }
        proof {
            assert forall|i: int, j: int| 0 <= i < j < out@.len() implies !((#[trigger] out@[i]).conn == (
                #[trigger] out@[j]).conn && out@[i].sub_id@ == out@[j].sub_id@) by {
                assert(idx[i] > idx[j]);
                assert(orig[idx[j]] == out@[j]);
            }
        }
        self.entries = out;
        assert forall|c: u64, s: Seq<char>, fs: Seq<Filter>|
            #[trigger] self.holds(c, s, fs) <==> (seq_holds(orig, c, s, fs) && !(c == conn && match sid {
                Some(x) => s == x@,
                None => true,
            })) by {
            if self.holds(c, s, fs) {
                let k = choose|k: int|
                    0 <= k < self.entries@.len() && (#[trigger] self.entries@[k]).conn == c
                        && self.entries@[k].sub_id@ == s && self.entries@[k].filters@ == fs;
                assert(orig[idx[k]] == self.entries@[k]);
            }
            if seq_holds(orig, c, s, fs) && !(c == conn && match sid {
                Some(x) => s == x@,
                None => true,
            }) {
                let m = choose|m: int|
                    0 <= m < orig.len() && (#[trigger] orig[m]).conn == c && orig[m].sub_id@ == s
                        && orig[m].filters@ == fs;
                assert(!removed_by(orig[m], conn, gsid));
                let k = choose|k: int| 0 <= k < idx.len() && #[trigger] idx[k] == m;
                assert(self.entries@[k] == orig[m]);
            }
        }
    }

    /// Registers subscription `sid` of `conn`, replacing any earlier one of the
    /// same identifier on that connection. From then on the subscription
    /// delivers exactly the events that the new filters match.
    pub fn register(&mut self, conn: u64, sid: String, filters: Vec<Filter>)
        requires
            old(self).well_formed(),
        ensures
            final(self).well_formed(),
            forall|c: u64, s: Seq<char>, fs: Seq<Filter>|
                #[trigger] final(self).holds(c, s, fs) <==> if c == conn && s == sid@ {
                    fs == filters@
                } else {
                    old(self).holds(c, s, fs)
                },
            forall|e: &Event| #[trigger] final(self).delivers(conn, sid@, e) == any_matches(filters@, e),
    {
        self.remove_where(conn, Some(&sid));
        let ghost mid: Registry = *self;
        let ghost before = self.entries@;
        let ghost fv = filters@;
        let ghost sv = sid@;
        self.entries.push(Entry { conn, sub_id: sid, filters });
        let ghost last = self.entries@.len() - 1;
        assert(self.entries@[last].filters@ == fv);
        assert forall|i: int, j: int|
            0 <= i < j < self.entries@.len() implies !((#[trigger] self.entries@[i]).conn == (
            #[trigger] self.entries@[j]).conn && self.entries@[i].sub_id@ == self.entries@[j].sub_id@) by {
            if j == last {
                let x = self.entries@[i];
                assert(x == before[i]);
                assert(mid.holds(x.conn, x.sub_id@, x.filters@));
            } else {
                assert(self.entries@[i] == before[i] && self.entries@[j] == before[j]);
            }
        }
        assert forall|c: u64, s: Seq<char>, fs: Seq<Filter>|
            #[trigger] self.holds(c, s, fs) <==> (mid.holds(c, s, fs) || (c == conn && s == sv
                && fs == fv)) by {
            if self.holds(c, s, fs) {
                let k = choose|k: int|
                    0 <= k < self.entries@.len() && (#[trigger] self.entries@[k]).conn == c
                        && self.entries@[k].sub_id@ == s && self.entries@[k].filters@ == fs;
                if k < last {
                    assert(self.entries@[k] == before[k]);
                }
            }
            if mid.holds(c, s, fs) {
                let k = choose|k: int|
                    0 <= k < before.len() && (#[trigger] before[k]).conn == c && before[k].sub_id@ == s
                        && before[k].filters@ == fs;
                assert(self.entries@[k] == before[k]);
            }
            if c == conn && s == sv && fs == fv {
                assert(self.entries@[last].conn == c);
            }
        }
        assert forall|e: &Event| #[trigger] self.delivers(conn, sv, e) == any_matches(fv, e) by {
            if self.delivers(conn, sv, e) {
                let fs = choose|fs: Seq<Filter>| #[trigger] self.holds(conn, sv, fs) && any_matches(fs, e);
                assert(!mid.holds(conn, sv, fs));
            }
            if any_matches(fv, e) {
                assert(self.holds(conn, sv, fv));
            }
        }
    }

    /// Ends subscription `sid` of `conn`, if it is live.
    pub fn unregister(&mut self, conn: u64, sid: &String)
        requires
            old(self).well_formed(),
        ensures
            final(self).well_formed(),
            forall|c: u64, s: Seq<char>, fs: Seq<Filter>|
                #[trigger] final(self).holds(c, s, fs) <==> (old(self).holds(c, s, fs) && !(c == conn
                    && s == sid@)),
    {
        self.remove_where(conn, Some(sid));
    }

    /// Ends every subscription of `conn`; after this no event is delivered to it.
    pub fn unregister_all(&mut self, conn: u64)
        requires
            old(self).well_formed(),
        ensures
            final(self).well_formed(),
            forall|c: u64, s: Seq<char>, fs: Seq<Filter>|
                #[trigger] final(self).holds(c, s, fs) <==> (old(self).holds(c, s, fs) && c != conn),
            forall|s: Seq<char>, e: &Event| !#[trigger] final(self).delivers(conn, s, e),
    {
        self.remove_where(conn, None);
        assert forall|s: Seq<char>, e: &Event| !#[trigger] self.delivers(conn, s, e) by {
            if self.delivers(conn, s, e) {
                let fs = choose|fs: Seq<Filter>| #[trigger] self.holds(conn, s, fs) && any_matches(fs, e);
            }
        }
    }

    /// The live subscriptions whose filters match `e`, as (connection,
    /// subscription identifier) pairs.
    pub fn find_matching(&self, e: &Event) -> (r: Vec<(u64, String)>)
        ensures
            forall|c: u64, s: Seq<char>|
                #[trigger] self.delivers(c, s, e) <==> exists|k: int|
                    0 <= k < r@.len() && (#[trigger] r@[k]).0 == c && r@[k].1@ == s,
    {
        let mut r: Vec<(u64, String)> = Vec::new();
        let ghost mut idx: Seq<int> = Seq::empty();
        let mut i: usize = 0;
        while i < self.entries.len()
            invariant
                i <= self.entries@.len(),
                idx.len() == r@.len(),
                forall|k: int|
                    0 <= k < idx.len() ==> 0 <= #[trigger] idx[k] < i && r@[k].0
                        == self.entries@[idx[k]].conn && r@[k].1@ == self.entries@[idx[k]].sub_id@
                        && any_matches(self.entries@[idx[k]].filters@, e),
                forall|m: int|
                    0 <= m < i && any_matches((#[trigger] self.entries@[m]).filters@, e) ==> exists|k: int|
                        0 <= k < idx.len() && #[trigger] idx[k] == m,
            decreases self.entries@.len() - i,
        {
            let x = &self.entries[i];
            if subscription_matches(&x.filters, e) {
                let ghost before = r@;
                r.push((x.conn, x.sub_id.clone()));
                proof {
                    let old_idx = idx;
                    idx = idx.push(i as int);
                    assert forall|k: int|
                        0 <= k < idx.len() implies 0 <= #[trigger] idx[k] < i + 1 && r@[k].0
                            == self.entries@[idx[k]].conn && r@[k].1@ == self.entries@[idx[k]].sub_id@
                            && any_matches(self.entries@[idx[k]].filters@, e) by {
                        if k < old_idx.len() {
                            assert(r@[k] == before[k]);
                            assert(idx[k] == old_idx[k]);
                        }
                    }
                    assert forall|m: int|
                        0 <= m < i + 1 && any_matches((#[trigger] self.entries@[m]).filters@, e)
                            implies exists|k: int| 0 <= k < idx.len() && #[trigger] idx[k] == m by {
                        if m == i {
                            assert(idx[idx.len() - 1] == m);
                        } else {
                            let k = choose|k: int| 0 <= k < old_idx.len() && #[trigger] old_idx[k] == m;
                            assert(idx[k] == m);
                        }
                    }
                }
            }
            i = i + 1;
        }
        assert forall|c: u64, s: Seq<char>|
            #[trigger] self.delivers(c, s, e) <==> exists|k: int|
                0 <= k < r@.len() && (#[trigger] r@[k]).0 == c && r@[k].1@ == s by {
            if self.delivers(c, s, e) {
                let fs = choose|fs: Seq<Filter>| #[trigger] self.holds(c, s, fs) && any_matches(fs, e);
                let m = choose|m: int|
                    0 <= m < self.entries@.len() && (#[trigger] self.entries@[m]).conn == c
                        && self.entries@[m].sub_id@ == s && self.entries@[m].filters@ == fs;
                let k = choose|k: int| 0 <= k < idx.len() && #[trigger] idx[k] == m;
                assert(r@[k].0 == c && r@[k].1@ == s);
            }
            if exists|k: int| 0 <= k < r@.len() && (#[trigger] r@[k]).0 == c && r@[k].1@ == s {
                let k = choose|k: int| 0 <= k < r@.len() && (#[trigger] r@[k]).0 == c && r@[k].1@ == s;
                let m = idx[k];
                assert(self.holds(c, s, self.entries@[m].filters@));
            }
        }
        r
    }
}

} // verus!
