use vstd::prelude::*;
use crate::event::Event;

verus! {

/// A constraint on one tag name: the event must carry a tag of that name whose
/// value is one of `values`. An empty `values` leaves the tag unconstrained.
#[derive(Debug)]
pub struct TagConstraint {
    pub name: String,
    pub values: Vec<String>,
}

/// A conjunction of optional constraints on an event. An empty list, or `None`,
/// leaves its category unconstrained; within a list any one entry suffices.
#[derive(Debug)]
pub struct Filter {
    pub ids: Vec<[u8; 32]>,
    pub authors: Vec<[u8; 32]>,
    pub kinds: Vec<u16>,
    pub tags: Vec<TagConstraint>,
    pub since: Option<u64>,
    pub until: Option<u64>,
    pub limit: Option<usize>,
}

/// Whether the event carries a tag named `name` whose value (its second
/// string) is `value`.
pub open spec fn has_tag_value(e: &Event, name: Seq<char>, value: Seq<char>) -> bool {
    exists|t: int|
        0 <= t < e.tags@.len() && #[trigger] e.tags@[t]@.len() >= 2 && e.tags@[t]@[0]@ == name
            && e.tags@[t]@[1]@ == value
}

impl TagConstraint {
    pub open spec fn admits(&self, e: &Event) -> bool {
        self.values@.len() == 0 || exists|v: int|
            0 <= v < self.values@.len() && has_tag_value(e, self.name@, #[trigger] self.values@[v]@)
    }
}

impl Filter {
    pub open spec fn since_ok(&self, e: &Event) -> bool {
        match self.since {
            Some(s) => e.created_at >= s,
            None => true,
        }
    }

    pub open spec fn until_ok(&self, e: &Event) -> bool {
        match self.until {
            Some(u) => e.created_at <= u,
            None => true,
        }
    }

    pub open spec fn kind_ok(&self, e: &Event) -> bool {
        self.kinds@.len() == 0 || self.kinds@.contains(e.kind)
    }

    pub open spec fn id_ok(&self, e: &Event) -> bool {
        self.ids@.len() == 0 || exists|i: int| 0 <= i < self.ids@.len() && #[trigger] self.ids@[i]@ == e.id@
    }

    pub open spec fn author_ok(&self, e: &Event) -> bool {
        self.authors@.len() == 0 || exists|i: int|
            0 <= i < self.authors@.len() && #[trigger] self.authors@[i]@ == e.pubkey@
    }

    pub open spec fn tags_ok(&self, e: &Event) -> bool {
        forall|c: int| 0 <= c < self.tags@.len() ==> #[trigger] self.tags@[c].admits(e)
    }

    /// The filter matches the event when every constraint holds.
    pub open spec fn spec_matches(&self, e: &Event) -> bool {
        &&& self.since_ok(e)
        &&& self.until_ok(e)
        &&& self.kind_ok(e)
        &&& self.id_ok(e)
        &&& self.author_ok(e)
        &&& self.tags_ok(e)
    }

    /// Whether the event satisfies this filter; cheap checks come first.
    pub fn matches(&self, e: &Event) -> (r: bool)
        ensures
            r == self.spec_matches(e),
    {
        match self.since {
            Some(s) => if e.created_at < s {
                return false;
            },
            None => {},
        }
        match self.until {
            Some(u) => if e.created_at > u {
                return false;
            },
            None => {},
        }
        if self.kinds.len() > 0 && !contains_kind(&self.kinds, e.kind) {
            return false;
        }
        if self.ids.len() > 0 && !contains_bytes32(&self.ids, &e.id) {
            return false;
        }
        if self.authors.len() > 0 && !contains_bytes32(&self.authors, &e.pubkey) {
            return false;
        }
        let mut c: usize = 0;
        while c < self.tags.len()
            invariant
                c <= self.tags@.len(),
                forall|k: int| 0 <= k < c ==> #[trigger] self.tags@[k].admits(e),
            decreases self.tags@.len() - c,
        {
            if !tag_admits(&self.tags[c], e) {
                return false;
            }
            c = c + 1;
        }
        true
    }
}

/// Whether `kinds` holds `k`.
pub fn contains_kind(kinds: &Vec<u16>, k: u16) -> (r: bool)
    ensures
        r == kinds@.contains(k),
{
    let mut i: usize = 0;
    while i < kinds.len()
        invariant
            i <= kinds@.len(),
            forall|j: int| 0 <= j < i ==> kinds@[j] != k,
        decreases kinds@.len() - i,
    {
        if kinds[i] == k {
            assert(kinds@[i as int] == k);
            return true;
        }
        i = i + 1;
    }
    false
}

/// Whether `list` holds a value equal to `x`.
pub fn contains_bytes32(list: &Vec<[u8; 32]>, x: &[u8; 32]) -> (r: bool)
    ensures
        r == exists|i: int| 0 <= i < list@.len() && #[trigger] list@[i]@ == x@,
{
    let mut i: usize = 0;
    while i < list.len()
        invariant
            i <= list@.len(),
            forall|j: int| 0 <= j < i ==> #[trigger] list@[j]@ != x@,
        decreases list@.len() - i,
    {
        if crate::event::bytes32_eq(&list[i], x) {
            return true;
        }
        i = i + 1;
    }
    false
}

/// Whether the event carries a tag named `name` with value `value`.
pub fn event_has_tag_value(e: &Event, name: &String, value: &String) -> (r: bool)
    ensures
        r == has_tag_value(e, name@, value@),
{
    let mut t: usize = 0;
    while t < e.tags.len()
        invariant
            t <= e.tags@.len(),
            forall|k: int|
                0 <= k < t ==> !(#[trigger] e.tags@[k]@.len() >= 2 && e.tags@[k]@[0]@ == name@
                    && e.tags@[k]@[1]@ == value@),
        decreases e.tags@.len() - t,
    {
        let tag = &e.tags[t];
        if tag.len() >= 2 && tag[0] == *name && tag[1] == *value {
            return true;
        }
        t = t + 1;
    }
    false
}

/// Whether the event satisfies one tag constraint.
pub fn tag_admits(c: &TagConstraint, e: &Event) -> (r: bool)
    ensures
        r == c.admits(e),
{
    if c.values.len() == 0 {
        return true;
    }
    let mut v: usize = 0;
    while v < c.values.len()
        invariant
            v <= c.values@.len(),
            forall|k: int| 0 <= k < v ==> !has_tag_value(e, c.name@, #[trigger] c.values@[k]@),
        decreases c.values@.len() - v,
    {
        if event_has_tag_value(e, &c.name, &c.values[v]) {
            return true;
        }
        v = v + 1;
    }
    false
}

/// A subscription's filters match an event when at least one of them does.
pub open spec fn any_matches(filters: Seq<Filter>, e: &Event) -> bool {
    exists|i: int| 0 <= i < filters.len() && #[trigger] filters[i].spec_matches(e)
}

/// Whether any of the filters matches the event.
pub fn subscription_matches(filters: &Vec<Filter>, e: &Event) -> (r: bool)
    ensures
        r == any_matches(filters@, e),
{
    let mut i: usize = 0;
    while i < filters.len()
        invariant
            i <= filters@.len(),
            forall|k: int| 0 <= k < i ==> !(#[trigger] filters@[k].spec_matches(e)),
        decreases filters@.len() - i,
    {
        if filters[i].matches(e) {
            return true;
        }
        i = i + 1;
    }
    false
}

/// The constraint categories are independent: evaluating them in the reverse
/// order gives the same answer, which depends on the event and the filter alone.
pub proof fn lemma_match_order_irrelevant(f: &Filter, e: &Event)
    ensures
        f.spec_matches(e) == (f.tags_ok(e) && f.author_ok(e) && f.id_ok(e) && f.kind_ok(e)
            && f.until_ok(e) && f.since_ok(e)),
{
}

/// The filter that constrains nothing but the kind, to exactly `k`.
pub open spec fn kind_only(f: &Filter, k: u16) -> bool {
    &&& f.ids@.len() == 0
    &&& f.authors@.len() == 0
    &&& f.kinds@ == seq![k]
    &&& f.tags@.len() == 0
    &&& f.since is None
    &&& f.until is None
}

/// Two filters, one for kind 1 and one for kind 2, together match exactly the
/// events of kind 1 or 2.
pub proof fn lemma_two_kind_filters(filters: Seq<Filter>, e: &Event)
    requires
        filters.len() == 2,
        kind_only(&filters[0], 1),
        kind_only(&filters[1], 2),
    ensures
        any_matches(filters, e) <==> (e.kind == 1 || e.kind == 2),
{
    assert(filters[0].kinds@.contains(e.kind) <==> e.kind == 1) by {
        if e.kind == 1 {
            assert(filters[0].kinds@[0] == e.kind);
        }
    }
    assert(filters[1].kinds@.contains(e.kind) <==> e.kind == 2) by {
        if e.kind == 2 {
            assert(filters[1].kinds@[0] == e.kind);
        }
    }
    if e.kind == 1 {
        assert(filters[0].spec_matches(e));
    }
    if e.kind == 2 {
        assert(filters[1].spec_matches(e));
    }
}

} // verus!
