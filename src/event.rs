use vstd::prelude::*;

verus! {

/// A signed event, held as plain values.
///
/// `tags` is a list of tag entries; the first string of an entry is the tag's
/// name and the rest are its values.
#[derive(Debug)]
pub struct Event {
    pub id: [u8; 32],
    pub pubkey: [u8; 32],
    pub created_at: u64,
    pub kind: u16,
    pub tags: Vec<Vec<String>>,
    pub content: String,
    pub sig: [u8; 64],
}

/// The tags of an event, as sequences of character sequences.
pub open spec fn tags_view(tags: Seq<Vec<String>>) -> Seq<Seq<Seq<char>>> {
    Seq::new(tags.len(), |i: int| Seq::new(tags[i]@.len(), |j: int| tags[i]@[j]@))
}

impl Event {
    /// Every tag entry carries at least its name.
    pub open spec fn well_formed(&self) -> bool {
        forall|i: int| 0 <= i < self.tags@.len() ==> #[trigger] self.tags@[i]@.len() >= 1
    }

    /// Whether every tag entry carries at least its name.
    pub fn is_well_formed(&self) -> (r: bool)
        ensures
            r == self.well_formed(),
    {
        let mut i: usize = 0;
        while i < self.tags.len()
            invariant
                i <= self.tags@.len(),
                forall|k: int| 0 <= k < i ==> #[trigger] self.tags@[k]@.len() >= 1,
            decreases self.tags@.len() - i,
        {
            if self.tags[i].len() == 0 {
                return false;
            }
            i = i + 1;
        }
        true
    }

    /// The event's contents, compared by value.
    pub open spec fn same_as(&self, other: &Event) -> bool {
        &&& self.id@ == other.id@
        &&& self.pubkey@ == other.pubkey@
        &&& self.created_at == other.created_at
        &&& self.kind == other.kind
        &&& tags_view(self.tags@) == tags_view(other.tags@)
        &&& self.content@ == other.content@
        &&& self.sig@ == other.sig@
    }

    /// A copy of the event with the same contents.
    pub fn duplicate(&self) -> (r: Event)
        ensures
            r.same_as(self),
            self.well_formed() ==> r.well_formed(),
    {
        let mut tags: Vec<Vec<String>> = Vec::new();
        let mut i: usize = 0;
        while i < self.tags.len()
            invariant
                i <= self.tags@.len(),
                tags@.len() == i,
                forall|k: int| 0 <= k < i ==> #[trigger] tags@[k]@.len() == self.tags@[k]@.len(),
                forall|k: int, j: int|
                    0 <= k < i && 0 <= j < tags@[k]@.len() ==> #[trigger] tags@[k]@[j]@
                        == self.tags@[k]@[j]@,
            decreases self.tags@.len() - i,
        {
            tags.push(copy_strings(&self.tags[i]));
            i = i + 1;
        }
        assert(tags_view(tags@) =~= tags_view(self.tags@)) by {
            assert forall|k: int| 0 <= k < tags@.len() implies tags_view(tags@)[k]
                =~= tags_view(self.tags@)[k] by {}
        }
        Event {
            id: self.id,
            pubkey: self.pubkey,
            created_at: self.created_at,
            kind: self.kind,
            tags,
            content: self.content.clone(),
            sig: self.sig,
        }
    }
}

/// A copy of a list of strings.
pub fn copy_strings(v: &Vec<String>) -> (r: Vec<String>)
    ensures
        r@.len() == v@.len(),
        forall|j: int| 0 <= j < v@.len() ==> #[trigger] r@[j]@ == v@[j]@,
{
    let mut r: Vec<String> = Vec::new();
    let mut j: usize = 0;
    while j < v.len()
        invariant
            j <= v@.len(),
            r@.len() == j,
            forall|k: int| 0 <= k < j ==> #[trigger] r@[k]@ == v@[k]@,
        decreases v@.len() - j,
    {
        r.push(v[j].clone());
        j = j + 1;
    }
    r
}

/// Whether two 32-byte values are equal.
pub fn bytes32_eq(a: &[u8; 32], b: &[u8; 32]) -> (r: bool)
    ensures
        r == (a@ == b@),
{
    let mut i: usize = 0;
    while i < 32
        invariant
            i <= 32,
            a@.len() == 32,
            b@.len() == 32,
            forall|k: int| 0 <= k < i ==> a@[k] == b@[k],
        decreases 32 - i,
    {
        if a[i] != b[i] {
            return false;
        }
        i = i + 1;
    }
    assert(a@ =~= b@);
    true
}

} // verus!
