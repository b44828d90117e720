//! A set of identifiers kept as a list without repeats.
use crate::text::same_text;
use vstd::prelude::*;

verus! {

/// The members of a list of identifiers.
pub open spec fn members(ids: Seq<Seq<char>>) -> Set<Seq<char>> {
    Set::new(|x: Seq<char>| ids.contains(x))
}

/// Whether `ids` holds `id`.
pub fn has_id(ids: &Vec<String>, id: &str) -> (r: bool)
    ensures
        r == ids.deep_view().contains(id@),
{
    let mut i: usize = 0;
    while i < ids.len()
        invariant
            i <= ids@.len(),
            forall|j: int| 0 <= j < i ==> ids.deep_view()[j] != id@,
        decreases ids@.len() - i,
    {
        if same_text(ids[i].as_str(), id) {
            assert(ids.deep_view()[i as int] == id@);
            return true;
        }
        i = i + 1;
    }
    false
}

/// A set of identifiers.
pub struct IdSet {
    ids: Vec<String>,
}

impl View for IdSet {
    type V = Set<Seq<char>>;

    closed spec fn view(&self) -> Set<Seq<char>> {
        members(self.ids.deep_view())
    }
}

impl IdSet {
    /// No identifier is listed twice.
    #[verifier::type_invariant]
    spec fn well_formed(&self) -> bool {
        forall|i: int, j: int|
            0 <= i < j < self.ids.deep_view().len() ==> self.ids.deep_view()[i]
                != self.ids.deep_view()[j]
    }

    /// The empty set.
    pub fn new() -> (r: Self)
        ensures
            r@ == Set::<Seq<char>>::empty(),
    {
        let r = IdSet { ids: Vec::new() };
        assert(r@ =~= Set::<Seq<char>>::empty());
        r
    }

    /// Whether `id` is a member.
    pub fn contains(&self, id: &str) -> (r: bool)
        ensures
            r == self@.contains(id@),
    {
        has_id(&self.ids, id)
    }

    /// Adds `id`.
    pub fn insert(&mut self, id: &str)
        ensures
            final(self)@ == old(self)@.insert(id@),
    {
        if self.contains(id) {
            assert(old(self)@.insert(id@) =~= old(self)@);
            return;
        }
        proof {
            use_type_invariant(&*self);
        }
        let ghost before = self.ids.deep_view();
        let mut ids: Vec<String> = Vec::new();
        core::mem::swap(&mut ids, &mut self.ids);
        ids.push(id.to_owned());
        assert(ids.deep_view() =~= before.push(id@));
        self.ids = ids;
        proof {
            lemma_members_push(before, id@);
        }
    }

    /// Adds every member of `ids`.
    pub fn extend(&mut self, ids: &Vec<String>)
        ensures
            final(self)@ == old(self)@.union(members(ids.deep_view())),
    {
        let mut i: usize = 0;
        let ghost all = ids.deep_view();
        assert(members(all.take(0)) =~= Set::empty());
        assert(self@ =~= old(self)@.union(members(all.take(0))));
        while i < ids.len()
            invariant
                all == ids.deep_view(),
                i <= all.len(),
                self@ == old(self)@.union(members(all.take(i as int))),
            decreases all.len() - i,
        {
            self.insert(ids[i].as_str());
            proof {
                lemma_members_push(all.take(i as int), all[i as int]);
                assert(all.take(i + 1) =~= all.take(i as int).push(all[i as int]));
                assert(self@ =~= old(self)@.union(members(all.take(i + 1))));
            }
            i = i + 1;
        }
        assert(all.take(i as int) =~= all);
    }

    /// The set of the members of `ids`.
    pub fn from_ids(ids: &Vec<String>) -> (r: Self)
        ensures
            r@ == members(ids.deep_view()),
    {
        let mut r = IdSet::new();
        r.extend(ids);
        assert(r@ =~= members(ids.deep_view()));
        r
    }

    /// Whether there is no member.
    pub fn is_empty(&self) -> (r: bool)
        ensures
            r == (self@ =~= Set::<Seq<char>>::empty()),
    {
        if self.ids.len() > 0 {
            assert(self.ids.deep_view().contains(self.ids.deep_view()[0]));
            assert(self@.contains(self.ids.deep_view()[0]));
            false
        } else {
            assert(self@ =~= Set::<Seq<char>>::empty());
            true
        }
    }

    /// Whether every member is a member of `other`.
    pub fn is_subset(&self, other: &IdSet) -> (r: bool)
        ensures
            r == self@.subset_of(other@),
    {
        let mut i: usize = 0;
        let ghost all = self.ids.deep_view();
        while i < self.ids.len()
            invariant
                all == self.ids.deep_view(),
                i <= all.len(),
                forall|j: int| 0 <= j < i ==> other@.contains(all[j]),
            decreases all.len() - i,
        {
            if !other.contains(self.ids[i].as_str()) {
                assert(all.contains(all[i as int]));
                assert(self@.contains(all[i as int]));
                return false;
            }
            i = i + 1;
        }
        true
    }

    /// Whether two sets have the same members.
    pub fn same_as(&self, other: &IdSet) -> (r: bool)
        ensures
            r == (self@ =~= other@),
    {
        self.is_subset(other) && other.is_subset(self)
    }

    /// The members, in the order they were first added.
    pub fn to_vec(&self) -> (r: Vec<String>)
        ensures
            members(r.deep_view()) == self@,
            r.deep_view().no_duplicates(),
    {
        proof {
            use_type_invariant(self);
        }
        let r = self.ids.clone();
        assert(r.deep_view() =~= self.ids.deep_view());
        r
    }
}

/// Appending one identifier adds one member.
pub proof fn lemma_members_push(ids: Seq<Seq<char>>, id: Seq<char>)
    ensures
        members(ids.push(id)) =~= members(ids).insert(id),
{
    assert forall|x: Seq<char>| #[trigger]
        members(ids.push(id)).contains(x) == members(ids).insert(id).contains(x) by {
        if ids.contains(x) {
            let i = choose|i: int| 0 <= i < ids.len() && ids[i] == x;
            assert(ids.push(id)[i] == x);
        }
        assert(ids.push(id)[ids.len() as int] == id);
    }
}

/// An id is a member exactly when it is listed somewhere.
pub proof fn law_members_are_the_listed_ids(ids: Seq<Seq<char>>, id: Seq<char>)
    ensures
        members(ids).contains(id) <==> exists|i: int| 0 <= i < ids.len() && #[trigger] ids[i] == id,
{
}

} // verus!
