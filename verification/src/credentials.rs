use vstd::prelude::*;

use crate::keyed::KeyedList;

verus! {

/// Autologin tokens, keyed by nation name.
pub struct Credentials {
    inner: KeyedList<String>,
}

impl View for Credentials {
    type V = Map<Seq<char>, Seq<char>>;

    closed spec fn view(&self) -> Map<Seq<char>, Seq<char>> {
        self.inner.map().map_values(|t: String| t@)
    }
}

/// The token stored for `nation`.
pub open spec fn token_of(m: Map<Seq<char>, Seq<char>>, nation: Seq<char>) -> Option<Seq<char>> {
    if m.contains_key(nation) { Some(m[nation]) } else { None }
}

impl Credentials {
    pub closed spec fn wf(&self) -> bool {
        self.inner.wf()
    }

    pub fn empty() -> (r: Self)
        ensures
            r.wf(),
            r@ == Map::<Seq<char>, Seq<char>>::empty(),
    {
        let r = Credentials { inner: KeyedList::new() };
        assert(r@ =~= Map::<Seq<char>, Seq<char>>::empty());
        r
    }

    /// The token stored for `nation`.
    pub fn get(&self, nation: &str) -> (r: Option<&String>)
        requires
            self.wf(),
        ensures
            r is Some == self@.contains_key(nation@),
            r matches Some(t) ==> Some(t@) == token_of(self@, nation@),
    {
        self.inner.get(nation)
    }

    /// Stores `token` for `nation`, replacing any earlier one.
    pub fn set(&mut self, nation: String, token: String)
        requires
            old(self).wf(),
        ensures
            final(self).wf(),
            final(self)@ == old(self)@.insert(nation@, token@),
    {
        let ghost t = token@;
        self.inner.insert(nation, token);
        assert(self@ =~= old(self)@.insert(nation@, t));
    }

    /// Forgets the token of `nation`; tells whether there was one.
    pub fn remove(&mut self, nation: &str) -> (r: bool)
        requires
            old(self).wf(),
        ensures
            final(self).wf(),
            final(self)@ == old(self)@.remove(nation@),
            r == old(self)@.contains_key(nation@),
    {
        let r = self.inner.remove(nation);
        assert(self@ =~= old(self)@.remove(nation@));
        r
    }

    /// The nations that have a token, each once.
    pub fn keys(&self) -> (r: Vec<String>)
        requires
            self.wf(),
        ensures
            forall|k: Seq<char>| self@.contains_key(k) <==> exists|i: int|
                0 <= i < r@.len() && #[trigger] r@[i]@ == k,
            forall|i: int, j: int|
                0 <= i < r@.len() && 0 <= j < r@.len() && i != j ==> r@[i]@ != r@[j]@,
    {
        let r = self.inner.keys();
        assert forall|k: Seq<char>| self@.contains_key(k) <==> self.inner.map().contains_key(k) by {}
        r
    }
}

/// A token stored for a nation is what `get` then reads for it; other nations
/// read as before.
pub proof fn law_set_then_get(m: Map<Seq<char>, Seq<char>>, nation: Seq<char>, token: Seq<char>, other: Seq<char>)
    requires
        other != nation,
    ensures
        token_of(m.insert(nation, token), nation) == Some(token),
        token_of(m.insert(nation, token), other) == token_of(m, other),
{
}

/// After `remove`, a nation has no token, and removing it again finds none and
/// changes nothing.
pub proof fn law_remove_then_get(m: Map<Seq<char>, Seq<char>>, nation: Seq<char>)
    ensures
        token_of(m.remove(nation), nation) is None,
        !m.remove(nation).contains_key(nation),
        m.remove(nation).remove(nation) == m.remove(nation),
{
    assert(m.remove(nation).remove(nation) =~= m.remove(nation));
}

} // verus!
