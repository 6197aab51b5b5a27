use vstd::prelude::*;

use crate::keyed::KeyedList;

verus! {

/// What is remembered of one published dispatch.
#[derive(Clone, Debug)]
pub struct CacheData {
    pub id: u64,
    pub hash: String,
    pub created_at: u64,
}

/// `CacheData` as plain values.
pub struct CacheDataView {
    pub id: u64,
    pub hash: Seq<char>,
    pub created_at: u64,
}

impl View for CacheData {
    type V = CacheDataView;

    open spec fn view(&self) -> CacheDataView {
        CacheDataView { id: self.id, hash: self.hash@, created_at: self.created_at }
    }
}

impl CacheData {
    pub fn new(id: u64, hash: String, created_at: u64) -> (r: Self)
        ensures
            r.id == id,
            r.hash == hash,
            r.created_at == created_at,
    {
        CacheData { id, hash, created_at }
    }
}

/// The record of published dispatches, keyed by template name.
#[derive(Clone)]
pub struct Cache {
    inner: KeyedList<CacheData>,
}

/// The entry that `update` leaves under `key`: a new entry is stored whole; an
/// existing one takes the new id and hash and keeps its creation time.
pub open spec fn updated_entry(m: Map<Seq<char>, CacheDataView>, key: Seq<char>, data: CacheDataView) -> CacheDataView {
    if m.contains_key(key) {
        CacheDataView { id: data.id, hash: data.hash, created_at: m[key].created_at }
    } else {
        data
    }
}

/// The id stored under `key`.
pub open spec fn cached_id(m: Map<Seq<char>, CacheDataView>, key: Seq<char>) -> Option<u64> {
    if m.contains_key(key) { Some(m[key].id) } else { None }
}

/// The content hash stored under `key`.
pub open spec fn cached_hash(m: Map<Seq<char>, CacheDataView>, key: Seq<char>) -> Option<Seq<char>> {
    if m.contains_key(key) { Some(m[key].hash) } else { None }
}

/// The creation time stored under `key`.
pub open spec fn cached_created_at(m: Map<Seq<char>, CacheDataView>, key: Seq<char>) -> Option<u64> {
    if m.contains_key(key) { Some(m[key].created_at) } else { None }
}

impl View for Cache {
    type V = Map<Seq<char>, CacheDataView>;

    closed spec fn view(&self) -> Map<Seq<char>, CacheDataView> {
        self.inner.map().map_values(|d: CacheData| d@)
    }
}

impl Cache {
    pub closed spec fn wf(&self) -> bool {
        self.inner.wf()
    }

    pub fn empty() -> (r: Self)
        ensures
            r.wf(),
            r@ == Map::<Seq<char>, CacheDataView>::empty(),
    {
        let r = Cache { inner: KeyedList::new() };
        assert(r@ =~= Map::<Seq<char>, CacheDataView>::empty());
        r
    }

    /// Stores `data` under `dispatch`, replacing any earlier entry whole.
    pub fn set(&mut self, dispatch: String, data: CacheData)
        requires
            old(self).wf(),
        ensures
            final(self).wf(),
            final(self)@ == old(self)@.insert(dispatch@, data@),
    {
        let ghost d = data@;
        self.inner.insert(dispatch, data);
        assert(self@ =~= old(self)@.insert(dispatch@, d));
    }

    /// Stores `data` under `dispatch`; where an entry exists already, only its
    /// id and hash change and its creation time stays.
    pub fn update(&mut self, dispatch: String, data: CacheData)
        requires
            old(self).wf(),
        ensures
            final(self).wf(),
            final(self)@ == old(self)@.insert(dispatch@, updated_entry(old(self)@, dispatch@, data@)),
    {
        let ghost before = self@;
        let ghost d = data@;
        let created_at = match self.inner.get(dispatch.as_str()) {
            Some(existing) => existing.created_at,
            None => data.created_at,
        };
        let entry = CacheData { id: data.id, hash: data.hash, created_at };
        assert(entry@ == updated_entry(before, dispatch@, d));
        let ghost e = entry@;
        self.inner.insert(dispatch, entry);
        assert(self@ =~= before.insert(dispatch@, e));
    }

    /// The id of the dispatch published for `dispatch`.
    pub fn id(&self, dispatch: &str) -> (r: Option<u64>)
        requires
            self.wf(),
        ensures
            r == cached_id(self@, dispatch@),
    {
        match self.inner.get(dispatch) {
            Some(d) => Some(d.id),
            None => None,
        }
    }

    /// The content hash last published for `dispatch`.
    pub fn hash(&self, dispatch: &str) -> (r: Option<&str>)
        requires
            self.wf(),
        ensures
            r is Some == self@.contains_key(dispatch@),
            r matches Some(h) ==> Some(h@) == cached_hash(self@, dispatch@),
    {
        match self.inner.get(dispatch) {
            Some(d) => Some(d.hash.as_str()),
            None => None,
        }
    }

    /// When the dispatch for `dispatch` was first created.
    pub fn created_at(&self, dispatch: &str) -> (r: Option<u64>)
        requires
            self.wf(),
        ensures
            r == cached_created_at(self@, dispatch@),
    {
        match self.inner.get(dispatch) {
            Some(d) => Some(d.created_at),
            None => None,
        }
    }

    /// The names that have an entry, each once.
    pub fn dispatches(&self) -> (r: Vec<String>)
        requires
            self.wf(),
        ensures
            forall|k: Seq<char>| self@.contains_key(k) <==> exists|i: int|
                0 <= i < r@.len() && #[trigger] r@[i]@ == k,
            forall|i: int, j: int|
                0 <= i < r@.len() && 0 <= j < r@.len() && i != j ==> r@[i]@ != r@[j]@,
    {
        let r = self.inner.keys();
        assert forall|k: Seq<char>| self@.contains_key(k) <==> self.inner.map().contains_key(k) by {}
        r
    }
}

/// After `set`, reading a name gives back what was stored, and every other
/// name reads as before.
pub proof fn law_set_then_read(m: Map<Seq<char>, CacheDataView>, key: Seq<char>, data: CacheDataView, other: Seq<char>)
    requires
        other != key,
    ensures
        cached_id(m.insert(key, data), key) == Some(data.id),
        cached_hash(m.insert(key, data), key) == Some(data.hash),
        cached_created_at(m.insert(key, data), key) == Some(data.created_at),
        cached_id(m.insert(key, data), other) == cached_id(m, other),
        cached_hash(m.insert(key, data), other) == cached_hash(m, other),
        cached_created_at(m.insert(key, data), other) == cached_created_at(m, other),
{
}

/// `update` of a name that has an entry keeps its creation time and takes the
/// new id and hash; of a name without one, it does what `set` does.
pub proof fn law_update_keeps_creation_time(m: Map<Seq<char>, CacheDataView>, key: Seq<char>, data: CacheDataView)
    ensures
        m.contains_key(key) ==> cached_created_at(m.insert(key, updated_entry(m, key, data)), key)
            == cached_created_at(m, key),
        cached_id(m.insert(key, updated_entry(m, key, data)), key) == Some(data.id),
        cached_hash(m.insert(key, updated_entry(m, key, data)), key) == Some(data.hash),
        !m.contains_key(key) ==> m.insert(key, updated_entry(m, key, data)) == m.insert(key, data),
{
}

} // verus!
