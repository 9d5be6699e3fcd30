//! The in-memory store of downloads, keyed by id.

use std::collections::HashMap;

use vstd::prelude::*;

use crate::download::Download;
use vstd::std_specs::hash::spec_hash_map_iter;
use vstd::std_specs::iter::IteratorSpec;

verus! {

broadcast use {vstd::seq_lib::group_to_multiset_ensures, vstd::std_specs::hash::group_hash_axioms};

/// Every stored download is stored under its own id.
pub open spec fn keyed_by_id(m: Map<u128, Download>) -> bool {
    forall|k: u128| #[trigger] m.contains_key(k) ==> m[k].id == k
}

/// The stored download with id `id`.
pub open spec fn lookup(m: Map<u128, Download>, id: u128) -> Option<Download> {
    if m.contains_key(id) {
        Some(m[id])
    } else {
        None
    }
}

/// Stores `d` under its id, replacing what was stored there.
pub open spec fn upsert(m: Map<u128, Download>, d: Download) -> Map<u128, Download> {
    m.insert(d.id, d)
}

/// The store without the download with id `id`.
pub open spec fn without(m: Map<u128, Download>, id: u128) -> Map<u128, Download> {
    m.remove(id)
}

/// `s` lists each stored download exactly once, in some order.
pub open spec fn enumerates(m: Map<u128, Download>, s: Seq<Download>) -> bool {
    &&& s.len() == m.len()
    &&& forall|i: int| 0 <= i < s.len() ==> lookup(m, (#[trigger] s[i]).id) == Some(s[i])
    &&& forall|i: int, j: int| 0 <= i < j < s.len() ==> (#[trigger] s[i]).id != (#[trigger] s[j]).id
    &&& forall|k: u128| #[trigger] m.contains_key(k) ==> s.contains(m[k])
}

/// Where `d` goes in a newest-first listing: before the first download
/// created strictly earlier than it.
pub open spec fn newest_slot(sorted: Seq<Download>, d: Download) -> int
    decreases sorted.len(),
{
    if sorted.len() == 0 {
        0
    } else if sorted[0].created_at.spec_is_before(d.created_at) {
        0
    } else {
        1 + newest_slot(sorted.drop_first(), d)
    }
}

/// The downloads newest first; downloads created at the same instant keep
/// the order they have in `s`.
pub open spec fn newest_first(s: Seq<Download>) -> Seq<Download>
    decreases s.len(),
{
    if s.len() == 0 {
        s
    } else {
        let rest = newest_first(s.drop_last());
        rest.insert(newest_slot(rest, s.last()), s.last())
    }
}

/// A page of a listing: `limit` items after skipping `offset`.
pub open spec fn page_of(s: Seq<Download>, limit: int, offset: int) -> Seq<Download> {
    let start = if offset < s.len() { offset } else { s.len() as int };
    let end = if start + limit < s.len() { start + limit } else { s.len() as int };
    s.subrange(start, end)
}

/// No download in `s` was created later than one before it.
pub open spec fn is_newest_first(s: Seq<Download>) -> bool {
    forall|i: int, j: int|
        0 <= i < j < s.len() ==> !(#[trigger] s[i]).created_at.spec_is_before(
            (#[trigger] s[j]).created_at,
        )
}

/// The store: a hash map from id to download. The order in which a hash
/// map is walked is not fixed, so a listing is stated over whatever order
/// the walk gave.
pub struct InMemoryDownloadRepository {
    downloads: HashMap<u128, Download>,
}

impl InMemoryDownloadRepository {
    #[verifier::type_invariant]
    spec fn ids_are_keys(self) -> bool {
        keyed_by_id(self.downloads@)
    }

    /// The stored downloads by id.
    pub closed spec fn stored(self) -> Map<u128, Download> {
        self.downloads@
    }

    pub fn new() -> (r: Self)
        ensures
            r.stored() == Map::<u128, Download>::empty(),
    {
        InMemoryDownloadRepository { downloads: HashMap::new() }
    }

    /// Stores a download, replacing the one with the same id.
    pub fn create(&mut self, download: Download) -> (r: Download)
        ensures
            final(self).stored() == upsert(old(self).stored(), download),
            keyed_by_id(final(self).stored()),
            r == download,
    {
        self.put(download)
    }

    fn put(&mut self, download: Download) -> (r: Download)
        ensures
            final(self).stored() == upsert(old(self).stored(), download),
            keyed_by_id(final(self).stored()),
            r == download,
    {
        proof {
            use_type_invariant(&*self);
        }
        let copy = download.clone();
        let mut m: HashMap<u128, Download> = HashMap::new();
        std::mem::swap(&mut m, &mut self.downloads);
        m.insert(download.id, download);
        self.downloads = m;
        copy
    }

    /// The download with the given id.
    pub fn find_by_id(&self, id: u128) -> (r: Option<Download>)
        ensures
            r == lookup(self.stored(), id),
            keyed_by_id(self.stored()),
    {
        proof {
            use_type_invariant(self);
        }
        match self.downloads.get(&id) {
            Some(d) => Some(d.clone()),
            None => None,
        }
    }

    /// Replaces the stored download with the same id, or stores it.
    pub fn update(&mut self, download: Download) -> (r: Download)
        ensures
            final(self).stored() == upsert(old(self).stored(), download),
            keyed_by_id(final(self).stored()),
            r == download,
    {
        self.put(download)
    }

    /// Removes the download with the given id, if any.
    pub fn delete(&mut self, id: u128)
        ensures
            final(self).stored() == without(old(self).stored(), id),
            keyed_by_id(final(self).stored()),
    {
        proof {
            use_type_invariant(&*self);
        }
        let mut m: HashMap<u128, Download> = HashMap::new();
        std::mem::swap(&mut m, &mut self.downloads);
        m.remove(&id);
        self.downloads = m;
    }

    /// Number of stored downloads.
    pub fn count_all(&self) -> (r: u64)
        ensures
            r == self.stored().len(),
    {
        self.downloads.len() as u64
    }

    /// The stored downloads, in the order the map is walked.
    fn all(&self) -> (r: Vec<Download>)
        ensures
            enumerates(self.stored(), r@),
    {
        proof {
            use_type_invariant(self);
        }
        let ghost m = self.downloads@;
        let ghost v = spec_hash_map_iter(&self.downloads).remaining();
        let mut r: Vec<Download> = Vec::new();
        for (_k, d) in it: self.downloads.iter()
            invariant
                m == self.downloads@,
                v == spec_hash_map_iter(&self.downloads).remaining(),
                it.seq() == v,
                v.no_duplicates(),
                keyed_by_id(m),
                r@.len() == it.index(),
                forall|i: int| 0 <= i < it.index() ==> r@[i] == *(#[trigger] v[i]).1,
        {
            r.push(d.clone());
        }
        proof {
            assert(r@.len() == v.len());
            let s = r@;
            assert forall|i: int| 0 <= i < s.len() implies lookup(m, (#[trigger] s[i]).id) == Some(
                s[i],
            ) by {
                assert(m.contains_key(*v[i].0) && m[*v[i].0] == *v[i].1);
            }
            assert forall|i: int, j: int| 0 <= i < j < s.len() implies (#[trigger] s[i]).id != (
            #[trigger] s[j]).id by {
                assert(m.contains_key(*v[i].0) && m[*v[i].0] == *v[i].1);
                assert(m.contains_key(*v[j].0) && m[*v[j].0] == *v[j].1);
                if s[i].id == s[j].id {
                    assert(v[i] == v[j]);
                }
            }
            assert forall|k: u128| #[trigger] m.contains_key(k) implies s.contains(m[k]) by {
                assert(v.contains((&k, &m[k])));
                let i = choose|i: int| 0 <= i < v.len() && v[i] == (&k, &m[k]);
                assert(s[i] == m[k]);
            }
        }
        r
    }

    /// A page of the stored downloads, newest first; downloads created at
    /// the same instant come in the order the map was walked.
    pub fn find_all(&self, limit: u32, offset: u32) -> (r: Vec<Download>)
        ensures
            exists|s: Seq<Download>|
                enumerates(self.stored(), s) && r@ == page_of(
                    newest_first(s),
                    limit as int,
                    offset as int,
                ),
    {
        let all = self.all();
        let sorted = newest_first_exec(&all);
        let n = sorted.len();
        let start: usize = if (offset as usize) < n { offset as usize } else { n };
        let end: usize = if (limit as usize) < n - start { start + limit as usize } else { n };
        let mut r: Vec<Download> = Vec::new();
        let mut k = start;
        while k < end
            invariant
                start <= k <= end <= n,
                n == sorted@.len(),
                r@ == sorted@.subrange(start as int, k as int),
            decreases end - k,
        {
            r.push(sorted[k].clone());
            proof {
                assert(sorted@.subrange(start as int, k + 1) =~= sorted@.subrange(
                    start as int,
                    k as int,
                ).push(sorted@[k as int]));
            }
            k = k + 1;
        }
        r
    }
}

/// Index at which `d` goes into the newest-first listing `sorted`.
fn newest_slot_exec(sorted: &Vec<Download>, d: &Download) -> (r: usize)
    ensures
        r == newest_slot(sorted@, *d),
        r <= sorted@.len(),
{
    let mut p: usize = 0;
    proof {
        assert(sorted@.skip(0) =~= sorted@);
    }
    while p < sorted.len()
        invariant
            p <= sorted@.len(),
            newest_slot(sorted@, *d) == p + newest_slot(sorted@.skip(p as int), *d),
        decreases sorted@.len() - p,
    {
        proof {
            let t = sorted@.skip(p as int);
            assert(t.drop_first() =~= sorted@.skip(p + 1));
            assert(t[0] == sorted@[p as int]);
        }
        if sorted[p].created_at.is_before(&d.created_at) {
            return p;
        }
        p = p + 1;
    }
    proof {
        assert(sorted@.skip(p as int).len() == 0);
    }
    p
}

fn newest_first_exec(v: &Vec<Download>) -> (r: Vec<Download>)
    ensures
        r@ == newest_first(v@),
{
    let mut sorted: Vec<Download> = Vec::new();
    let mut i: usize = 0;
    while i < v.len()
        invariant
            i <= v@.len(),
            sorted@ == newest_first(v@.take(i as int)),
        decreases v@.len() - i,
    {
        proof {
            let t = v@.take(i + 1);
            assert(t.drop_last() =~= v@.take(i as int));
            assert(t.last() == v@[i as int]);
        }
        let d = v[i].clone();
        let p = newest_slot_exec(&sorted, &d);
        sorted.insert(p, d);
        i = i + 1;
    }
    proof {
        assert(v@.take(v@.len() as int) =~= v@);
    }
    sorted
}

/// After a download is stored, looking up its id gives it back, and every
/// other id gives what it gave before.
pub proof fn lookup_after_store(m: Map<u128, Download>, d: Download, other: u128)
    requires
        other != d.id,
    ensures
        lookup(upsert(m, d), d.id) == Some(d),
        lookup(upsert(m, d), other) == lookup(m, other),
{
}

/// Storing a download adds one to the count exactly when its id was not
/// stored yet.
pub proof fn count_after_store(m: Map<u128, Download>, d: Download)
    requires
        m.dom().finite(),
    ensures
        upsert(m, d).len() == m.len() + if lookup(m, d.id) is None { 1int } else { 0int },
{
    if m.contains_key(d.id) {
        assert(m.dom().insert(d.id) =~= m.dom());
    }
}

/// After a download is deleted its id is no longer found, and every other
/// id gives what it gave before.
pub proof fn lookup_after_delete(m: Map<u128, Download>, id: u128, other: u128)
    requires
        other != id,
    ensures
        lookup(without(m, id), id) is None,
        lookup(without(m, id), other) == lookup(m, other),
{
}

/// Deleting a download that was just stored under a new id gives back the
/// store as it was.
pub proof fn delete_undoes_new_store(m: Map<u128, Download>, d: Download)
    requires
        lookup(m, d.id) is None,
    ensures
        without(upsert(m, d), d.id) == m,
{
    assert(m.insert(d.id, d).remove(d.id) =~= m);
}

/// Storing keeps every download under its own id.
pub proof fn store_keeps_keys(m: Map<u128, Download>, d: Download, id: u128)
    requires
        keyed_by_id(m),
    ensures
        keyed_by_id(upsert(m, d)),
        keyed_by_id(without(m, id)),
{
}

proof fn lemma_newest_slot(sorted: Seq<Download>, d: Download)
    ensures
        0 <= newest_slot(sorted, d) <= sorted.len(),
        forall|i: int|
            0 <= i < newest_slot(sorted, d) ==> !(#[trigger] sorted[i]).created_at.spec_is_before(
                d.created_at,
            ),
        newest_slot(sorted, d) < sorted.len() ==> sorted[newest_slot(sorted, d)].created_at.spec_is_before(
            d.created_at,
        ),
    decreases sorted.len(),
{
    if sorted.len() > 0 && !sorted[0].created_at.spec_is_before(d.created_at) {
        lemma_newest_slot(sorted.drop_first(), d);
        assert forall|i: int| 1 <= i < newest_slot(sorted, d) implies !(
        #[trigger] sorted[i]).created_at.spec_is_before(d.created_at) by {
            assert(sorted[i] == sorted.drop_first()[i - 1]);
        }
    }
}

/// Listing newest first orders the downloads so that none comes after one
/// created later than it.
pub proof fn newest_first_is_ordered(s: Seq<Download>)
    ensures
        is_newest_first(newest_first(s)),
    decreases s.len(),
{
    if s.len() > 0 {
        let rest = newest_first(s.drop_last());
        let d = s.last();
        newest_first_is_ordered(s.drop_last());
        lemma_newest_slot(rest, d);
        let p = newest_slot(rest, d);
        let u = rest.insert(p, d);
        assert forall|i: int, j: int| 0 <= i < j < u.len() implies !(
        #[trigger] u[i]).created_at.spec_is_before((#[trigger] u[j]).created_at) by {
            if j < p {
                assert(u[i] == rest[i] && u[j] == rest[j]);
            } else if j == p {
                assert(u[i] == rest[i]);
            } else if i < p {
                assert(u[i] == rest[i] && u[j] == rest[j - 1]);
            } else if i == p {
                assert(u[j] == rest[j - 1]);
                assert(rest[p].created_at.spec_is_before(d.created_at));
                if j - 1 > p {
                    assert(!rest[p].created_at.spec_is_before(rest[j - 1].created_at));
                }
            } else {
                assert(u[i] == rest[i - 1] && u[j] == rest[j - 1]);
            }
        }
    }
}

/// Listing newest first neither loses nor adds downloads.
pub proof fn newest_first_keeps_downloads(s: Seq<Download>)
    ensures
        newest_first(s).to_multiset() == s.to_multiset(),
    decreases s.len(),
{
    if s.len() > 0 {
        let rest = newest_first(s.drop_last());
        newest_first_keeps_downloads(s.drop_last());
        lemma_newest_slot(rest, s.last());
        vstd::seq_lib::to_multiset_insert(rest, newest_slot(rest, s.last()), s.last());
        vstd::seq_lib::to_multiset_build(s.drop_last(), s.last());
        assert(s.drop_last().push(s.last()) =~= s);
    }
}


/// A listing of the store holds every stored download, newest first.
pub proof fn listing_holds_the_store_newest_first(m: Map<u128, Download>, s: Seq<Download>)
    requires
        enumerates(m, s),
    ensures
        is_newest_first(newest_first(s)),
        newest_first(s).len() == m.len(),
        forall|k: u128| #[trigger] m.contains_key(k) ==> newest_first(s).contains(m[k]),
        forall|i: int|
            0 <= i < newest_first(s).len() ==> lookup(m, (#[trigger] newest_first(s)[i]).id) == Some(
                newest_first(s)[i],
            ),
{
    newest_first_is_ordered(s);
    newest_first_keeps_downloads(s);
    let n = newest_first(s);
    assert(n.len() == n.to_multiset().len());
    assert forall|k: u128| #[trigger] m.contains_key(k) implies n.contains(m[k]) by {
        assert(s.contains(m[k]));
        assert(s.to_multiset().count(m[k]) > 0);
        assert(n.to_multiset().count(m[k]) > 0);
    }
    assert forall|i: int| 0 <= i < n.len() implies lookup(m, (#[trigger] n[i]).id) == Some(n[i]) by {
        assert(n.contains(n[i]));
        assert(n.to_multiset().count(n[i]) > 0);
        assert(s.to_multiset().count(n[i]) > 0);
        assert(s.contains(n[i]));
        let j = choose|j: int| 0 <= j < s.len() && s[j] == n[i];
        assert(lookup(m, s[j].id) == Some(s[j]));
    }
}

} // verus!
