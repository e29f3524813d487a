//! The key-package directory: for each connection, the bundles it has
//! published and nobody has fetched yet.
//!
//! A bundle is whatever the cryptographic engine produces. The directory
//! stores it as it came and never looks inside, so the type is a parameter.
//! Bundles leave in the reverse of the order in which they came: a fetch
//! takes the one published last.

use crate::ClientId;
use std::collections::HashMap;
use vstd::prelude::*;

verus! {

broadcast use vstd::std_specs::hash::group_hash_axioms;

/// The bundles that `m` holds for `id`, oldest first; none where `m` has
/// no entry for it.
pub open spec fn shelf<B>(m: Map<ClientId, Seq<B>>, id: ClientId) -> Seq<B> {
    if m.contains_key(id) {
        m[id]
    } else {
        Seq::empty()
    }
}

/// `m` after `id` has published `bundle`.
pub open spec fn published<B>(m: Map<ClientId, Seq<B>>, id: ClientId, bundle: B) -> Map<
    ClientId,
    Seq<B>,
> {
    m.insert(id, shelf(m, id).push(bundle))
}

/// `m` after the bundles have been published for `id`, first to last.
pub open spec fn published_all<B>(m: Map<ClientId, Seq<B>>, id: ClientId, bundles: Seq<B>) -> Map<
    ClientId,
    Seq<B>,
>
    decreases bundles.len(),
{
    if bundles.len() == 0 {
        m
    } else {
        published(published_all(m, id, bundles.drop_last()), id, bundles.last())
    }
}

/// Taking one bundle of `id` out of `m`: the bundle published last, and `m`
/// without it. Where `id` has none, nothing is taken and `m` stays.
pub open spec fn taken<B>(m: Map<ClientId, Seq<B>>, id: ClientId) -> (
    Map<ClientId, Seq<B>>,
    Option<B>,
) {
    if shelf(m, id).len() > 0 {
        (m.insert(id, shelf(m, id).drop_last()), Some(shelf(m, id).last()))
    } else {
        (m, None)
    }
}

/// One fetch for `ids`: going through them first to last, one bundle is
/// taken for each identifier that still has one, and the identifier is
/// passed over where it has none. The result is `m` after that, and the
/// bundles found, each with its identifier, in the order of `ids`.
pub open spec fn fetched<B>(m: Map<ClientId, Seq<B>>, ids: Seq<ClientId>) -> (
    Map<ClientId, Seq<B>>,
    Seq<(ClientId, B)>,
)
    decreases ids.len(),
{
    if ids.len() == 0 {
        (m, Seq::empty())
    } else {
        let before = fetched(m, ids.drop_last());
        let id = ids.last();
        match taken(before.0, id).1 {
            Some(bundle) => (taken(before.0, id).0, before.1.push((id, bundle))),
            None => before,
        }
    }
}

/// `m` after `k` fetches in a row, each for `id` alone.
pub open spec fn after_fetches<B>(m: Map<ClientId, Seq<B>>, id: ClientId, k: nat) -> Map<
    ClientId,
    Seq<B>,
>
    decreases k,
{
    if k == 0 {
        m
    } else {
        fetched(after_fetches(m, id, (k - 1) as nat), seq![id]).0
    }
}

/// The directory. Its view maps an identifier to its bundles, oldest first.
pub struct KeyPackageDirectory<B> {
    packages: HashMap<usize, Vec<B>>,
}

impl<B> View for KeyPackageDirectory<B> {
    type V = Map<ClientId, Seq<B>>;

    closed spec fn view(&self) -> Map<ClientId, Seq<B>> {
        Map::new(
            |id: ClientId| self.packages@.contains_key(id.0),
            |id: ClientId| self.packages@[id.0]@,
        )
    }
}

impl<B> KeyPackageDirectory<B> {
    /// A directory that holds nothing.
    pub fn new() -> (dir: Self)
        ensures
            dir@ == Map::<ClientId, Seq<B>>::empty(),
    {
        let dir = KeyPackageDirectory { packages: HashMap::new() };
        assert(dir@ =~= Map::<ClientId, Seq<B>>::empty());
        dir
    }

    /// How many bundles of `id` wait to be fetched.
    pub fn count(&self, id: ClientId) -> (n: usize)
        ensures
            n == shelf(self@, id).len(),
    {
        match self.packages.get(&id.0) {
            Some(bundles) => bundles.len(),
            None => 0,
        }
    }

    /// Stores `bundle` as the newest of `id`.
    pub fn publish(&mut self, id: ClientId, bundle: B)
        ensures
            final(self)@ == published(old(self)@, id, bundle),
    {
        let mut bundles: Vec<B> = match self.packages.remove(&id.0) {
            Some(bundles) => bundles,
            None => Vec::new(),
        };
        bundles.push(bundle);
        self.packages.insert(id.0, bundles);
        assert(self@ =~= published(old(self)@, id, bundle));
    }

    /// Takes out the newest bundle of `id`, if it has one.
    pub fn take(&mut self, id: ClientId) -> (res: Option<B>)
        ensures
            final(self)@ == taken(old(self)@, id).0,
            res == taken(old(self)@, id).1,
    {
        match self.packages.remove(&id.0) {
            Some(bundles) => {
                let mut bundles: Vec<B> = bundles;
                let newest = bundles.pop();
                self.packages.insert(id.0, bundles);
                assert(self@ =~= taken(old(self)@, id).0);
                newest
            },
            None => {
                assert(self@ =~= old(self)@);
                None
            },
        }
    }

    /// Takes out one bundle for each of `ids` that has one, and returns
    /// them with their identifiers. An identifier without a bundle is left
    /// out of the result; one that is named twice is served twice.
    pub fn fetch(&mut self, ids: &Vec<ClientId>) -> (found: Vec<(ClientId, B)>)
        ensures
            final(self)@ == fetched(old(self)@, ids@).0,
            found@ == fetched(old(self)@, ids@).1,
    {
        let mut found: Vec<(ClientId, B)> = Vec::new();
        let mut i: usize = 0;
        while i < ids.len()
            invariant
                i <= ids.len(),
                self@ == fetched(old(self)@, ids@.take(i as int)).0,
                found@ == fetched(old(self)@, ids@.take(i as int)).1,
            decreases ids.len() - i,
        {
            let id = ids[i];
            assert(ids@.take(i + 1).drop_last() =~= ids@.take(i as int));
            match self.take(id) {
                Some(bundle) => {
                    found.push((id, bundle));
                },
                None => {},
            }
            i += 1;
        }
        assert(ids@.take(ids.len() as int) =~= ids@);
        found
    }
}

/// Publishing puts the bundles behind those already there, in order, and
/// touches no other identifier.
pub proof fn lemma_published_all<B>(m: Map<ClientId, Seq<B>>, id: ClientId, bundles: Seq<B>)
    ensures
        shelf(published_all(m, id, bundles), id) == shelf(m, id) + bundles,
        forall|other: ClientId|
            other != id ==> shelf(#[trigger] published_all(m, id, bundles), other) == shelf(
                m,
                other,
            ),
    decreases bundles.len(),
{
    if bundles.len() == 0 {
        assert(shelf(m, id) + bundles =~= shelf(m, id));
    } else {
        lemma_published_all(m, id, bundles.drop_last());
        assert((shelf(m, id) + bundles.drop_last()).push(bundles.last()) =~= shelf(m, id)
            + bundles);
    }
}

/// A fetch for one identifier takes one bundle of it, or nothing.
pub proof fn lemma_fetch_single<B>(m: Map<ClientId, Seq<B>>, id: ClientId)
    ensures
        fetched(m, seq![id]).0 == taken(m, id).0,
        fetched(m, seq![id]).1 == (match taken(m, id).1 {
            Some(bundle) => seq![(id, bundle)],
            None => Seq::empty(),
        }),
{
    let ids = seq![id];
    assert(ids.drop_last() =~= Seq::<ClientId>::empty());
    assert(fetched(m, ids.drop_last()) == (m, Seq::<(ClientId, B)>::empty()));
    match taken(m, id).1 {
        Some(bundle) => {
            assert(Seq::<(ClientId, B)>::empty().push((id, bundle)) =~= seq![(id, bundle)]);
        },
        None => {},
    }
}

/// Each fetch for `id` shortens its bundles by the newest, until none is
/// left; from then on it changes nothing.
pub proof fn lemma_after_fetches<B>(m: Map<ClientId, Seq<B>>, id: ClientId, k: nat)
    ensures
        k <= shelf(m, id).len() ==> shelf(after_fetches(m, id, k), id) == shelf(m, id).take(
            shelf(m, id).len() - k,
        ),
        k > shelf(m, id).len() ==> shelf(after_fetches(m, id, k), id).len() == 0,
    decreases k,
{
    let all = shelf(m, id);
    if k == 0 {
        assert(all.take(all.len() as int) =~= all);
    } else {
        let prev = after_fetches(m, id, (k - 1) as nat);
        lemma_after_fetches(m, id, (k - 1) as nat);
        lemma_fetch_single(prev, id);
        if k <= all.len() {
            assert(all.take(all.len() - k + 1).drop_last() =~= all.take(all.len() - k));
        }
    }
}

/// A fetch finds bundles for requested identifiers only, at most one for
/// each time an identifier is named, and none for an identifier that has
/// none: where no requested identifier has a bundle, the result is empty
/// and the directory is as before.
pub proof fn lemma_fetch_within_request<B>(m: Map<ClientId, Seq<B>>, ids: Seq<ClientId>)
    ensures
        fetched(m, ids).1.len() <= ids.len(),
        forall|k: int|
            0 <= k < fetched(m, ids).1.len() ==> ids.contains((#[trigger] fetched(m, ids).1[k]).0),
        (forall|i: int| 0 <= i < ids.len() ==> shelf(m, #[trigger] ids[i]).len() == 0) ==> fetched(
            m,
            ids,
        ) == (m, Seq::<(ClientId, B)>::empty()),
    decreases ids.len(),
{
    if ids.len() > 0 {
        let front = ids.drop_last();
        lemma_fetch_within_request::<B>(m, front);
        let before = fetched(m, front);
        assert forall|k: int| 0 <= k < fetched(m, ids).1.len() implies ids.contains(
            (#[trigger] fetched(m, ids).1[k]).0,
        ) by {
            if k < before.1.len() {
                let found = before.1[k].0;
                assert(front.contains(found));
                let i = choose|i: int| 0 <= i < front.len() && front[i] == found;
                assert(ids[i] == found);
            } else {
                assert(ids[ids.len() - 1] == ids.last());
            }
        }
        if forall|i: int| 0 <= i < ids.len() ==> shelf(m, #[trigger] ids[i]).len() == 0 {
            assert forall|i: int| 0 <= i < front.len() implies shelf(m, #[trigger] front[i]).len()
                == 0 by {
                assert(front[i] == ids[i]);
            }
            assert(shelf(m, ids[ids.len() - 1]).len() == 0);
        }
    }
}

/// Last in, first out. After bundles have been published for an identifier
/// that had none, the first fetch for it returns the one published last,
/// the second the one before, and so on; once as many fetches have been
/// served as bundles were published, a fetch finds nothing for it.
pub proof fn lemma_last_in_first_out<B>(
    m: Map<ClientId, Seq<B>>,
    id: ClientId,
    bundles: Seq<B>,
    k: nat,
)
    requires
        shelf(m, id).len() == 0,
    ensures
        k < bundles.len() ==> fetched(
            after_fetches(published_all(m, id, bundles), id, k),
            seq![id],
        ).1 == seq![(id, bundles[bundles.len() - 1 - k])],
        k >= bundles.len() ==> fetched(
            after_fetches(published_all(m, id, bundles), id, k),
            seq![id],
        ).1 == Seq::<(ClientId, B)>::empty(),
{
    let full = published_all(m, id, bundles);
    lemma_published_all(m, id, bundles);
    assert(shelf(m, id) + bundles =~= bundles);
    lemma_after_fetches(full, id, k);
    lemma_fetch_single(after_fetches(full, id, k), id);
}

} // verus!
