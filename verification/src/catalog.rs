//! The upstream catalogs that were fetched last.

use crate::find::{find, lemma_find, lemma_find_agrees, lemma_find_push, lemma_found};
use crate::keys::copy_texts;
use crate::order::{lemma_ranked, ranked, sort_ranked, text_le, Ranked};
use crate::text::same_text;
use crate::validate::{distinct_texts, no_repeats};
use vstd::prelude::*;
use vstd::string::*;

verus! {

/// The models that a provider listed, and when.
#[derive(Debug)]
pub struct CachedCatalog {
    pub provider_id: String,
    pub models: Vec<String>,
    pub fetched_at_ms: i64,
}

/// The catalogs that were fetched last.
#[derive(Debug)]
pub struct CatalogCache {
    pub entries: Vec<CachedCatalog>,
}

/// Whether a catalog is that of a provider.
pub open spec fn catalog_of(provider_id: Seq<char>) -> spec_fn(CachedCatalog) -> bool {
    |entry: CachedCatalog| entry.provider_id@ == provider_id
}

/// What is cached of a provider: its models and when they were fetched. A
/// catalog without models leaves nothing.
pub open spec fn cached(cache: CatalogCache, provider_id: Seq<char>) -> Option<(Seq<String>, i64)> {
    match find(cache.entries@, catalog_of(provider_id)) {
        Some(i) => if cache.entries@[i].models@.len() > 0 {
            Some((cache.entries@[i].models@, cache.entries@[i].fetched_at_ms))
        } else {
            None
        },
        None => None,
    }
}

/// What comes of a catalog that was fetched.
pub open spec fn catalog_taken_in(
    before: CatalogCache,
    after: CatalogCache,
    r: bool,
    provider_id: Seq<char>,
    models: Seq<String>,
    fetched_at_ms: i64,
) -> bool {
    &&& r == distinct_texts(models)
    &&& !r ==> after == before
    &&& r ==> cached(after, provider_id) == if models.len() > 0 {
        Some((models, fetched_at_ms))
    } else {
        None
    }
    &&& forall|other: Seq<char>|
        other != provider_id ==> cached(after, other) == cached(before, other)
}

/// The models of the catalog of a provider that was fetched last, by name.
pub open spec fn models_cached(cache: CatalogCache, provider_id: Seq<char>) -> Seq<String> {
    match cached(cache, provider_id) {
        Some((models, _)) => ranked(models),
        None => Seq::empty(),
    }
}

/// When the catalog of a provider was fetched last.
pub open spec fn time_cached(cache: CatalogCache, provider_id: Seq<char>) -> Option<i64> {
    match cached(cache, provider_id) {
        Some((_, at)) => Some(at),
        None => None,
    }
}

impl CatalogCache {
    /// Where the catalog of a provider stands.
    fn place(&self, provider_id: &str) -> (r: Option<usize>)
        ensures
            r is Some <==> find(self.entries@, catalog_of(provider_id@)) is Some,
            r matches Some(i) ==> find(self.entries@, catalog_of(provider_id@)) == Some(i as int)
                && i < self.entries@.len() && self.entries@[i as int].provider_id@ == provider_id@,
    {
        let ghost wanted = catalog_of(provider_id@);
        let mut i: usize = 0;
        while i < self.entries.len()
            invariant
                i <= self.entries@.len(),
                wanted == catalog_of(provider_id@),
                forall|k: int| 0 <= k < i ==> !wanted(#[trigger] self.entries@[k]),
            decreases self.entries@.len() - i,
        {
            if same_text(self.entries[i].provider_id.as_str(), provider_id) {
                proof {
                    lemma_found(self.entries@, wanted, i as int);
                }
                return Some(i);
            }
            i = i + 1;
        }
        proof {
            lemma_found(self.entries@, wanted, i as int);
        }
        None
    }

    /// Puts a catalog that was fetched in the place of the last one. One that
    /// lists a model twice is refused, and the last one stays.
    pub fn cache_upstream_models(
        &mut self,
        provider_id: &str,
        models: Vec<String>,
        fetched_at_ms: i64,
    ) -> (r: bool)
        ensures
            catalog_taken_in(*old(self), *final(self), r, provider_id@, models@, fetched_at_ms),
    {
        if !no_repeats(&models) {
            return false;
        }
        let ghost before = *self;
        match self.place(provider_id) {
            Some(i) => {
                self.entries[i].models = models;
                self.entries[i].fetched_at_ms = fetched_at_ms;
                proof {
                    assert forall|id: Seq<char>| find(self.entries@, #[trigger] catalog_of(id))
                        == find(before.entries@, catalog_of(id)) by {
                        let wanted = catalog_of(id);
                        assert forall|k: int| 0 <= k < self.entries@.len() implies wanted(
                            #[trigger] self.entries@[k],
                        ) == wanted(before.entries@[k]) by {}
                        lemma_find_agrees(self.entries@, before.entries@, wanted);
                    }
                    assert(find(self.entries@, catalog_of(provider_id@)) == Some(i as int));
                    assert forall|other: Seq<char>| other != provider_id@ implies cached(
                        *self,
                        other,
                    ) == cached(before, other) by {
                        assert(find(self.entries@, catalog_of(other)) == find(
                            before.entries@,
                            catalog_of(other),
                        ));
                        lemma_find(before.entries@, catalog_of(other));
                        if find(before.entries@, catalog_of(other)) is Some {
                            let k = find(before.entries@, catalog_of(other))->0;
                            assert(k != i);
                            assert(self.entries@[k] == before.entries@[k]);
                        }
                    }
                }
            },
            None => {
                let entry = CachedCatalog {
                    provider_id: provider_id.to_owned(),
                    models,
                    fetched_at_ms,
                };
                let ghost added = entry;
                self.entries.push(entry);
                proof {
                    assert forall|id: Seq<char>| find(self.entries@, #[trigger] catalog_of(id))
                        == (match find(before.entries@, catalog_of(id)) {
                        Some(k) => Some(k),
                        None => if id == provider_id@ {
                            Some(before.entries@.len() as int)
                        } else {
                            None
                        },
                    }) by {
                        lemma_find_push(before.entries@, added, catalog_of(id));
                    }
                    assert(find(self.entries@, catalog_of(provider_id@)) == Some(
                        before.entries@.len() as int,
                    ));
                    assert forall|other: Seq<char>| other != provider_id@ implies cached(
                        *self,
                        other,
                    ) == cached(before, other) by {
                        assert(find(self.entries@, catalog_of(other)) == find(
                            before.entries@,
                            catalog_of(other),
                        ));
                        lemma_find(before.entries@, catalog_of(other));
                    }
                }
            },
        }
        true
    }

    /// The models of the catalog of a provider that was fetched last, by name.
    pub fn cached_upstream_models(&self, provider_id: &str) -> (r: Vec<String>)
        ensures
            r@ == models_cached(*self, provider_id@),
    {
        match self.place(provider_id) {
            Some(i) => {
                let models = copy_texts(&self.entries[i].models);
                proof {
                    if models@.len() == 0 {
                        assert(ranked(models@) =~= Seq::<String>::empty());
                    }
                }
                sort_ranked(models)
            },
            None => Vec::new(),
        }
    }

    /// When the catalog of a provider was fetched last.
    pub fn cached_upstream_models_fetched_at(&self, provider_id: &str) -> (r: Option<i64>)
        ensures
            r == time_cached(*self, provider_id@),
    {
        match self.place(provider_id) {
            Some(i) => if self.entries[i].models.len() > 0 {
                Some(self.entries[i].fetched_at_ms)
            } else {
                None
            },
            None => None,
        }
    }
}

/// A catalog takes the place of the last one of its provider, and of no other;
/// one that lists a model twice changes nothing.
pub proof fn law_the_last_catalog_counts(
    before: CatalogCache,
    after: CatalogCache,
    r: bool,
    provider_id: Seq<char>,
    models: Seq<String>,
    fetched_at_ms: i64,
    other: Seq<char>,
)
    requires
        catalog_taken_in(before, after, r, provider_id, models, fetched_at_ms),
    ensures
        (exists|i: int, j: int|
            0 <= i < j < models.len() && (#[trigger] models[i])@ == (#[trigger] models[j])@)
            ==> !r && after == before,
        (forall|i: int, j: int|
            0 <= i < j < models.len() ==> (#[trigger] models[i])@ != (#[trigger] models[j])@) ==> r,
        r && models.len() > 0 ==> time_cached(after, provider_id) == Some(fetched_at_ms)
            && models_cached(after, provider_id).to_multiset() == models.to_multiset(),
        r && models.len() == 0 ==> time_cached(after, provider_id) is None && models_cached(
            after,
            provider_id,
        ).len() == 0,
        other != provider_id ==> models_cached(after, other) == models_cached(before, other)
            && time_cached(after, other) == time_cached(before, other),
{
    lemma_ranked(models);
}

/// The models that are cached stand by name; a provider without a catalog has
/// none, and no time.
pub proof fn law_cached_models_stand_by_name(
    cache: CatalogCache,
    provider_id: Seq<char>,
    i: int,
    j: int,
)
    ensures
        0 <= i <= j < models_cached(cache, provider_id).len() ==> text_le(
            models_cached(cache, provider_id)[i]@,
            models_cached(cache, provider_id)[j]@,
        ),
        (forall|k: int|
            0 <= k < cache.entries@.len() ==> (#[trigger] cache.entries@[k]).provider_id@
                != provider_id) ==> models_cached(cache, provider_id).len() == 0 && time_cached(
            cache,
            provider_id,
        ) is None,
        time_cached(cache, provider_id) is None <==> models_cached(cache, provider_id).len() == 0,
{
    lemma_find(cache.entries@, catalog_of(provider_id));
    if let Some(k) = find(cache.entries@, catalog_of(provider_id)) {
        assert(cache.entries@[k].provider_id@ == provider_id);
    }
    if let Some((models, at)) = cached(cache, provider_id) {
        lemma_ranked(models);
        if 0 <= i <= j < ranked(models).len() {
            assert(ranked(models)[i].rank_le(ranked(models)[j]));
        }
    }
}

} // verus!
