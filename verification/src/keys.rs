//! Relay access keys: making, editing, revoking, listing and recognizing them.

use crate::find::{find, lemma_find, lemma_found};
use crate::order::{
    lemma_ranked, lemma_text_order, ranked, sort_ranked, text_at_most, text_le, Ranked,
};
use crate::store::{
    at_field, key_at, key_ok, key_with, plain, refused, refused_at, refused_value, route_at,
    route_ok, route_with, KeyRow, Refusal, RouteRow, Store, StoreError,
};
use crate::stream::{is_same_letter, same_letter};
use crate::text::{chars_of, joined, same_bytes, string_between, trim, trimmed};
use crate::validate::{
    distinct_texts, fits, valid_eligible_model_route_ids, validate_relay_key_label,
};
use vstd::prelude::*;
use vstd::string::*;
use vstd::utf8::encode_utf8;

verus! {

/// A key as it is shown once, when it is made.
#[derive(Debug, Clone)]
pub struct CreatedRelayAccessKey {
    pub id: String,
    pub secret: String,
    pub secret_prefix: String,
    pub label: String,
    pub created_at: i64,
    pub model_route_ids: Vec<String>,
}

/// A key as it is listed.
#[derive(Debug, Clone)]
pub struct RelayAccessKeySummary {
    pub id: String,
    pub secret_prefix: String,
    /// The secret, where it was kept for showing it again.
    pub secret: Option<String>,
    pub label: String,
    pub created_at: i64,
    pub revoked_at: Option<i64>,
    pub model_route_ids: Vec<String>,
}

/// The secret of a key, made of a generated text.
pub open spec fn secret_with(generated: Seq<char>) -> Seq<char> {
    "lar_"@ + generated
}

/// The secret of a key, made of a generated text.
pub fn relay_secret(generated: &str) -> (r: String)
    ensures
        r@ == secret_with(generated@),
{
    joined("lar_", generated)
}

/// Whether every text is the id of a route.
pub open spec fn all_routes(store: Store, ids: Seq<String>) -> bool {
    forall|i: int| 0 <= i < ids.len() ==> route_at(store.routes@, (#[trigger] ids[i])@) is Some
}

/// Why the label or the routes of a key are refused.
pub open spec fn key_values_refusal(label: Seq<char>, model_route_ids: Seq<String>) -> Option<
    Refusal,
> {
    if !fits(trimmed(label), 128) {
        Some(at_field("label"@, "relay access key label must be between 1 and 128 characters"@))
    } else if model_route_ids.len() == 0 {
        Some(at_field("model_route_ids"@, "at least one eligible model route is required"@))
    } else if !distinct_texts(model_route_ids) {
        Some(at_field("model_route_ids"@, "eligible model routes must not contain duplicates"@))
    } else {
        None
    }
}

/// The refusal of a route that is not there.
pub open spec fn route_missing() -> Refusal {
    at_field("model_route_ids"@, "selected eligible model route does not exist"@)
}

/// Why a new key is refused.
pub open spec fn new_key_refusal(store: Store, label: Seq<char>, ids: Seq<String>) -> Option<
    Refusal,
> {
    match key_values_refusal(label, ids) {
        Some(refusal) => Some(refusal),
        None => if !all_routes(store, ids) {
            Some(route_missing())
        } else {
            None
        },
    }
}

/// Why an edit of a key is refused.
pub open spec fn key_edit_refusal(
    store: Store,
    key_id: Seq<char>,
    label: Seq<char>,
    ids: Seq<String>,
) -> Option<Refusal> {
    match key_values_refusal(label, ids) {
        Some(refusal) => Some(refusal),
        None => if key_at(store.keys@, key_id) is None {
            Some(plain("relay access key does not exist"@))
        } else if !all_routes(store, ids) {
            Some(route_missing())
        } else {
            None
        },
    }
}

/// The label and the sorted routes of a key.
fn check_key_values(label: &str, model_route_ids: &Vec<String>) -> (r: Result<
    (String, Vec<String>),
    StoreError,
>)
    ensures
        r matches Ok(values) ==> {
            &&& key_values_refusal(label@, model_route_ids@) is None
            &&& values.0@ == trimmed(label@)
            &&& values.1@ == ranked(model_route_ids@)
        },
        r matches Err(error) ==> key_values_refusal(label@, model_route_ids@) == Some(error@),
{
    let label = match validate_relay_key_label(label) {
        Ok(label) => label,
        Err(error) => {
            return Err(refused_value(error));
        },
    };
    match valid_eligible_model_route_ids(model_route_ids) {
        Ok(ids) => Ok((label, ids)),
        Err(error) => Err(refused_value(error)),
    }
}

/// Sorting keeps texts distinct.
proof fn lemma_ranked_distinct(ids: Seq<String>)
    requires
        distinct_texts(ids),
    ensures
        distinct_texts(ranked(ids)),
{
    let order = ranked(ids);
    lemma_ranked(ids);
    assert(ids.no_duplicates()) by {
        assert forall|i: int, j: int| 0 <= i < ids.len() && 0 <= j < ids.len() && i != j implies ids[i]
            != ids[j] by {
            if i < j {
                assert(ids[i]@ != ids[j]@);
            } else {
                assert(ids[j]@ != ids[i]@);
            }
        }
    }
    ids.lemma_multiset_has_no_duplicates();
    order.lemma_multiset_has_no_duplicates_conv();
    assert forall|i: int, j: int| 0 <= i < j < order.len() implies (#[trigger] order[i])@ != (
    #[trigger] order[j])@ by {
        assert(order.contains(order[i]) && order.contains(order[j]));
        assert(ids.contains(order[i]) && ids.contains(order[j]));
        let a = choose|a: int| 0 <= a < ids.len() && ids[a] == order[i];
        let b = choose|b: int| 0 <= b < ids.len() && ids[b] == order[j];
        assert(order[i] != order[j]);
        if a < b {
            assert(ids[a]@ != ids[b]@);
        } else {
            assert(ids[b]@ != ids[a]@);
        }
    }
}

/// Sorting keeps every route that is there.
proof fn lemma_ranked_routes(store: Store, ids: Seq<String>)
    ensures
        all_routes(store, ranked(ids)) == all_routes(store, ids),
{
    let order = ranked(ids);
    lemma_ranked(ids);
    if all_routes(store, ids) {
        assert forall|i: int| 0 <= i < order.len() implies route_at(
            store.routes@,
            (#[trigger] order[i])@,
        ) is Some by {
            assert(order.contains(order[i]));
            let a = choose|a: int| 0 <= a < ids.len() && ids[a] == order[i];
            assert(route_at(store.routes@, ids[a]@) is Some);
        }
    }
    if all_routes(store, order) {
        assert forall|i: int| 0 <= i < ids.len() implies route_at(
            store.routes@,
            (#[trigger] ids[i])@,
        ) is Some by {
            assert(ids.contains(ids[i]));
            assert(order.contains(ids[i]));
            let a = choose|a: int| 0 <= a < order.len() && order[a] == ids[i];
            assert(route_at(store.routes@, order[a]@) is Some);
        }
    }
}

/// Whether two configurations differ at most in their keys.
pub open spec fn keys_apart(before: Store, after: Store) -> bool {
    &&& after.schema == before.schema
    &&& after.providers == before.providers
    &&& after.models == before.models
    &&& after.routes == before.routes
    &&& after.settings == before.settings
}

/// A change of keys alone leaves what routes refer to as it is.
proof fn lemma_keys_keep_routes(before: Store, after: Store)
    requires
        before.wf(),
        keys_apart(before, after),
    ensures
        forall|i: int|
            0 <= i < after.routes@.len() ==> route_ok(after, #[trigger] after.routes@[i]),
        forall|key: KeyRow| key_ok(after, key) == key_ok(before, key),
{
    assert forall|i: int| 0 <= i < after.routes@.len() implies route_ok(
        after,
        #[trigger] after.routes@[i],
    ) by {
        assert(route_ok(before, before.routes@[i]));
    }
}

/// What comes of making a key.
pub open spec fn key_created(
    before: Store,
    after: Store,
    r: Result<CreatedRelayAccessKey, StoreError>,
    id: String,
    secret: String,
    secret_hash: Vec<u8>,
    created_at: i64,
    label: Seq<char>,
    model_route_ids: Vec<String>,
) -> bool {
    match new_key_refusal(before, label, model_route_ids@) {
        Some(refusal) => r is Err && r->Err_0@ == refusal && after == before,
        None => {
            let added = after.keys@.last();
            let made = r->Ok_0;
            &&& r is Ok
            &&& keys_apart(before, after)
            &&& after.keys@ == before.keys@.push(added)
            &&& added.id == id
            &&& added.secret_prefix@ == secret@.take(12)
            &&& added.secret_hash == secret_hash
            &&& added.secret == if before.schema >= 17 {
                Some(secret)
            } else {
                None
            }
            &&& added.label@ == trimmed(label)
            &&& added.created_at == created_at
            &&& added.revoked_at is None
            &&& added.model_route_ids@ == ranked(model_route_ids@)
            &&& made.id == id
            &&& made.secret == secret
            &&& made.secret_prefix == added.secret_prefix
            &&& made.label == added.label
            &&& made.created_at == created_at
            &&& made.model_route_ids@ == ranked(model_route_ids@)
        },
    }
}

/// What comes of editing a key.
pub open spec fn key_updated(
    before: Store,
    after: Store,
    r: Result<(), StoreError>,
    key_id: Seq<char>,
    label: Seq<char>,
    model_route_ids: Vec<String>,
) -> bool {
    match key_edit_refusal(before, key_id, label, model_route_ids@) {
        Some(refusal) => r is Err && r->Err_0@ == refusal && after == before,
        None => {
            let i = key_at(before.keys@, key_id)->0;
            let is = after.keys@[i];
            &&& r is Ok
            &&& keys_apart(before, after)
            &&& after.keys@ == before.keys@.update(i, is)
            &&& is.label@ == trimmed(label)
            &&& is.model_route_ids@ == ranked(model_route_ids@)
            &&& is == (KeyRow {
                label: is.label,
                model_route_ids: is.model_route_ids,
                ..before.keys@[i]
            })
        },
    }
}

/// What comes of revoking a key.
pub open spec fn key_revoked(
    before: Store,
    after: Store,
    r: Result<(), StoreError>,
    key_id: Seq<char>,
    now: i64,
) -> bool {
    match key_at(before.keys@, key_id) {
        None => r is Err && r->Err_0@ == plain("relay access key does not exist"@)
            && after == before,
        Some(i) => {
            let was = before.keys@[i];
            &&& r is Ok
            &&& keys_apart(before, after)
            &&& after.keys@ == before.keys@.update(i, revoked(was, now))
        },
    }
}

/// Whether `r` is the key that a secret's hash belongs to, unless it is revoked.
pub open spec fn recognized(
    store: Store,
    r: Option<String>,
    secret_hash: Seq<u8>,
) -> bool {
    match find(store.keys@, live_key_with(secret_hash)) {
        Some(i) => r == Some(store.keys@[i].id),
        None => r is None,
    }
}

impl Store {
    /// Whether every text is the id of a route.
    fn has_all_routes(&self, ids: &Vec<String>) -> (r: bool)
        ensures
            r == all_routes(*self, ids@),
    {
        for i in 0..ids.len()
            invariant
                forall|k: int|
                    0 <= k < i ==> route_at(self.routes@, (#[trigger] ids@[k])@) is Some,
        {
            if self.find_route(ids[i].as_str()).is_none() {
                proof {
                    assert(route_at(self.routes@, ids@[i as int]@) is None);
                }
                return false;
            }
        }
        true
    }

    /// Makes a key under a new id. Of its secret the beginning is kept, and
    /// from schema 17 on all of it.
    pub fn create_relay_access_key(
        &mut self,
        id: String,
        secret: String,
        secret_hash: Vec<u8>,
        created_at: i64,
        label: &str,
        model_route_ids: &Vec<String>,
    ) -> (r: Result<CreatedRelayAccessKey, StoreError>)
        requires
            old(self).wf(),
            key_at(old(self).keys@, id@) is None,
            secret.is_ascii(),
            secret@.len() >= 12,
        ensures
            final(self).wf(),
            key_created(
                *old(self),
                *final(self),
                r,
                id,
                secret,
                secret_hash,
                created_at,
                label@,
                *model_route_ids,
            ),
    {
        let ghost before = *self;
        let (label, ids) = match check_key_values(label, model_route_ids) {
            Ok(values) => values,
            Err(error) => {
                return Err(error);
            },
        };
        proof {
            lemma_ranked_routes(before, model_route_ids@);
            lemma_ranked_distinct(model_route_ids@);
            lemma_ranked(model_route_ids@);
        }
        if !self.has_all_routes(&ids) {
            return Err(
                refused_at("model_route_ids", "selected eligible model route does not exist"),
            );
        }
        let prefix = string_between(chars_of(secret.as_str()).as_slice(), 0, 12);
        proof {
            assert(secret@.subrange(0, 12) =~= secret@.take(12));
        }
        let listed = copy_texts(&ids);
        let made = CreatedRelayAccessKey {
            id: id.clone(),
            secret: secret.clone(),
            secret_prefix: prefix.clone(),
            label: label.clone(),
            created_at,
            model_route_ids: listed,
        };
        let row = KeyRow {
            id,
            secret_prefix: prefix,
            secret_hash,
            secret: if self.schema >= 17 {
                Some(secret)
            } else {
                None
            },
            label,
            created_at,
            revoked_at: None,
            model_route_ids: ids,
        };
        let ghost added = row;
        self.keys.push(row);
        proof {
            lemma_find(before.keys@, key_with(added.id@));
            lemma_keys_keep_routes(before, *self);
            assert forall|i: int| 0 <= i < self.keys@.len() implies key_ok(
                *self,
                #[trigger] self.keys@[i],
            ) by {
                if i < before.keys@.len() {
                    assert(key_ok(before, before.keys@[i]));
                } else {
                    assert(key_ok(before, added));
                }
            }
        }
        Ok(made)
    }

    /// Edits the label and the routes of a key.
    pub fn update_relay_access_key(
        &mut self,
        key_id: &str,
        label: &str,
        model_route_ids: &Vec<String>,
    ) -> (r: Result<(), StoreError>)
        requires
            old(self).wf(),
        ensures
            final(self).wf(),
            key_updated(
                *old(self),
                *final(self),
                r,
                key_id@,
                label@,
                *model_route_ids,
            ),
    {
        let ghost before = *self;
        let (label, ids) = match check_key_values(label, model_route_ids) {
            Ok(values) => values,
            Err(error) => {
                return Err(error);
            },
        };
        let i: usize = match self.find_key(key_id) {
            Some(i) => i,
            None => {
                return Err(refused("relay access key does not exist"));
            },
        };
        proof {
            lemma_ranked_routes(before, model_route_ids@);
            lemma_ranked_distinct(model_route_ids@);
            lemma_ranked(model_route_ids@);
        }
        if !self.has_all_routes(&ids) {
            return Err(
                refused_at("model_route_ids", "selected eligible model route does not exist"),
            );
        }
        self.keys[i].label = label;
        self.keys[i].model_route_ids = ids;
        proof {
            assert(self.keys@ =~= before.keys@.update(i as int, self.keys@[i as int]));
            lemma_key_edited(before, *self, i as int);
        }
        Ok(())
    }

    /// Revokes a key. Done twice, the first time stays on record.
    pub fn revoke_relay_access_key(&mut self, key_id: &str, now: i64) -> (r: Result<
        (),
        StoreError,
    >)
        requires
            old(self).wf(),
        ensures
            final(self).wf(),
            key_revoked(
                *old(self),
                *final(self),
                r,
                key_id@,
                now,
            ),
    {
        let ghost before = *self;
        match self.find_key(key_id) {
            None => Err(refused("relay access key does not exist")),
            Some(i) => {
                if self.keys[i].revoked_at.is_none() {
                    self.keys[i].revoked_at = Some(now);
                }
                proof {
                    assert(self.keys@ =~= before.keys@.update(i as int, self.keys@[i as int]));
                    assert(key_ok(before, before.keys@[i as int]));
                    lemma_key_edited(before, *self, i as int);
                }
                Ok(())
            },
        }
    }

    /// The key that a secret's hash belongs to, unless it is revoked.
    pub fn authenticate_relay_access_key(&self, secret_hash: &[u8]) -> (r: Option<String>)
        ensures
            recognized(*self, r, secret_hash@),
    {
        let ghost wanted = live_key_with(secret_hash@);
        let mut i: usize = 0;
        while i < self.keys.len()
            invariant
                i <= self.keys@.len(),
                wanted == live_key_with(secret_hash@),
                forall|k: int| 0 <= k < i ==> !wanted(#[trigger] self.keys@[k]),
            decreases self.keys@.len() - i,
        {
            if self.keys[i].revoked_at.is_none() && same_bytes(
                self.keys[i].secret_hash.as_slice(),
                secret_hash,
            ) {
                proof {
                    lemma_found(self.keys@, wanted, i as int);
                }
                return Some(self.keys[i].id.clone());
            }
            i = i + 1;
        }
        proof {
            lemma_found(self.keys@, wanted, i as int);
        }
        None
    }
}

/// A key after it was revoked.
pub open spec fn revoked(key: KeyRow, now: i64) -> KeyRow {
    KeyRow {
        revoked_at: match key.revoked_at {
            Some(at) => Some(at),
            None => Some(now),
        },
        ..key
    }
}

/// Whether a key is not revoked and has the hash of a secret.
pub open spec fn live_key_with(secret_hash: Seq<u8>) -> spec_fn(KeyRow) -> bool {
    |key: KeyRow| key.revoked_at is None && key.secret_hash@ == secret_hash
}

/// An edited key keeps the configuration in order.
proof fn lemma_key_edited(before: Store, after: Store, i: int)
    requires
        before.wf(),
        keys_apart(before, after),
        0 <= i < before.keys@.len(),
        after.keys@ == before.keys@.update(i, after.keys@[i]),
        after.keys@[i].id == before.keys@[i].id,
        key_ok(before, after.keys@[i]),
    ensures
        after.wf(),
{
    lemma_keys_keep_routes(before, after);
    assert forall|k: int| 0 <= k < after.keys@.len() implies key_ok(
        after,
        #[trigger] after.keys@[k],
    ) by {
        if k != i {
            assert(key_ok(before, before.keys@[k]));
        }
    }
    assert forall|a: int, b: int| 0 <= a < b < after.keys@.len() implies (
    #[trigger] after.keys@[a]).id@ != (#[trigger] after.keys@[b]).id@ by {
        assert(before.keys@[a].id@ != before.keys@[b].id@);
    }
}

/// A copy of texts.
pub fn copy_texts(texts: &Vec<String>) -> (r: Vec<String>)
    ensures
        r@ == texts@,
{
    let mut out: Vec<String> = Vec::new();
    for i in 0..texts.len()
        invariant
            out@ == texts@.take(i as int),
    {
        out.push(texts[i].clone());
        proof {
            assert(texts@.take(i + 1) =~= texts@.take(i as int).push(texts@[i as int]));
        }
    }
    proof {
        assert(texts@.take(texts@.len() as int) =~= texts@);
    }
    out
}

/// A key that was revoked is not recognized again, whatever is done to revoke
/// it once more, and revoking it again changes nothing.
pub proof fn law_revoked_keys_stay_out(key: KeyRow, hash: Seq<u8>, now: i64, later: i64)
    ensures
        !live_key_with(hash)(revoked(key, now)),
        revoked(revoked(key, now), later) == revoked(key, now),
{
}

/// Whether a text matches a pattern in which `%` stands for any characters and
/// `_` for one, the case of ASCII letters aside.
pub open spec fn like(pattern: Seq<char>, text: Seq<char>) -> bool
    decreases pattern.len(), text.len(),
{
    if pattern.len() == 0 {
        text.len() == 0
    } else if pattern[0] == '%' {
        like(pattern.drop_first(), text) || (text.len() > 0 && like(pattern, text.drop_first()))
    } else {
        text.len() > 0 && (pattern[0] == '_' || same_letter(pattern[0], text[0])) && like(
            pattern.drop_first(),
            text.drop_first(),
        )
    }
}

/// Whether the text from `t` on matches the pattern from `p` on.
fn matches_from(pattern: &[char], p: usize, text: &[char], t: usize) -> (r: bool)
    requires
        p <= pattern@.len(),
        t <= text@.len(),
    ensures
        r == like(pattern@.skip(p as int), text@.skip(t as int)),
    decreases pattern@.len() - p, text@.len() - t,
{
    proof {
        if p < pattern@.len() {
            assert(pattern@.skip(p as int).drop_first() =~= pattern@.skip(p + 1));
        }
        if t < text@.len() {
            assert(text@.skip(t as int).drop_first() =~= text@.skip(t + 1));
        }
    }
    if p == pattern.len() {
        return t == text.len();
    }
    if pattern[p] == '%' {
        if matches_from(pattern, p + 1, text, t) {
            return true;
        }
        return t < text.len() && matches_from(pattern, p, text, t + 1);
    }
    t < text.len() && (pattern[p] == '_' || is_same_letter(pattern[p], text[t])) && matches_from(
        pattern,
        p + 1,
        text,
        t + 1,
    )
}

/// The pattern of a search: anything that holds the searched text.
pub open spec fn search_pattern(search: Option<Seq<char>>) -> Seq<char> {
    seq!['%'] + (match search {
        Some(text) => trimmed(text),
        None => Seq::empty(),
    }) + seq!['%']
}

/// Whether a search finds a key by its label or by the beginning of its
/// secret.
pub open spec fn search_finds(pattern: Seq<char>, key: KeyRow) -> bool {
    like(pattern, key.label@) || like(pattern, key.secret_prefix@)
}

/// A key as it is listed.
pub open spec fn is_summary(schema: int, key: KeyRow, summary: RelayAccessKeySummary) -> bool {
    &&& summary.id == key.id
    &&& summary.secret_prefix == key.secret_prefix
    &&& summary.secret == if schema >= 17 {
        key.secret
    } else {
        None
    }
    &&& summary.label == key.label
    &&& summary.created_at == key.created_at
    &&& summary.revoked_at == key.revoked_at
    &&& summary.model_route_ids@ == ranked(key.model_route_ids@)
}

/// The place of a key and when it was made.
#[derive(Debug)]
pub struct KeyPlace {
    pub place: usize,
    pub created_at: i64,
    pub id: String,
}

impl Ranked for KeyPlace {
    open spec fn rank_le(self, other: Self) -> bool {
        self.created_at > other.created_at || (self.created_at == other.created_at && text_le(
            self.id@,
            other.id@,
        ))
    }

    proof fn lemma_rank_order(a: Self, b: Self, c: Self) {
        lemma_text_order(a.id@, b.id@, c.id@);
    }

    fn at_most(&self, other: &Self) -> (r: bool) {
        self.created_at > other.created_at || (self.created_at == other.created_at && text_at_most(
            self.id.as_str(),
            other.id.as_str(),
        ))
    }
}

/// The keys among the first `n` that a search finds.
pub open spec fn found_upto(keys: Seq<KeyRow>, pattern: Seq<char>, n: int) -> Seq<KeyPlace>
    decreases n,
{
    if n <= 0 {
        Seq::empty()
    } else {
        let before = found_upto(keys, pattern, n - 1);
        if search_finds(pattern, keys[n - 1]) {
            before.push(
                KeyPlace {
                    place: (n - 1) as usize,
                    created_at: keys[n - 1].created_at,
                    id: keys[n - 1].id,
                },
            )
        } else {
            before
        }
    }
}

/// The keys that a search finds, the newest first, those of the same time by
/// id.
pub open spec fn found_keys(keys: Seq<KeyRow>, search: Option<Seq<char>>) -> Seq<KeyPlace> {
    ranked(found_upto(keys, search_pattern(search), keys.len() as int))
}

/// Every place found is that of a key.
proof fn lemma_found_places(keys: Seq<KeyRow>, pattern: Seq<char>, n: int, m: int)
    requires
        0 <= n <= keys.len(),
        keys.len() <= usize::MAX,
        0 <= m < found_upto(keys, pattern, n).len(),
    ensures
        found_upto(keys, pattern, n)[m].place < n,
    decreases n,
{
    let before = found_upto(keys, pattern, n - 1);
    if m < before.len() {
        lemma_found_places(keys, pattern, n - 1, m);
        assert(found_upto(keys, pattern, n)[m] == before[m]);
    }
}

impl Store {
    /// Lists the keys that a search finds, the newest first.
    pub fn relay_access_keys(&self, search: Option<&str>) -> (r: Vec<RelayAccessKeySummary>)
        ensures
            ({
                let found = found_keys(
                    self.keys@,
                    match search {
                        Some(text) => Some(text@),
                        None => None,
                    },
                );
                &&& r@.len() == found.len()
                &&& forall|i: int|
                    0 <= i < r@.len() ==> is_summary(
                        self.schema as int,
                        self.keys@[found[i].place as int],
                        #[trigger] r@[i],
                    )
            }),
    {
        let trimmed_search = match search {
            Some(text) => trim(text),
            None => String::new(),
        };
        let ghost asked = match search {
            Some(text) => Some(text@),
            None => None,
        };
        let pattern = chars_of(joined(joined("%", trimmed_search.as_str()).as_str(), "%").as_str());
        proof {
            reveal_strlit("%");
            assert("%"@ =~= seq!['%']);
            assert(pattern@ =~= search_pattern(asked));
        }
        let total: usize = self.keys.len();
        let mut places: Vec<KeyPlace> = Vec::new();
        for i in 0..total
            invariant
                total == self.keys@.len(),
                pattern@ == search_pattern(asked),
                places@ == found_upto(self.keys@, pattern@, i as int),
        {
            let key = &self.keys[i];
            let label = chars_of(key.label.as_str());
            let prefix = chars_of(key.secret_prefix.as_str());
            proof {
                assert(pattern@.skip(0) =~= pattern@);
                assert(label@.skip(0) =~= label@);
                assert(prefix@.skip(0) =~= prefix@);
            }
            if matches_from(pattern.as_slice(), 0, label.as_slice(), 0) || matches_from(
                pattern.as_slice(),
                0,
                prefix.as_slice(),
                0,
            ) {
                places.push(KeyPlace { place: i, created_at: key.created_at, id: key.id.clone() });
            }
        }
        let ghost unordered = places@;
        let order = sort_ranked(places);
        let mut out: Vec<RelayAccessKeySummary> = Vec::new();
        for m in 0..order.len()
            invariant
                total == self.keys@.len(),
                unordered == found_upto(self.keys@, pattern@, total as int),
                order@ == ranked(unordered),
                out@.len() == m,
                forall|i: int|
                    0 <= i < m ==> is_summary(
                        self.schema as int,
                        self.keys@[order@[i].place as int],
                        #[trigger] out@[i],
                    ),
        {
            proof {
                lemma_ranked(unordered);
                assert(order@.contains(order@[m as int]));
                let q = choose|q: int| 0 <= q < unordered.len() && unordered[q] == order@[m as int];
                lemma_found_places(self.keys@, pattern@, total as int, q);
            }
            let key = &self.keys[order[m].place];
            let secret = if self.schema >= 17 {
                key.secret.clone()
            } else {
                None
            };
            out.push(
                RelayAccessKeySummary {
                    id: key.id.clone(),
                    secret_prefix: key.secret_prefix.clone(),
                    secret,
                    label: key.label.clone(),
                    created_at: key.created_at,
                    revoked_at: key.revoked_at,
                    model_route_ids: sort_ranked(copy_texts(&key.model_route_ids)),
                },
            );
        }
        out
    }
}

/// Whether some route has an id.
pub open spec fn some_route_has(routes: Seq<RouteRow>, id: Seq<char>) -> bool {
    exists|k: int| 0 <= k < routes.len() && (#[trigger] routes[k]).id@ == id
}

/// A key is accepted where its label takes 1 to 128 bytes and it lists at least
/// one route, none twice and each of them there; what is refused is laid to the
/// field that is wrong.
pub proof fn law_keys_are_accepted(store: Store, label: Seq<char>, ids: Seq<String>)
    ensures
        ({
            let refusal = new_key_refusal(store, label, ids);
            let label_ok = trimmed(label).len() > 0 && encode_utf8(trimmed(label)).len() <= 128;
            let apart = forall|i: int, j: int|
                0 <= i < j < ids.len() ==> (#[trigger] ids[i])@ != (#[trigger] ids[j])@;
            let there = forall|i: int|
                0 <= i < ids.len() ==> some_route_has(store.routes@, (#[trigger] ids[i])@);
            &&& refusal is None <==> label_ok && ids.len() > 0 && apart && there
            &&& !label_ok ==> refusal->0.field == Some("label"@)
            &&& label_ok && refusal is Some ==> refusal->0.field == Some("model_route_ids"@)
        }),
{
    assert forall|i: int| 0 <= i < ids.len() implies (route_at(
        store.routes@,
        (#[trigger] ids[i])@,
    ) is Some <==> some_route_has(store.routes@, ids[i]@)) by {
        lemma_find(store.routes@, route_with(ids[i]@));
        if let Some(k) = route_at(store.routes@, ids[i]@) {
            assert(store.routes@[k].id@ == ids[i]@);
        } else {
            assert forall|k: int| 0 <= k < store.routes@.len() implies (
            #[trigger] store.routes@[k]).id@ != ids[i]@ by {
                assert(!(route_with(ids[i]@))(store.routes@[k]));
            }
        }
    }
}

/// A key that is there is edited under the conditions under which a new one is
/// made; one that is not there is refused.
pub proof fn law_key_edits_are_accepted(
    store: Store,
    key_id: Seq<char>,
    label: Seq<char>,
    ids: Seq<String>,
)
    ensures
        (exists|k: int| 0 <= k < store.keys@.len() && (#[trigger] store.keys@[k]).id@ == key_id)
            ==> key_edit_refusal(store, key_id, label, ids) == new_key_refusal(store, label, ids),
        (forall|k: int| 0 <= k < store.keys@.len() ==> (#[trigger] store.keys@[k]).id@ != key_id)
            ==> key_edit_refusal(store, key_id, label, ids) is Some,
{
    lemma_find(store.keys@, key_with(key_id));
    if let Some(k) = key_at(store.keys@, key_id) {
        assert(store.keys@[k].id@ == key_id);
    } else {
        assert forall|k: int| 0 <= k < store.keys@.len() implies (#[trigger] store.keys@[k]).id@
            != key_id by {
            assert(!(key_with(key_id))(store.keys@[k]));
        }
    }
}

/// A new key comes last, with its label and routes, in force, and its secret is
/// shown once; of the secret its first 12 characters and its hash are kept, and
/// all of it only from schema 17 on.
pub proof fn law_created_keys_are_kept(
    before: Store,
    after: Store,
    r: Result<CreatedRelayAccessKey, StoreError>,
    id: String,
    secret: String,
    secret_hash: Vec<u8>,
    created_at: i64,
    label: Seq<char>,
    ids: Vec<String>,
)
    requires
        key_created(before, after, r, id, secret, secret_hash, created_at, label, ids),
        secret@.len() >= 12,
    ensures
        r is Err ==> after == before,
        r is Ok <==> new_key_refusal(before, label, ids@) is None,
        r matches Ok(made) ==> {
            let added = after.keys@.last();
            &&& after.keys@.drop_last() == before.keys@
            &&& after.keys@.len() == before.keys@.len() + 1
            &&& added.id@ == id@ && made.id@ == id@
            &&& added.secret_prefix@.len() == 12
            &&& added.secret_prefix@ + secret@.skip(12) == secret@
            &&& made.secret_prefix@ == added.secret_prefix@
            &&& added.secret_hash@ == secret_hash@
            &&& before.schema >= 17 ==> added.secret == Some(secret)
            &&& before.schema < 17 ==> added.secret is None
            &&& made.secret@ == secret@
            &&& added.label@ == trimmed(label) && made.label@ == trimmed(label)
            &&& added.created_at == created_at && made.created_at == created_at
            &&& added.revoked_at is None
            &&& added.model_route_ids@.to_multiset() == ids@.to_multiset()
            &&& made.model_route_ids@ == added.model_route_ids@
            &&& after.providers == before.providers && after.models == before.models
                && after.routes == before.routes && after.settings == before.settings
        },
{
    lemma_ranked(ids@);
    if r is Ok {
        assert(after.keys@.drop_last() =~= before.keys@);
        assert(secret@.take(12) + secret@.skip(12) =~= secret@);
    }
}

/// A key is found where no key before it has its id.
proof fn lemma_key_found(store: Store, i: int)
    requires
        store.wf(),
        0 <= i < store.keys@.len(),
    ensures
        key_at(store.keys@, store.keys@[i].id@) == Some(i),
{
    assert forall|q: int| 0 <= q < i implies !(key_with(store.keys@[i].id@))(
        #[trigger] store.keys@[q],
    ) by {
        assert(store.keys@[q].id@ != store.keys@[i].id@);
    }
    lemma_found(store.keys@, key_with(store.keys@[i].id@), i);
}

/// An edit of a key changes its label and its routes, and nothing else of it or
/// of anything.
pub proof fn law_edited_keys_are_kept(
    before: Store,
    after: Store,
    r: Result<(), StoreError>,
    label: Seq<char>,
    ids: Vec<String>,
    i: int,
    k: int,
)
    requires
        before.wf(),
        0 <= i < before.keys@.len(),
        0 <= k < before.keys@.len(),
        key_updated(before, after, r, before.keys@[i].id@, label, ids),
    ensures
        r is Err ==> after == before,
        r is Ok <==> new_key_refusal(before, label, ids@) is None,
        r is Ok ==> {
            let (was, is) = (before.keys@[i], after.keys@[i]);
            &&& is.label@ == trimmed(label)
            &&& is.model_route_ids@.to_multiset() == ids@.to_multiset()
            &&& is.id == was.id && is.secret_prefix == was.secret_prefix && is.secret_hash
                == was.secret_hash && is.secret == was.secret && is.created_at == was.created_at
                && is.revoked_at == was.revoked_at
            &&& k != i ==> after.keys@[k] == before.keys@[k]
            &&& after.keys@.len() == before.keys@.len()
            &&& after.providers == before.providers && after.models == before.models
                && after.routes == before.routes && after.settings == before.settings
        },
{
    lemma_key_found(before, i);
    lemma_ranked(ids@);
}

/// A key is revoked from now on, and the first time stays on record; other keys
/// stay as they are.
pub proof fn law_keys_are_revoked_once(
    before: Store,
    after: Store,
    r: Result<(), StoreError>,
    now: i64,
    i: int,
    k: int,
)
    requires
        before.wf(),
        0 <= i < before.keys@.len(),
        0 <= k < before.keys@.len(),
        key_revoked(before, after, r, before.keys@[i].id@, now),
    ensures
        r is Ok,
        before.keys@[i].revoked_at is None ==> after.keys@[i].revoked_at == Some(now),
        before.keys@[i].revoked_at is Some ==> after.keys@[i] == before.keys@[i],
        after.keys@[i].id == before.keys@[i].id,
        after.keys@[i].label == before.keys@[i].label,
        after.keys@[i].secret_hash == before.keys@[i].secret_hash,
        after.keys@[i].model_route_ids == before.keys@[i].model_route_ids,
        k != i ==> after.keys@[k] == before.keys@[k],
        after.keys@.len() == before.keys@.len(),
        after.providers == before.providers && after.models == before.models && after.routes
            == before.routes && after.settings == before.settings,
{
    lemma_key_found(before, i);
}

/// A key that is not there cannot be revoked, and nothing changes.
pub proof fn law_unknown_keys_are_not_revoked(
    before: Store,
    after: Store,
    r: Result<(), StoreError>,
    key_id: Seq<char>,
    now: i64,
)
    requires
        key_revoked(before, after, r, key_id, now),
        forall|k: int| 0 <= k < before.keys@.len() ==> (#[trigger] before.keys@[k]).id@ != key_id,
    ensures
        r is Err && r->Err_0@.message == "relay access key does not exist"@,
        after == before,
{
    lemma_find(before.keys@, key_with(key_id));
    if let Some(k) = key_at(before.keys@, key_id) {
        assert(before.keys@[k].id@ == key_id);
    }
}

/// A secret is recognized exactly where a key that is not revoked has its hash;
/// the key that is answered is such a one.
pub proof fn law_secrets_are_recognized(store: Store, r: Option<String>, secret_hash: Seq<u8>, i: int)
    requires
        recognized(store, r, secret_hash),
        0 <= i < store.keys@.len(),
    ensures
        store.keys@[i].revoked_at is None && store.keys@[i].secret_hash@ == secret_hash
            ==> r is Some,
        r matches Some(id) ==> exists|k: int|
            0 <= k < store.keys@.len() && (#[trigger] store.keys@[k]).id == id
                && store.keys@[k].revoked_at is None && store.keys@[k].secret_hash@ == secret_hash,
{
    lemma_find(store.keys@, live_key_with(secret_hash));
    match find(store.keys@, live_key_with(secret_hash)) {
        Some(k) => {
            assert((live_key_with(secret_hash))(store.keys@[k]));
            assert(store.keys@[k].id == r->0);
        },
        None => {
            assert(!(live_key_with(secret_hash))(store.keys@[i]));
        },
    }
}

/// A pattern without wildcards matches what differs from it at most in the case
/// of letters; `_` stands for one character, and `%` for any number of them.
pub proof fn law_patterns_match(c: char, pattern: Seq<char>, text: Seq<char>)
    ensures
        like(Seq::empty(), text) <==> text.len() == 0,
        c != '%' && c != '_' ==> (like(seq![c] + pattern, text) <==> text.len() > 0 && same_letter(
            c,
            text[0],
        ) && like(pattern, text.skip(1))),
        like(seq!['_'] + pattern, text) <==> text.len() > 0 && like(pattern, text.skip(1)),
        like(seq!['%'] + pattern, text) <==> exists|k: int|
            0 <= k <= text.len() && like(pattern, #[trigger] text.skip(k)),
    decreases text.len(),
{
    let single = seq![c] + pattern;
    let one = seq!['_'] + pattern;
    let any = seq!['%'] + pattern;
    assert(single.drop_first() =~= pattern);
    assert(one.drop_first() =~= pattern);
    assert(any.drop_first() =~= pattern);
    assert(text.skip(0) =~= text);
    if text.len() > 0 {
        let rest = text.drop_first();
        assert(text.skip(1) =~= rest);
        law_patterns_match(c, pattern, rest);
        if like(any, rest) {
            let k = choose|k: int| 0 <= k <= rest.len() && like(pattern, #[trigger] rest.skip(k));
            assert(rest.skip(k) =~= text.skip(k + 1));
        }
        assert forall|k: int| 0 < k <= text.len() && like(
            pattern,
            #[trigger] text.skip(k),
        ) implies like(any, rest) by {
            assert(rest.skip(k - 1) =~= text.skip(k));
        }
    }
}

proof fn lemma_like_itself(part: Seq<char>, tail: Seq<char>)
    ensures
        like(part + seq!['%'], part + tail),
    decreases part.len(),
{
    if part.len() == 0 {
        assert(part + seq!['%'] =~= seq!['%'] + Seq::<char>::empty());
        assert(part + tail =~= tail);
        law_patterns_match('%', Seq::empty(), tail);
        assert(tail.skip(tail.len() as int) =~= Seq::<char>::empty());
        assert(like(Seq::empty(), tail.skip(tail.len() as int)));
    } else {
        let rest = part.drop_first();
        lemma_like_itself(rest, tail);
        let c = part[0];
        assert(part + seq!['%'] =~= seq![c] + (rest + seq!['%']));
        assert((part + tail).skip(1) =~= rest + tail);
        assert((part + tail)[0] == c);
        law_patterns_match(c, rest + seq!['%'], part + tail);
        if c == '%' {
            assert(like(rest + seq!['%'], (part + tail).skip(1)));
        }
    }
}

/// A search finds every key whose label, or whose secret's beginning, holds the
/// searched text; a search for nothing finds every key.
pub proof fn law_searches_find_what_holds_the_text(
    searched: Seq<char>,
    key: KeyRow,
    head: Seq<char>,
    tail: Seq<char>,
)
    ensures
        key.label@ == head + trimmed(searched) + tail ==> search_finds(
            search_pattern(Some(searched)),
            key,
        ),
        key.secret_prefix@ == head + trimmed(searched) + tail ==> search_finds(
            search_pattern(Some(searched)),
            key,
        ),
        search_finds(search_pattern(None), key),
{
    let text = trimmed(searched);
    let whole = head + text + tail;
    lemma_like_itself(text, tail);
    assert(search_pattern(Some(searched)) =~= seq!['%'] + (text + seq!['%']));
    law_patterns_match('%', text + seq!['%'], whole);
    assert(whole.skip(head.len() as int) =~= text + tail);
    assert(like(text + seq!['%'], whole.skip(head.len() as int)));
    lemma_like_itself(Seq::empty(), key.label@);
    assert(Seq::<char>::empty() + seq!['%'] =~= seq!['%']);
    assert(Seq::<char>::empty() + key.label@ =~= key.label@);
    assert(search_pattern(None) =~= seq!['%'] + seq!['%']);
    law_patterns_match('%', seq!['%'], key.label@);
    assert(key.label@.skip(0) =~= key.label@);
    assert(like(seq!['%'], key.label@.skip(0)));
}

/// What a search for plain text finds holds it, the case of letters aside.
pub proof fn law_what_is_found_holds_the_text(
    part: Seq<char>,
    text: Seq<char>,
) -> (at: int)
    requires
        forall|i: int| 0 <= i < part.len() ==> #[trigger] part[i] != '%' && part[i] != '_',
        like(seq!['%'] + part + seq!['%'], text),
    ensures
        0 <= at <= at + part.len() <= text.len(),
        forall|i: int| 0 <= i < part.len() ==> same_letter(#[trigger] part[i], text[at + i]),
{
    assert(seq!['%'] + part + seq!['%'] =~= seq!['%'] + (part + seq!['%']));
    law_patterns_match('%', part + seq!['%'], text);
    let at = choose|at: int|
        0 <= at <= text.len() && like(part + seq!['%'], #[trigger] text.skip(at));
    lemma_like_holds(part, text.skip(at));
    assert forall|i: int| 0 <= i < part.len() implies same_letter(#[trigger] part[i], text[at + i]) by {
        assert(text.skip(at)[i] == text[at + i]);
    }
    at
}

proof fn lemma_like_holds(part: Seq<char>, text: Seq<char>)
    requires
        forall|i: int| 0 <= i < part.len() ==> #[trigger] part[i] != '%' && part[i] != '_',
        like(part + seq!['%'], text),
    ensures
        part.len() <= text.len(),
        forall|i: int| 0 <= i < part.len() ==> same_letter(#[trigger] part[i], text[i]),
    decreases part.len(),
{
    if part.len() > 0 {
        let rest = part.drop_first();
        let c = part[0];
        assert(part + seq!['%'] =~= seq![c] + (rest + seq!['%']));
        law_patterns_match(c, rest + seq!['%'], text);
        assert forall|i: int| 0 <= i < rest.len() implies #[trigger] rest[i] != '%' && rest[i]
            != '_' by {
            assert(part[i + 1] == rest[i]);
        }
        lemma_like_holds(rest, text.skip(1));
        assert forall|i: int| 0 <= i < part.len() implies same_letter(
            #[trigger] part[i],
            text[i],
        ) by {
            if i > 0 {
                assert(rest[i - 1] == part[i]);
                assert(text.skip(1)[i - 1] == text[i]);
            }
        }
    }
}

/// A listed key shows its label, times, routes and the beginning of its secret;
/// the secret itself only from schema 17 on.
pub proof fn law_listed_keys_show_what_is_kept(
    schema: int,
    key: KeyRow,
    summary: RelayAccessKeySummary,
)
    requires
        is_summary(schema, key, summary),
    ensures
        summary.id@ == key.id@,
        summary.label@ == key.label@,
        summary.secret_prefix@ == key.secret_prefix@,
        summary.created_at == key.created_at,
        summary.revoked_at == key.revoked_at,
        schema < 17 ==> summary.secret is None,
        schema >= 17 ==> summary.secret == key.secret,
        summary.model_route_ids@.to_multiset() == key.model_route_ids@.to_multiset(),
{
    lemma_ranked(key.model_route_ids@);
}

proof fn lemma_found_upto(keys: Seq<KeyRow>, pattern: Seq<char>, n: int, i: int)
    requires
        0 <= i < n <= keys.len(),
        keys.len() <= usize::MAX,
        search_finds(pattern, keys[i]),
    ensures
        exists|m: int|
            0 <= m < found_upto(keys, pattern, n).len() && (#[trigger] found_upto(
                keys,
                pattern,
                n,
            )[m]).place == i,
    decreases n,
{
    let before = found_upto(keys, pattern, n - 1);
    let now = found_upto(keys, pattern, n);
    if i < n - 1 {
        lemma_found_upto(keys, pattern, n - 1, i);
        let m = choose|m: int| 0 <= m < before.len() && (#[trigger] before[m]).place == i;
        assert(now[m].place == i);
    } else {
        assert(now[before.len() as int].place == i);
    }
}

proof fn lemma_found_from(keys: Seq<KeyRow>, pattern: Seq<char>, n: int, m: int)
    requires
        0 <= n <= keys.len(),
        keys.len() <= usize::MAX,
        0 <= m < found_upto(keys, pattern, n).len(),
    ensures
        ({
            let found = found_upto(keys, pattern, n)[m];
            &&& found.place < n
            &&& search_finds(pattern, keys[found.place as int])
            &&& found.created_at == keys[found.place as int].created_at
            &&& found.id == keys[found.place as int].id
        }),
    decreases n,
{
    let before = found_upto(keys, pattern, n - 1);
    if m < before.len() {
        lemma_found_from(keys, pattern, n - 1, m);
        assert(found_upto(keys, pattern, n)[m] == before[m]);
    }
}

/// Every key that a search finds is listed, and no other; the newest come
/// first.
pub proof fn law_found_keys_are_listed(
    keys: Seq<KeyRow>,
    search: Option<Seq<char>>,
    i: int,
)
    requires
        0 <= i < keys.len() <= usize::MAX,
    ensures
        search_finds(search_pattern(search), keys[i]) ==> exists|m: int|
            0 <= m < found_keys(keys, search).len() && (#[trigger] found_keys(
                keys,
                search,
            )[m]).place == i,
        forall|m: int|
            0 <= m < found_keys(keys, search).len() ==> {
                let place = (#[trigger] found_keys(keys, search)[m]).place as int;
                place < keys.len() && search_finds(search_pattern(search), keys[place])
            },
        forall|m: int, q: int|
            0 <= m < q < found_keys(keys, search).len() ==> keys[(#[trigger] found_keys(
                keys,
                search,
            )[m]).place as int].created_at >= keys[(#[trigger] found_keys(
                keys,
                search,
            )[q]).place as int].created_at,
{
    let pattern = search_pattern(search);
    let n = keys.len() as int;
    let found = found_upto(keys, pattern, n);
    let listed = found_keys(keys, search);
    lemma_ranked(found);
    if search_finds(pattern, keys[i]) {
        lemma_found_upto(keys, pattern, n, i);
        let f = choose|f: int| 0 <= f < found.len() && (#[trigger] found[f]).place == i;
        assert(found.contains(found[f]));
        assert(listed.contains(found[f]));
        let m = choose|m: int| 0 <= m < listed.len() && listed[m] == found[f];
        assert(listed[m].place == i);
    }
    assert forall|m: int| 0 <= m < listed.len() implies ({
        let place = (#[trigger] listed[m]).place as int;
        &&& place < keys.len()
        &&& search_finds(pattern, keys[place])
        &&& listed[m].created_at == keys[place].created_at
    }) by {
        assert(listed.contains(listed[m]));
        let f = choose|f: int| 0 <= f < found.len() && found[f] == listed[m];
        lemma_found_from(keys, pattern, n, f);
    }
    assert forall|m: int, q: int| 0 <= m < q < listed.len() implies keys[(
    #[trigger] listed[m]).place as int].created_at >= keys[(
    #[trigger] listed[q]).place as int].created_at by {
        assert(listed[m].rank_le(listed[q]));
        assert(listed[m].created_at == keys[listed[m].place as int].created_at);
        assert(listed[q].created_at == keys[listed[q].place as int].created_at);
    }
}

/// A secret carries its mark and then what was generated, so that different
/// generated texts make different secrets.
pub proof fn law_secrets_carry_what_was_generated(generated: Seq<char>, other: Seq<char>)
    ensures
        secret_with(generated).len() == generated.len() + 4,
        secret_with(generated).take(4) == "lar_"@,
        secret_with(generated).skip(4) == generated,
        secret_with(generated) == secret_with(other) ==> generated == other,
{
    reveal_strlit("lar_");
    assert(secret_with(generated).take(4) =~= "lar_"@);
    assert(secret_with(generated).skip(4) =~= generated);
    assert(secret_with(other).skip(4) =~= other);
}

} // verus!
