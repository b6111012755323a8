//! Whether the local data can be kept: which kinds of records failed to
//! persist, and when that is over.

use crate::find::{find, lemma_find, lemma_found};
use crate::order::{lemma_text_order, text_at_most, text_le};
use crate::text::same_text;
use vstd::prelude::*;
use vstd::string::*;

verus! {

/// The state of the storage.
#[derive(Debug, Clone, Copy, PartialEq, Eq, Structural)]
pub enum StorageState {
    Healthy,
    /// Some records could not be persisted.
    Degraded,
    /// Records persist again, but the database did not pass its check.
    NotReady,
}

/// The name of a state.
pub open spec fn state_name(state: StorageState) -> Seq<char> {
    match state {
        StorageState::Healthy => "healthy"@,
        StorageState::Degraded => "degraded"@,
        StorageState::NotReady => "not_ready"@,
    }
}

impl StorageState {
    /// The name of the state.
    pub fn as_str(self) -> (r: &'static str)
        ensures
            r@ == state_name(self),
    {
        match self {
            StorageState::Healthy => "healthy",
            StorageState::Degraded => "degraded",
            StorageState::NotReady => "not_ready",
        }
    }
}

/// A kind of records that fails to persist.
#[derive(Debug)]
pub struct StorageCategoryFailure {
    pub category: String,
    pub since: i64,
    pub error: String,
    /// How many records were lost, where that is known.
    pub lost_records: Option<u64>,
}

/// The state of the storage, and the kinds of records that fail to persist, in
/// the order of their names.
#[derive(Debug)]
pub struct StorageHealth {
    pub state: StorageState,
    pub since: i64,
    pub categories: Vec<StorageCategoryFailure>,
}

/// Whether a failure is that of a kind of records.
pub open spec fn failure_of(category: Seq<char>) -> spec_fn(StorageCategoryFailure) -> bool {
    |failure: StorageCategoryFailure| failure.category@ == category
}

/// The failure of a kind of records, if it fails.
pub open spec fn failing(health: StorageHealth, category: Seq<char>) -> Option<
    StorageCategoryFailure,
> {
    match find(health.categories@, failure_of(category)) {
        Some(i) => Some(health.categories@[i]),
        None => None,
    }
}

/// Records lost so far and lost now; unknown as soon as one of them is.
pub open spec fn lost_together(known: Option<u64>, lost: Option<u64>) -> Option<u64> {
    match (known, lost) {
        (Some(a), Some(b)) => Some((a + b) as u64),
        _ => None,
    }
}

/// What comes of records of a kind that could not be persisted.
pub open spec fn failure_taken_in(
    before: StorageHealth,
    after: StorageHealth,
    r: bool,
    category: Seq<char>,
    error: Seq<char>,
    lost_records: Option<u64>,
    now: i64,
) -> bool {
    let now_failing = failing(after, category)->0;
    &&& r == (before.state == StorageState::Healthy)
    &&& after.state == if r {
        StorageState::Degraded
    } else {
        before.state
    }
    &&& after.since == if r {
        now
    } else {
        before.since
    }
    &&& failing(after, category) is Some
    &&& now_failing.category@ == category
    &&& now_failing.error@ == error
    &&& match failing(before, category) {
        Some(was) => now_failing.since == was.since && now_failing.lost_records == lost_together(
            was.lost_records,
            lost_records,
        ),
        None => now_failing.since == now && now_failing.lost_records == lost_records,
    }
    &&& forall|other: Seq<char>|
        other != category ==> failing(after, other) == failing(before, other)
}

/// What comes of records of a kind that persisted.
pub open spec fn success_taken_in(
    before: StorageHealth,
    after: StorageHealth,
    r: bool,
    category: Seq<char>,
) -> bool {
    &&& after.state == before.state
    &&& after.since == before.since
    &&& failing(after, category) is None
    &&& forall|other: Seq<char>|
        other != category ==> failing(after, other) == failing(before, other)
    &&& r == (failing(before, category) is Some && after.categories@.len() == 0)
}

/// What comes of the check of the database.
pub open spec fn check_taken_in(
    before: StorageHealth,
    after: StorageHealth,
    r: Option<StorageState>,
    integrity_ok: bool,
    now: i64,
) -> bool {
    &&& after.categories == before.categories
    &&& after.state == settled(before, integrity_ok)
    &&& after.since == if before.categories@.len() == 0 {
        now
    } else {
        before.since
    }
    &&& r == if after.state == StorageState::Degraded {
        None
    } else {
        Some(after.state)
    }
}

impl StorageHealth {
    /// Whether the kinds of records stand in order, none twice, and none fails
    /// while the storage is healthy.
    pub open spec fn wf(self) -> bool {
        &&& forall|i: int, j: int|
            0 <= i < j < self.categories@.len() ==> (#[trigger] self.categories@[i]).category@ != (
            #[trigger] self.categories@[j]).category@ && text_le(
                self.categories@[i].category@,
                self.categories@[j].category@,
            )
        &&& self.state == StorageState::Healthy ==> self.categories@.len() == 0
    }

    /// A storage without failures.
    pub fn healthy(now: i64) -> (r: Self)
        ensures
            r.wf(),
            r.state == StorageState::Healthy,
            r.since == now,
            r.categories@.len() == 0,
    {
        StorageHealth { state: StorageState::Healthy, since: now, categories: Vec::new() }
    }

    /// Where a kind of records stands, or where it would stand.
    fn place(&self, category: &str) -> (r: (bool, usize))
        requires
            self.wf(),
        ensures
            r.1 <= self.categories@.len(),
            r.0 <==> failing(*self, category@) is Some,
            r.0 ==> r.1 < self.categories@.len() && find(
                self.categories@,
                failure_of(category@),
            ) == Some(r.1 as int),
            forall|k: int|
                0 <= k < r.1 ==> (#[trigger] self.categories@[k]).category@ != category@
                    && text_le(self.categories@[k].category@, category@),
            !r.0 ==> forall|k: int|
                r.1 <= k < self.categories@.len() ==> (#[trigger] self.categories@[k]).category@
                    != category@ && text_le(category@, self.categories@[k].category@),
    {
        let ghost wanted = failure_of(category@);
        let mut i: usize = 0;
        while i < self.categories.len()
            invariant
                self.wf(),
                i <= self.categories@.len(),
                wanted == failure_of(category@),
                forall|k: int|
                    0 <= k < i ==> (#[trigger] self.categories@[k]).category@ != category@
                        && text_le(self.categories@[k].category@, category@),
            decreases self.categories@.len() - i,
        {
            if same_text(self.categories[i].category.as_str(), category) {
                proof {
                    lemma_found(self.categories@, wanted, i as int);
                }
                return (true, i);
            }
            if !text_at_most(self.categories[i].category.as_str(), category) {
                proof {
                    let here = self.categories@[i as int].category@;
                    lemma_text_order(here, category@, here);
                    assert forall|k: int| i <= k < self.categories@.len() implies (
                    #[trigger] self.categories@[k]).category@ != category@ && text_le(
                        category@,
                        self.categories@[k].category@,
                    ) by {
                        if k > i {
                            assert(self.categories@[i as int].category@
                                != self.categories@[k].category@);
                            lemma_text_order(category@, here, self.categories@[k].category@);
                            lemma_text_order(self.categories@[k].category@, here, here);
                            lemma_text_order(here, category@, here);
                        }
                    }
                    assert forall|k: int| 0 <= k < self.categories@.len() implies !wanted(
                        #[trigger] self.categories@[k],
                    ) by {
                        if k < i {
                            assert(self.categories@[k].category@ != category@);
                        } else {
                            assert(self.categories@[k].category@ != category@);
                        }
                    }
                    lemma_found(self.categories@, wanted, self.categories@.len() as int);
                }
                return (false, i);
            }
            i = i + 1;
        }
        proof {
            assert forall|k: int| 0 <= k < self.categories@.len() implies !wanted(
                #[trigger] self.categories@[k],
            ) by {
                assert(self.categories@[k].category@ != category@);
            }
            lemma_found(self.categories@, wanted, i as int);
        }
        (false, i)
    }

    /// Takes in records of a kind that could not be persisted, and how many
    /// were lost. The answer says whether the storage was healthy before.
    pub fn mark_failed(
        &mut self,
        category: &str,
        error: &str,
        lost_records: Option<u64>,
        now: i64,
    ) -> (r: bool)
        requires
            old(self).wf(),
            failing(*old(self), category@) matches Some(failure) ==> (failure.lost_records is Some
                && lost_records is Some ==> failure.lost_records->0 + lost_records->0 <= u64::MAX),
        ensures
            final(self).wf(),
            failure_taken_in(
                *old(self),
                *final(self),
                r,
                category@,
                error@,
                lost_records,
                now,
            ),
    {
        let ghost before = *self;
        let (there, i) = self.place(category);
        if there {
            let lost = match (self.categories[i].lost_records, lost_records) {
                (Some(known), Some(lost)) => Some(known + lost),
                _ => None,
            };
            self.categories[i].error = error.to_owned();
            self.categories[i].lost_records = lost;
            proof {
                assert forall|other: Seq<char>| find(
                    self.categories@,
                    #[trigger] failure_of(other),
                ) == find(before.categories@, failure_of(other)) by {
                    let wanted = failure_of(other);
                    assert forall|k: int| 0 <= k < self.categories@.len() implies wanted(
                        #[trigger] self.categories@[k],
                    ) == wanted(before.categories@[k]) by {}
                    crate::find::lemma_find_agrees(self.categories@, before.categories@, wanted);
                }
                lemma_find(before.categories@, failure_of(category@));
                assert(find(self.categories@, failure_of(category@)) == Some(i as int));
                assert forall|other: Seq<char>| other != category@ implies failing(*self, other)
                    == failing(before, other) by {
                    assert(find(self.categories@, failure_of(other)) == find(
                        before.categories@,
                        failure_of(other),
                    ));
                    lemma_find(before.categories@, failure_of(other));
                    if find(before.categories@, failure_of(other)) is Some {
                        let k = find(before.categories@, failure_of(other))->0;
                        assert(k != i);
                        assert(self.categories@[k] == before.categories@[k]);
                    }
                }
            }
        } else {
            let failure = StorageCategoryFailure {
                category: category.to_owned(),
                since: now,
                error: error.to_owned(),
                lost_records,
            };
            let ghost added = failure;
            self.categories.insert(i, failure);
            proof {
                lemma_insert_found(before.categories@, i as int, added);
                assert(failing(*self, category@) == Some(added));
                assert forall|a: int, b: int| 0 <= a < b < self.categories@.len() implies (
                #[trigger] self.categories@[a]).category@ != (
                #[trigger] self.categories@[b]).category@ && text_le(
                    self.categories@[a].category@,
                    self.categories@[b].category@,
                ) by {
                    let old_a = if a < i {
                        a
                    } else {
                        a - 1
                    };
                    let old_b = if b < i {
                        b
                    } else {
                        b - 1
                    };
                    if a == i {
                        assert(self.categories@[b] == before.categories@[b - 1]);
                    } else if b == i {
                        assert(self.categories@[a] == before.categories@[a]);
                    } else {
                        assert(self.categories@[a] == before.categories@[old_a]);
                        assert(self.categories@[b] == before.categories@[old_b]);
                        assert(before.categories@[old_a].category@
                            != before.categories@[old_b].category@);
                    }
                }
            }
        }
        let was_healthy = self.state == StorageState::Healthy;
        if was_healthy {
            self.state = StorageState::Degraded;
            self.since = now;
        }
        was_healthy
    }

    /// Takes in records of a kind that persisted. The answer says whether the
    /// last kind that failed is back, so that the database is to be checked.
    pub fn mark_persisted(&mut self, category: &str) -> (r: bool)
        requires
            old(self).wf(),
        ensures
            final(self).wf(),
            success_taken_in(*old(self), *final(self), r, category@),
    {
        let ghost before = *self;
        let (there, i) = self.place(category);
        if !there {
            return false;
        }
        self.categories.remove(i);
        proof {
            lemma_remove_found(before.categories@, i as int);
            lemma_find(before.categories@, failure_of(category@));
            assert forall|a: int, b: int| 0 <= a < b < self.categories@.len() implies (
            #[trigger] self.categories@[a]).category@ != (#[trigger] self.categories@[b]).category@
                && text_le(self.categories@[a].category@, self.categories@[b].category@) by {
                let old_a = if a < i {
                    a
                } else {
                    a + 1
                };
                let old_b = if b < i {
                    b
                } else {
                    b + 1
                };
                assert(self.categories@[a] == before.categories@[old_a]);
                assert(self.categories@[b] == before.categories@[old_b]);
                assert(before.categories@[old_a].category@ != before.categories@[old_b].category@);
            }
        }
        self.categories.len() == 0
    }

    /// Takes in the check of the database after the last kind of records came
    /// back: it is healthy, or not ready. What is to be reported is the state
    /// after; nothing while it is degraded.
    pub fn settle(&mut self, integrity_ok: bool, now: i64) -> (r: Option<StorageState>)
        requires
            old(self).wf(),
        ensures
            final(self).wf(),
            check_taken_in(*old(self), *final(self), r, integrity_ok, now),
    {
        if self.categories.len() == 0 {
            self.state = if integrity_ok {
                StorageState::Healthy
            } else {
                StorageState::NotReady
            };
            self.since = now;
        }
        if self.state == StorageState::Degraded {
            None
        } else {
            Some(self.state)
        }
    }
}

/// Inserting a failure of a new kind leaves those of the other kinds.
proof fn lemma_insert_found(s: Seq<StorageCategoryFailure>, i: int, x: StorageCategoryFailure)
    requires
        0 <= i <= s.len(),
        forall|k: int| 0 <= k < s.len() ==> (#[trigger] s[k]).category@ != x.category@,
    ensures
        find(s.insert(i, x), failure_of(x.category@)) == Some(i),
        forall|other: Seq<char>|
            other != x.category@ ==> (match (
                find(s.insert(i, x), #[trigger] failure_of(other)),
                find(s, failure_of(other)),
            ) {
                (Some(a), Some(b)) => s.insert(i, x)[a] == s[b],
                (None, None) => true,
                _ => false,
            }),
{
    let t = s.insert(i, x);
    assert forall|k: int| 0 <= k < i implies !(failure_of(x.category@)(#[trigger] t[k])) by {
        assert(t[k] == s[k]);
    }
    lemma_found(t, failure_of(x.category@), i);
    assert forall|other: Seq<char>| other != x.category@ implies (match (
        find(t, #[trigger] failure_of(other)),
        find(s, failure_of(other)),
    ) {
        (Some(a), Some(b)) => t[a] == s[b],
        (None, None) => true,
        _ => false,
    }) by {
        let wanted = failure_of(other);
        lemma_find(s, wanted);
        match find(s, wanted) {
            Some(b) => {
                let a = if b < i {
                    b
                } else {
                    b + 1
                };
                assert forall|k: int| 0 <= k < a implies !wanted(#[trigger] t[k]) by {
                    if k < i {
                        assert(t[k] == s[k]);
                        assert(!wanted(s[k]));
                    } else if k > i {
                        assert(t[k] == s[k - 1]);
                        assert(!wanted(s[k - 1]));
                    }
                }
                assert(t[a] == s[b]);
                lemma_found(t, wanted, a);
            },
            None => {
                assert forall|k: int| 0 <= k < t.len() implies !wanted(#[trigger] t[k]) by {
                    if k < i {
                        assert(t[k] == s[k]);
                        assert(!wanted(s[k]));
                    } else if k > i {
                        assert(t[k] == s[k - 1]);
                        assert(!wanted(s[k - 1]));
                    }
                }
                lemma_found(t, wanted, t.len() as int);
            },
        }
    }
}

/// Removing a failure leaves those of the other kinds.
proof fn lemma_remove_found(s: Seq<StorageCategoryFailure>, i: int)
    requires
        0 <= i < s.len(),
        forall|a: int, b: int|
            0 <= a < b < s.len() ==> (#[trigger] s[a]).category@ != (#[trigger] s[b]).category@,
    ensures
        find(s.remove(i), failure_of(s[i].category@)) is None,
        forall|other: Seq<char>|
            other != s[i].category@ ==> (match (
                find(s.remove(i), #[trigger] failure_of(other)),
                find(s, failure_of(other)),
            ) {
                (Some(a), Some(b)) => s.remove(i)[a] == s[b],
                (None, None) => true,
                _ => false,
            }),
{
    let t = s.remove(i);
    let x = s[i];
    assert(t.insert(i, x) =~= s);
    assert forall|k: int| 0 <= k < t.len() implies (#[trigger] t[k]).category@ != x.category@ by {
        if k < i {
            assert(t[k] == s[k]);
            assert(s[k].category@ != s[i].category@);
        } else {
            assert(t[k] == s[k + 1]);
            assert(s[i].category@ != s[k + 1].category@);
        }
    }
    lemma_found(t, failure_of(x.category@), t.len() as int);
    lemma_insert_found(t, i, x);
}

/// The state of the storage after the database was checked: it follows the
/// check where no kind of records fails any more.
pub open spec fn settled(health: StorageHealth, integrity_ok: bool) -> StorageState {
    if health.categories@.len() > 0 {
        health.state
    } else if integrity_ok {
        StorageState::Healthy
    } else {
        StorageState::NotReady
    }
}

/// A storage that is not healthy becomes so only when no kind of records fails
/// any more and the database has passed its check.
pub proof fn law_recovery_needs_every_kind_and_the_check(
    health: StorageHealth,
    integrity_ok: bool,
)
    requires
        health.wf(),
        health.state != StorageState::Healthy,
        settled(health, integrity_ok) == StorageState::Healthy,
    ensures
        integrity_ok,
        forall|category: Seq<char>| failing(health, category) is None,
{
    assert forall|category: Seq<char>| failing(health, category) is None by {
        lemma_found(health.categories@, failure_of(category), 0);
    }
}

/// The states have their names.
pub proof fn law_states_are_named()
    ensures
        state_name(StorageState::Healthy) == "healthy"@,
        state_name(StorageState::Degraded) == "degraded"@,
        state_name(StorageState::NotReady) == "not_ready"@,
{
}

/// The first failure degrades a healthy storage from now on; every failure
/// keeps its kind failing with the last error, counts what was lost together,
/// and leaves the other kinds.
pub proof fn law_failures_degrade(
    before: StorageHealth,
    after: StorageHealth,
    r: bool,
    category: Seq<char>,
    error: Seq<char>,
    lost_records: Option<u64>,
    now: i64,
    other: Seq<char>,
)
    requires
        failure_taken_in(before, after, r, category, error, lost_records, now),
    ensures
        before.state == StorageState::Healthy ==> r && after.state == StorageState::Degraded
            && after.since == now,
        before.state != StorageState::Healthy ==> !r && after.state == before.state && after.since
            == before.since,
        failing(after, category) matches Some(failure) && failure.error@ == error
            && failure.category@ == category,
        failing(before, category) is None ==> failing(after, category)->0.since == now && failing(
            after,
            category,
        )->0.lost_records == lost_records,
        failing(before, category) matches Some(was) ==> failing(after, category)->0.since
            == was.since && (was.lost_records is Some && lost_records is Some
            && was.lost_records->0 + lost_records->0 <= u64::MAX ==> (failing(
            after,
            category,
        )->0.lost_records matches Some(sum) && sum == was.lost_records->0 + lost_records->0)) && (
        was.lost_records is None || lost_records is None ==> failing(
            after,
            category,
        )->0.lost_records is None),
        other != category ==> failing(after, other) == failing(before, other),
{
}

/// A kind that persists again no longer fails, the others stay as they are, and
/// the state waits for the check, which is asked for when the last kind is back.
pub proof fn law_successes_wait_for_the_check(
    before: StorageHealth,
    after: StorageHealth,
    r: bool,
    category: Seq<char>,
    other: Seq<char>,
)
    requires
        success_taken_in(before, after, r, category),
    ensures
        failing(after, category) is None,
        after.state == before.state && after.since == before.since,
        other != category ==> failing(after, other) == failing(before, other),
        r ==> failing(before, category) is Some && after.categories@.len() == 0,
        failing(before, category) is Some && after.categories@.len() == 0 ==> r,
{
}

/// The check decides once nothing fails: a good database is healthy from now
/// on, a bad one is not ready; while a kind fails it decides nothing.
pub proof fn law_the_check_decides(
    before: StorageHealth,
    after: StorageHealth,
    r: Option<StorageState>,
    integrity_ok: bool,
    now: i64,
)
    requires
        check_taken_in(before, after, r, integrity_ok, now),
    ensures
        after.categories == before.categories,
        before.categories@.len() == 0 && integrity_ok ==> after.state == StorageState::Healthy
            && after.since == now && r == Some(StorageState::Healthy),
        before.categories@.len() == 0 && !integrity_ok ==> after.state == StorageState::NotReady
            && after.since == now && r == Some(StorageState::NotReady),
        before.categories@.len() > 0 ==> after.state == before.state && after.since == before.since,
        before.categories@.len() > 0 && before.state == StorageState::Degraded ==> r is None,
{
}

/// A kind fails exactly where it is listed.
pub proof fn law_listed_kinds_fail(health: StorageHealth, i: int)
    requires
        health.wf(),
        0 <= i < health.categories@.len(),
    ensures
        failing(health, health.categories@[i].category@) == Some(health.categories@[i]),
{
    assert forall|k: int| 0 <= k < i implies !(failure_of(health.categories@[i].category@))(
        #[trigger] health.categories@[k],
    ) by {
        assert(health.categories@[k].category@ != health.categories@[i].category@);
    }
    lemma_found(health.categories@, failure_of(health.categories@[i].category@), i);
}

} // verus!
