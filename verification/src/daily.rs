//! The totals of each day, by model and by provider. They outlive the calls
//! they were made of.

use crate::find::{find, lemma_find, lemma_found};
use crate::protocol::Usage;
use crate::text::same_text;
use crate::usage::{token_sum, DailyEntry, UsageRow};
use vstd::prelude::*;

verus! {

/// Whether totals are those of the day, the model and the provider of an entry.
pub open spec fn same_share(entry: DailyEntry) -> spec_fn(DailyEntry) -> bool {
    |total: DailyEntry|
        total.day@ == entry.day@ && total.published_model_name@ == entry.published_model_name@
            && total.provider_id@ == entry.provider_id@
}

/// Whether no day, model and provider has two totals.
pub open spec fn one_each(totals: Seq<DailyEntry>) -> bool {
    forall|i: int, j: int|
        0 <= i < j < totals.len() ==> !same_share(#[trigger] totals[i])(#[trigger] totals[j])
}

/// Whether the tokens of two usages can be added.
pub open spec fn sum_fits(a: Usage, b: Usage) -> bool {
    &&& i64::MIN <= a.input_tokens + b.input_tokens <= i64::MAX
    &&& i64::MIN <= a.cached_input_tokens + b.cached_input_tokens <= i64::MAX
    &&& i64::MIN <= a.output_tokens + b.output_tokens <= i64::MAX
}

/// The tokens of two usages together.
pub open spec fn usage_sum(a: Usage, b: Usage) -> Usage {
    Usage {
        input_tokens: (a.input_tokens + b.input_tokens) as i64,
        cached_input_tokens: (a.cached_input_tokens + b.cached_input_tokens) as i64,
        output_tokens: (a.output_tokens + b.output_tokens) as i64,
    }
}

/// Whether an entry can be added to the totals.
pub open spec fn entry_fits(totals: Seq<DailyEntry>, entry: DailyEntry) -> bool {
    find(totals, same_share(entry)) matches Some(i) ==> sum_fits(totals[i].usage, entry.usage)
}

/// The totals with an entry added: the totals of its day, model and provider
/// grow by it, or begin with it.
pub open spec fn with_entry(totals: Seq<DailyEntry>, entry: DailyEntry) -> Seq<DailyEntry> {
    match find(totals, same_share(entry)) {
        Some(i) => totals.update(
            i,
            DailyEntry { usage: usage_sum(totals[i].usage, entry.usage), ..totals[i] },
        ),
        None => totals.push(entry),
    }
}

/// Adds an entry to the totals. Where the sum does not fit, the totals stay as
/// they are.
pub fn add_entry(totals: &mut Vec<DailyEntry>, entry: DailyEntry) -> (r: bool)
    requires
        one_each(old(totals)@),
    ensures
        one_each(final(totals)@),
        r == entry_fits(old(totals)@, entry),
        r ==> final(totals)@ == with_entry(old(totals)@, entry),
        !r ==> final(totals)@ == old(totals)@,
{
    let ghost before = totals@;
    let ghost wanted = same_share(entry);
    let mut i: usize = 0;
    while i < totals.len()
        invariant
            i <= totals@.len(),
            totals@ == before,
            before == old(totals)@,
            one_each(before),
            wanted == same_share(entry),
            forall|k: int| 0 <= k < i ==> !wanted(#[trigger] totals@[k]),
        decreases totals@.len() - i,
    {
        let total = &totals[i];
        if same_text(total.day.as_str(), entry.day.as_str()) && same_text(
            total.published_model_name.as_str(),
            entry.published_model_name.as_str(),
        ) && same_text(total.provider_id.as_str(), entry.provider_id.as_str()) {
            proof {
                lemma_found(before, wanted, i as int);
            }
            let so_far = total.usage;
            let input_tokens = so_far.input_tokens.checked_add(entry.usage.input_tokens);
            let cached_input_tokens = so_far.cached_input_tokens.checked_add(
                entry.usage.cached_input_tokens,
            );
            let output_tokens = so_far.output_tokens.checked_add(entry.usage.output_tokens);
            match (input_tokens, cached_input_tokens, output_tokens) {
                (Some(input_tokens), Some(cached_input_tokens), Some(output_tokens)) => {
                    totals[i].usage = Usage { input_tokens, cached_input_tokens, output_tokens };
                    proof {
                        assert(totals@ =~= with_entry(before, entry));
                        lemma_one_each(before, entry);
                    }
                    return true;
                },
                _ => {
                    return false;
                },
            }
        }
        i = i + 1;
    }
    proof {
        lemma_found(before, wanted, i as int);
        lemma_one_each(before, entry);
    }
    totals.push(entry);
    true
}

/// Adding an entry gives no day, model and provider two totals.
proof fn lemma_one_each(totals: Seq<DailyEntry>, entry: DailyEntry)
    requires
        one_each(totals),
    ensures
        one_each(with_entry(totals, entry)),
{
    let after = with_entry(totals, entry);
    lemma_find(totals, same_share(entry));
    assert forall|i: int, j: int| 0 <= i < j < after.len() implies !same_share(#[trigger] after[i])(
        #[trigger] after[j],
    ) by {
        if j < totals.len() {
            assert(!same_share(totals[i])(totals[j]));
        } else {
            assert(!same_share(entry)(totals[i]));
        }
    }
}

/// Entries as rows of usage.
pub open spec fn usage_rows(entries: Seq<DailyEntry>) -> Seq<UsageRow> {
    entries.map_values(
        |entry: DailyEntry|
            UsageRow {
                published_model_name: entry.published_model_name,
                provider_id: entry.provider_id,
                provider_name: entry.provider_name,
                usage: entry.usage,
            },
    )
}

/// The tokens of a model in entries; of all models for no model.
pub open spec fn tokens_in(entries: Seq<DailyEntry>, model: Option<Seq<char>>) -> (int, int, int) {
    token_sum(usage_rows(entries), model, entries.len() as int)
}

/// The tokens that an entry brings a model.
pub open spec fn brought(entry: DailyEntry, model: Option<Seq<char>>) -> (int, int, int) {
    if model is None || model == Some(entry.published_model_name@) {
        (
            entry.usage.input_tokens as int,
            entry.usage.cached_input_tokens as int,
            entry.usage.output_tokens as int,
        )
    } else {
        (0, 0, 0)
    }
}

/// Tokens and tokens.
pub open spec fn together(a: (int, int, int), b: (int, int, int)) -> (int, int, int) {
    (a.0 + b.0, a.1 + b.1, a.2 + b.2)
}

/// A sum is that over the rows it counts.
proof fn lemma_sum_agrees(a: Seq<UsageRow>, b: Seq<UsageRow>, model: Option<Seq<char>>, n: int)
    requires
        0 <= n <= a.len(),
        n <= b.len(),
        forall|k: int| 0 <= k < n ==> #[trigger] a[k] == b[k],
    ensures
        token_sum(a, model, n) == token_sum(b, model, n),
    decreases n,
{
    if n > 0 {
        lemma_sum_agrees(a, b, model, n - 1);
        assert(a[n - 1] == b[n - 1]);
    }
}

/// A row that grows makes a sum that counts it grow by as much.
proof fn lemma_sum_grows(
    totals: Seq<DailyEntry>,
    at: int,
    entry: DailyEntry,
    model: Option<Seq<char>>,
    n: int,
)
    requires
        0 <= at < n <= totals.len(),
        same_share(entry)(totals[at]),
        sum_fits(totals[at].usage, entry.usage),
    ensures
        ({
            let grown = totals.update(
                at,
                DailyEntry { usage: usage_sum(totals[at].usage, entry.usage), ..totals[at] },
            );
            token_sum(usage_rows(grown), model, n) == together(
                token_sum(usage_rows(totals), model, n),
                brought(entry, model),
            )
        }),
    decreases n,
{
    let grown = totals.update(
        at,
        DailyEntry { usage: usage_sum(totals[at].usage, entry.usage), ..totals[at] },
    );
    if n - 1 == at {
        lemma_sum_agrees(usage_rows(grown), usage_rows(totals), model, n - 1);
    } else {
        lemma_sum_grows(totals, at, entry, model, n - 1);
        assert(usage_rows(grown)[n - 1] == usage_rows(totals)[n - 1]);
    }
}

/// Adding an entry to the totals adds its tokens to those of its model and of
/// all models, and to no other model's.
pub proof fn law_totals_grow_by_each_entry(
    totals: Seq<DailyEntry>,
    entry: DailyEntry,
    model: Option<Seq<char>>,
)
    requires
        entry_fits(totals, entry),
    ensures
        tokens_in(with_entry(totals, entry), model) == together(
            tokens_in(totals, model),
            brought(entry, model),
        ),
{
    lemma_find(totals, same_share(entry));
    match find(totals, same_share(entry)) {
        Some(at) => {
            lemma_sum_grows(totals, at, entry, model, totals.len() as int);
        },
        None => {
            let after = totals.push(entry);
            lemma_sum_agrees(usage_rows(after), usage_rows(totals), model, totals.len() as int);
            assert(usage_rows(after)[totals.len() as int].usage == entry.usage);
        },
    }
}

/// The totals made of the first `n` entries.
pub open spec fn totals_of(entries: Seq<DailyEntry>, n: int) -> Seq<DailyEntry>
    decreases n,
{
    if n <= 0 {
        Seq::empty()
    } else {
        with_entry(totals_of(entries, n - 1), entries[n - 1])
    }
}

/// The totals of the days hold the tokens of all the entries they were made of,
/// model by model and in all.
pub proof fn law_totals_hold_every_entry(entries: Seq<DailyEntry>, model: Option<Seq<char>>, n: int)
    requires
        0 <= n <= entries.len(),
        forall|k: int|
            0 <= k < n ==> entry_fits(#[trigger] totals_of(entries, k), entries[k]),
    ensures
        one_each(totals_of(entries, n)),
        tokens_in(totals_of(entries, n), model) == token_sum(usage_rows(entries), model, n),
    decreases n,
{
    if n > 0 {
        law_totals_hold_every_entry(entries, model, n - 1);
        assert(entry_fits(totals_of(entries, n - 1), entries[n - 1]));
        lemma_one_each(totals_of(entries, n - 1), entries[n - 1]);
        law_totals_grow_by_each_entry(totals_of(entries, n - 1), entries[n - 1], model);
    }
}

/// An entry makes the totals of its own day, model and provider grow by its
/// tokens and leaves all other totals; without such totals it begins them.
pub proof fn law_entries_count_under_their_own(
    totals: Seq<DailyEntry>,
    entry: DailyEntry,
    i: int,
)
    requires
        one_each(totals),
        entry_fits(totals, entry),
        0 <= i < totals.len(),
    ensures
        with_entry(totals, entry).len() >= totals.len(),
        ({
            let after = with_entry(totals, entry)[i];
            &&& after.day == totals[i].day
            &&& after.published_model_name == totals[i].published_model_name
            &&& after.provider_id == totals[i].provider_id
            &&& after.provider_name == totals[i].provider_name
            &&& totals[i].day@ == entry.day@ && totals[i].published_model_name@
                == entry.published_model_name@ && totals[i].provider_id@ == entry.provider_id@ ==> {
                &&& with_entry(totals, entry).len() == totals.len()
                &&& after.usage.input_tokens == totals[i].usage.input_tokens
                    + entry.usage.input_tokens
                &&& after.usage.cached_input_tokens == totals[i].usage.cached_input_tokens
                    + entry.usage.cached_input_tokens
                &&& after.usage.output_tokens == totals[i].usage.output_tokens
                    + entry.usage.output_tokens
            }
            &&& totals[i].day@ != entry.day@ || totals[i].published_model_name@
                != entry.published_model_name@ || totals[i].provider_id@ != entry.provider_id@
                ==> after == totals[i]
        }),
{
    lemma_find(totals, same_share(entry));
    if same_share(entry)(totals[i]) {
        match find(totals, same_share(entry)) {
            Some(k) => {
                if k < i {
                    assert(!same_share(totals[k])(totals[i]));
                }
            },
            None => {},
        }
    }
}

/// The first entry of a day, a model and a provider begins their totals.
pub proof fn law_first_entries_begin_totals(totals: Seq<DailyEntry>, entry: DailyEntry)
    requires
        forall|i: int|
            0 <= i < totals.len() ==> (#[trigger] totals[i]).day@ != entry.day@
                || totals[i].published_model_name@ != entry.published_model_name@
                || totals[i].provider_id@ != entry.provider_id@,
    ensures
        entry_fits(totals, entry),
        with_entry(totals, entry) == totals.push(entry),
{
    lemma_found(totals, same_share(entry), totals.len() as int);
}

/// An entry is refused only where a sum would not fit.
pub proof fn law_entries_are_refused_for_their_sum(
    totals: Seq<DailyEntry>,
    entry: DailyEntry,
    i: int,
)
    requires
        one_each(totals),
        0 <= i < totals.len(),
        totals[i].day@ == entry.day@,
        totals[i].published_model_name@ == entry.published_model_name@,
        totals[i].provider_id@ == entry.provider_id@,
    ensures
        entry_fits(totals, entry) <==> i64::MIN <= totals[i].usage.input_tokens
            + entry.usage.input_tokens <= i64::MAX && i64::MIN
            <= totals[i].usage.cached_input_tokens + entry.usage.cached_input_tokens <= i64::MAX
            && i64::MIN <= totals[i].usage.output_tokens + entry.usage.output_tokens <= i64::MAX,
{
    lemma_find(totals, same_share(entry));
    assert(same_share(entry)(totals[i]));
    match find(totals, same_share(entry)) {
        Some(k) => {
            if k < i {
                assert(!same_share(totals[k])(totals[i]));
            }
        },
        None => {},
    }
}

} // verus!
