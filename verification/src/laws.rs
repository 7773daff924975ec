//! The laws of the subsystem, stated once and proved for every input: what a
//! fresh record looks like after a reload, what the two terminal transitions
//! leave behind, that querying is a pure function with exact pagination, and
//! what deletion erases.

use vstd::prelude::*;

use crate::bridge;
use crate::models::HistoryView;
use crate::models::completed_from;
use crate::models::failed_from;
use crate::models::new_record;
use crate::query::QueryView;
use crate::query::filter_matching;
use crate::query::has_more_of;
use crate::query::insert_desc;
use crate::query::lemma_sort_desc_len;
use crate::query::limit_of;
use crate::query::offset_of;
use crate::query::page_end_of;
use crate::query::page_of;
use crate::query::page_start_of;
use crate::query::sort_desc;
use crate::query::sorted_desc;
use crate::query::sorted_matching;
use crate::query::total_of;
use crate::store::lemma_lookup_remove_id;
use crate::store::lemma_lookup_upsert;
use crate::store::lemma_remove_id_elements;
use crate::store::lookup;
use crate::store::remove_id;
use crate::store::upsert;

verus! {

/// A record created by `create_history_entry` and then loaded back under its
/// id is found, still `Running`, with no results and no completion time —
/// whatever records the store already held.
pub proof fn lemma_create_then_load(
    s: Seq<HistoryView>,
    h: HistoryView,
    name: Seq<char>,
    path: Seq<char>,
    model: Seq<char>,
    opts: Seq<(Seq<char>, Seq<char>)>,
)
    requires
        new_record(h, name, path, model, opts),
    ensures
        lookup(upsert(s, h), h.id) == Some(h),
        h.status is Running,
        h.results.len() == 0,
        h.completed_at is None,
    decreases s.len(),
{
    lemma_lookup_upsert(s, h);
}

/// Completion always sets `Completed` and a completion time, and leaves the
/// duration absent only where the record's creation timestamp does not parse
/// as a timestamp.
pub proof fn lemma_completion_sets_duration(c: HistoryView, h: HistoryView)
    requires
        completed_from(c, h),
    ensures
        c.status is Completed,
        c.completed_at is Some,
        bridge::rfc3339_millis(h.created_at) is Some ==> c.duration_seconds is Some,
        c.duration_seconds is None ==> bridge::rfc3339_millis(h.created_at) is None,
{
}

/// Failing a record sets `Failed`, a completion time, and exactly the given
/// error message.
pub proof fn lemma_failure_is_recorded(f: HistoryView, h: HistoryView, msg: Seq<char>)
    requires
        failed_from(f, h, msg),
    ensures
        f.status is Failed,
        f.completed_at is Some,
        f.error_message == Some(msg),
{
}

/// Query idempotence: two runs of the query engine over one record sequence
/// with one query return identical pages, counts and continuation flags —
/// the whole response is a function of the index and the query.
pub proof fn lemma_query_idempotent(
    index: Seq<HistoryView>,
    q: QueryView,
    items1: Seq<HistoryView>,
    total1: int,
    more1: bool,
    items2: Seq<HistoryView>,
    total2: int,
    more2: bool,
)
    requires
        items1 == page_of(index, q),
        total1 == total_of(index, q),
        more1 == has_more_of(index, q),
        items2 == page_of(index, q),
        total2 == total_of(index, q),
        more2 == has_more_of(index, q),
    ensures
        items1 == items2,
        total1 == total2,
        more1 == more2,
{
}

/// Pagination correctness: with `N` matches and limit `L`, offset `O`, the
/// returned page holds `min(L, max(0, N - O))` records, and more matches
/// exist exactly where `O + L < N`.
pub proof fn lemma_pagination(index: Seq<HistoryView>, q: QueryView)
    ensures
        ({
            let n = total_of(index, q);
            let l = limit_of(q);
            let o = offset_of(q);
            let rest = if n - o > 0 {
                n - o
            } else {
                0
            };
            &&& page_of(index, q).len() == (if l < rest {
                l
            } else {
                rest
            })
            &&& has_more_of(index, q) == (o + l < n)
        }),
{
    lemma_sort_desc_len(filter_matching(index, q));
}

/// Deletion erases the id: a following load misses, and no page of any query
/// over the remaining records contains the id.
pub proof fn lemma_delete_then_load(s: Seq<HistoryView>, id: Seq<char>, q: QueryView)
    ensures
        lookup(remove_id(s, id), id) is None,
        forall|k: int|
            0 <= k < page_of(remove_id(s, id), q).len() ==> (#[trigger] page_of(
                remove_id(s, id),
                q,
            )[k]).id != id,
{
    lemma_lookup_remove_id(s, id);
    lemma_remove_id_elements(s, id);
    let r = remove_id(s, id);
    lemma_filter_elements(r, q);
    lemma_sort_elements(filter_matching(r, q));
    lemma_sort_desc_len(filter_matching(r, q));
    let sorted = sorted_matching(r, q);
    assert forall|k: int| 0 <= k < page_of(r, q).len() implies (#[trigger] page_of(r, q)[k]).id
        != id by {
        let start = page_start_of(r, q);
        let end = page_end_of(r, q);
        assert(sorted.len() == filter_matching(r, q).len());
        assert(0 <= start + k < sorted.len());
        assert(page_of(r, q)[k] == sorted[start + k]);
        let m = choose|m: int|
            0 <= m < filter_matching(r, q).len() && #[trigger] sorted[start + k]
                == filter_matching(r, q)[m];
        assert(filter_matching(r, q)[m] == sorted[start + k]);
        let p = choose|p: int|
            0 <= p < r.len() && #[trigger] filter_matching(r, q)[m] == r[p];
        assert(r[p].id != id);
    };
}

/// Every page any query returns is ordered newest-first by creation
/// timestamp.
pub proof fn lemma_page_newest_first(index: Seq<HistoryView>, q: QueryView)
    ensures
        sorted_desc(sorted_matching(index, q)),
        sorted_desc(page_of(index, q)),
{
    lemma_sort_sorted(filter_matching(index, q));
    lemma_sort_desc_len(filter_matching(index, q));
    let sorted = sorted_matching(index, q);
    let page = page_of(index, q);
    let start = page_start_of(index, q);
    assert forall|i: int, j: int| 0 <= i < j < page.len() implies crate::strutil::lex_le(
        (#[trigger] page[j]).created_at,
        (#[trigger] page[i]).created_at,
    ) by {
        assert(page[i] == sorted[start + i]);
        assert(page[j] == sorted[start + j]);
    };
}

/// Insertion keeps the newest-first order.
proof fn lemma_insert_sorted(sorted: Seq<HistoryView>, x: HistoryView)
    requires
        sorted_desc(sorted),
    ensures
        sorted_desc(insert_desc(sorted, x)),
    decreases sorted.len(),
{
    if sorted.len() == 0 {
    } else if crate::strutil::lex_le(x.created_at, sorted[0].created_at) {
        assert(sorted_desc(sorted.drop_first()));
        lemma_insert_sorted(sorted.drop_first(), x);
        lemma_insert_elements(sorted.drop_first(), x);
        let r0 = insert_desc(sorted.drop_first(), x);
        let r = seq![sorted[0]] + r0;
        assert forall|i: int, j: int| 0 <= i < j < r.len() implies crate::strutil::lex_le(
            (#[trigger] r[j]).created_at,
            (#[trigger] r[i]).created_at,
        ) by {
            if i == 0 {
                assert(r[j] == r0[j - 1]);
                if r0[j - 1] == x {
                } else {
                    let p = choose|p: int|
                        0 <= p < sorted.drop_first().len() && r0[j - 1]
                            == sorted.drop_first()[p];
                    assert(sorted.drop_first()[p] == sorted[p + 1]);
                    assert(crate::strutil::lex_le(sorted[p + 1].created_at, sorted[0].created_at));
                }
            } else {
                assert(r[i] == r0[i - 1]);
                assert(r[j] == r0[j - 1]);
            }
        };
    } else {
        crate::strutil::lemma_lex_le_total(x.created_at, sorted[0].created_at);
        let r = seq![x] + sorted;
        assert forall|i: int, j: int| 0 <= i < j < r.len() implies crate::strutil::lex_le(
            (#[trigger] r[j]).created_at,
            (#[trigger] r[i]).created_at,
        ) by {
            if i == 0 {
                assert(r[j] == sorted[j - 1]);
                if j - 1 > 0 {
                    assert(crate::strutil::lex_le(
                        sorted[j - 1].created_at,
                        sorted[0].created_at,
                    ));
                    crate::strutil::lemma_lex_le_transitive(
                        sorted[j - 1].created_at,
                        sorted[0].created_at,
                        x.created_at,
                    );
                }
            } else {
                assert(r[i] == sorted[i - 1]);
                assert(r[j] == sorted[j - 1]);
            }
        };
    }
}

/// Sorting yields the newest-first order.
proof fn lemma_sort_sorted(s: Seq<HistoryView>)
    ensures
        sorted_desc(sort_desc(s)),
    decreases s.len(),
{
    if s.len() > 0 {
        lemma_sort_sorted(s.drop_last());
        lemma_insert_sorted(sort_desc(s.drop_last()), s.last());
    }
}

/// Sorting rearranges the matching records and nothing more: the sorted
/// sequence carries exactly the records of its input.
pub proof fn lemma_sort_is_permutation(s: Seq<HistoryView>)
    ensures
        sort_desc(s).to_multiset() == s.to_multiset(),
    decreases s.len(),
{
    broadcast use vstd::seq_lib::group_to_multiset_ensures;

    if s.len() > 0 {
        lemma_sort_is_permutation(s.drop_last());
        lemma_insert_multiset(sort_desc(s.drop_last()), s.last());
        assert(s =~= s.drop_last().push(s.last()));
        assert(s.drop_last().push(s.last()).to_multiset() =~= s.drop_last().to_multiset().insert(
            s.last(),
        ));
        assert(sort_desc(s).to_multiset() =~= s.to_multiset());
    }
}

/// Insertion adds exactly the inserted record to the collection.
proof fn lemma_insert_multiset(sorted: Seq<HistoryView>, x: HistoryView)
    ensures
        insert_desc(sorted, x).to_multiset() == sorted.to_multiset().insert(x),
    decreases sorted.len(),
{
    broadcast use vstd::seq_lib::group_to_multiset_ensures;

    if sorted.len() == 0 {
        assert(seq![x] =~= Seq::<HistoryView>::empty().push(x));
        assert(insert_desc(sorted, x).to_multiset() =~= sorted.to_multiset().insert(x));
    } else if crate::strutil::lex_le(x.created_at, sorted[0].created_at) {
        lemma_insert_multiset(sorted.drop_first(), x);
        let head = seq![sorted[0]];
        let tail = insert_desc(sorted.drop_first(), x);
        vstd::seq_lib::lemma_multiset_commutative(head, tail);
        vstd::seq_lib::lemma_multiset_commutative(head, sorted.drop_first());
        assert(sorted =~= head + sorted.drop_first());
        assert((head + tail).to_multiset() =~= sorted.to_multiset().insert(x));
    } else {
        let head = seq![x];
        vstd::seq_lib::lemma_multiset_commutative(head, sorted);
        assert(head =~= Seq::<HistoryView>::empty().push(x));
        assert((head + sorted).to_multiset() =~= sorted.to_multiset().insert(x));
    }
}

/// A record saved and then loaded under its id comes back deep-equal to what
/// was saved — the store round-trips records.
pub proof fn lemma_save_then_load(s: Seq<HistoryView>, h: HistoryView)
    ensures
        lookup(upsert(s, h), h.id) == Some(h),
{
    lemma_lookup_upsert(s, h);
}

/// Every filtered record stems from the index.
pub proof fn lemma_filter_elements(s: Seq<HistoryView>, q: QueryView)
    ensures
        forall|m: int|
            0 <= m < filter_matching(s, q).len() ==> exists|p: int|
                0 <= p < s.len() && #[trigger] filter_matching(s, q)[m] == s[p],
    decreases s.len(),
{
    if s.len() > 0 {
        lemma_filter_elements(s.drop_last(), q);
        let f0 = filter_matching(s.drop_last(), q);
        let f = filter_matching(s, q);
        assert forall|m: int| 0 <= m < f.len() implies exists|p: int|
            0 <= p < s.len() && #[trigger] f[m] == s[p] by {
            if crate::query::query_matches(s.last(), q) {
                assert(f == f0.push(s.last()));
                if m < f0.len() {
                    assert(f[m] == f0[m]);
                    let p = choose|p: int|
                        0 <= p < s.drop_last().len() && #[trigger] f0[m] == s.drop_last()[p];
                    assert(f[m] == s[p]);
                } else {
                    assert(f[m] == s.last());
                    assert(f[m] == s[s.len() - 1]);
                }
            } else {
                assert(f == f0);
                let p = choose|p: int|
                    0 <= p < s.drop_last().len() && #[trigger] f0[m] == s.drop_last()[p];
                assert(f[m] == s[p]);
            }
        };
    }
}

/// Every record of an insertion is the inserted one or stems from the
/// sequence inserted into.
pub proof fn lemma_insert_elements(sorted: Seq<HistoryView>, x: HistoryView)
    ensures
        forall|m: int|
            0 <= m < insert_desc(sorted, x).len() ==> #[trigger] insert_desc(sorted, x)[m] == x
                || exists|p: int| 0 <= p < sorted.len() && insert_desc(sorted, x)[m] == sorted[p],
    decreases sorted.len(),
{
    if sorted.len() > 0 && crate::strutil::lex_le(x.created_at, sorted[0].created_at) {
        lemma_insert_elements(sorted.drop_first(), x);
        let r = seq![sorted[0]] + insert_desc(sorted.drop_first(), x);
        assert forall|m: int| 0 <= m < r.len() implies #[trigger] r[m] == x || exists|p: int|
            0 <= p < sorted.len() && r[m] == sorted[p] by {
            if m == 0 {
                assert(r[0] == sorted[0]);
            } else {
                assert(r[m] == insert_desc(sorted.drop_first(), x)[m - 1]);
                if insert_desc(sorted.drop_first(), x)[m - 1] != x {
                    let p = choose|p: int|
                        0 <= p < sorted.drop_first().len() && insert_desc(
                            sorted.drop_first(),
                            x,
                        )[m - 1] == sorted.drop_first()[p];
                    assert(sorted.drop_first()[p] == sorted[p + 1]);
                }
            }
        };
    }
}

/// Every sorted record stems from the sequence sorted.
pub proof fn lemma_sort_elements(s: Seq<HistoryView>)
    ensures
        forall|m: int|
            0 <= m < sort_desc(s).len() ==> exists|p: int|
                0 <= p < s.len() && #[trigger] sort_desc(s)[m] == s[p],
    decreases s.len(),
{
    if s.len() > 0 {
        lemma_sort_elements(s.drop_last());
        lemma_insert_elements(sort_desc(s.drop_last()), s.last());
        let r = insert_desc(sort_desc(s.drop_last()), s.last());
        assert forall|m: int| 0 <= m < r.len() implies exists|p: int|
            0 <= p < s.len() && #[trigger] r[m] == s[p] by {
            if r[m] == s.last() {
                assert(r[m] == s[s.len() - 1]);
            } else {
                let u = choose|u: int|
                    0 <= u < sort_desc(s.drop_last()).len() && r[m] == sort_desc(s.drop_last())[u];
                let p = choose|p: int|
                    0 <= p < s.drop_last().len() && sort_desc(s.drop_last())[u] == s.drop_last()[p];
                assert(s.drop_last()[p] == s[p]);
            }
        };
    }
}

} // verus!
