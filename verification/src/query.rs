//! The job query engine: pure filtering, sorting and pagination over the
//! store's index.
//!
//! Every filter present in a query must hold (a logical AND); absent filters
//! impose nothing.  Matches are ordered newest-first by creation timestamp
//! (a stable insertion order for equal timestamps), and one page of them is
//! returned together with the total match count and whether more pages exist.
//! The whole response is a mathematical function of the index and the query,
//! so identical calls give identical answers.

use vstd::prelude::*;

use crate::bridge;
use crate::models::HistoryView;
use crate::models::ResultView;
use crate::models::TranscriptionHistory;
use crate::models::TranscriptionResult;
use crate::models::TranscriptionStatus;
use crate::store::HistoryService;
use crate::strutil;

verus! {

/// A filter and pagination request over the job history.
#[derive(Debug, PartialEq)]
pub struct HistoryQuery {
    pub limit: Option<usize>,
    pub offset: Option<usize>,
    pub search: Option<String>,
    pub model_filter: Option<String>,
    pub format_filter: Option<String>,
    pub tag_filter: Option<String>,
    pub status_filter: Option<TranscriptionStatus>,
    pub date_from: Option<String>,
    pub date_to: Option<String>,
}

/// Ghost image of a query.
#[verifier::ext_equal]
pub ghost struct QueryView {
    pub limit: Option<usize>,
    pub offset: Option<usize>,
    pub search: Option<Seq<char>>,
    pub model_filter: Option<Seq<char>>,
    pub format_filter: Option<Seq<char>>,
    pub tag_filter: Option<Seq<char>>,
    pub status_filter: Option<TranscriptionStatus>,
    pub date_from: Option<Seq<char>>,
    pub date_to: Option<Seq<char>>,
}

impl View for HistoryQuery {
    type V = QueryView;

    open spec fn view(&self) -> QueryView {
        QueryView {
            limit: self.limit,
            offset: self.offset,
            search: self.search.deep_view(),
            model_filter: self.model_filter.deep_view(),
            format_filter: self.format_filter.deep_view(),
            tag_filter: self.tag_filter.deep_view(),
            status_filter: self.status_filter,
            date_from: self.date_from.deep_view(),
            date_to: self.date_to.deep_view(),
        }
    }
}

/// One page of query results: the page itself, the total number of matches
/// before pagination, and whether matches exist beyond this page.
#[derive(Debug, PartialEq)]
pub struct HistoryListResponse {
    pub items: Vec<TranscriptionHistory>,
    pub total_count: usize,
    pub has_more: bool,
}

/// Some result entry carries the format.
pub open spec fn has_format(results: Seq<ResultView>, format: Seq<char>) -> bool {
    exists|i: int| 0 <= i < results.len() && (#[trigger] results[i]).format == format
}

/// Some tag equals the one sought.
pub open spec fn has_tag(tags: Seq<Seq<char>>, tag: Seq<char>) -> bool {
    exists|i: int| 0 <= i < tags.len() && tags[i] == tag
}

/// Whether one record satisfies every filter of the query: case-insensitive
/// substring search on the file name, exact model / format / tag / status
/// match, and an inclusive timestamp range.
pub open spec fn query_matches(h: HistoryView, q: QueryView) -> bool {
    &&& (q.search matches Some(s) ==> strutil::contains_seq(
        bridge::lower_of(h.original_file_name),
        bridge::lower_of(s),
    ))
    &&& (q.model_filter matches Some(m) ==> h.model_used == m)
    &&& (q.format_filter matches Some(f) ==> has_format(h.results, f))
    &&& (q.tag_filter matches Some(t) ==> has_tag(h.tags, t))
    &&& (q.status_filter matches Some(st) ==> h.status == st)
    &&& (q.date_from matches Some(d) ==> strutil::lex_le(d, h.created_at))
    &&& (q.date_to matches Some(d) ==> strutil::lex_le(h.created_at, d))
}

/// The records that match, in index order.
pub open spec fn filter_matching(s: Seq<HistoryView>, q: QueryView) -> Seq<HistoryView>
    decreases s.len(),
{
    if s.len() == 0 {
        s
    } else if query_matches(s.last(), q) {
        filter_matching(s.drop_last(), q).push(s.last())
    } else {
        filter_matching(s.drop_last(), q)
    }
}

/// Stable insertion of `x` into a newest-first sequence: `x` goes behind
/// every record whose timestamp is at or after its own.
pub open spec fn insert_desc(sorted: Seq<HistoryView>, x: HistoryView) -> Seq<HistoryView>
    decreases sorted.len(),
{
    if sorted.len() == 0 {
        seq![x]
    } else if strutil::lex_le(x.created_at, sorted[0].created_at) {
        seq![sorted[0]] + insert_desc(sorted.drop_first(), x)
    } else {
        seq![x] + sorted
    }
}

/// Newest-first stable sort by creation timestamp.
pub open spec fn sort_desc(s: Seq<HistoryView>) -> Seq<HistoryView>
    decreases s.len(),
{
    if s.len() == 0 {
        s
    } else {
        insert_desc(sort_desc(s.drop_last()), s.last())
    }
}

/// The requested offset; 0 where absent.
pub open spec fn offset_of(q: QueryView) -> int {
    if q.offset is Some {
        q.offset->0 as int
    } else {
        0
    }
}

/// The requested page size; 50 where absent.
pub open spec fn limit_of(q: QueryView) -> int {
    if q.limit is Some {
        q.limit->0 as int
    } else {
        50
    }
}

/// Number of records matching the query, before pagination.
pub open spec fn total_of(s: Seq<HistoryView>, q: QueryView) -> int {
    filter_matching(s, q).len() as int
}

/// The matching records, newest first.
pub open spec fn sorted_matching(s: Seq<HistoryView>, q: QueryView) -> Seq<HistoryView> {
    sort_desc(filter_matching(s, q))
}

/// First index of the returned page.
pub open spec fn page_start_of(s: Seq<HistoryView>, q: QueryView) -> int {
    if offset_of(q) > total_of(s, q) {
        total_of(s, q)
    } else {
        offset_of(q)
    }
}

/// Index one past the returned page.
pub open spec fn page_end_of(s: Seq<HistoryView>, q: QueryView) -> int {
    if offset_of(q) + limit_of(q) > total_of(s, q) {
        total_of(s, q)
    } else {
        offset_of(q) + limit_of(q)
    }
}

/// The returned page of records.
pub open spec fn page_of(s: Seq<HistoryView>, q: QueryView) -> Seq<HistoryView> {
    sorted_matching(s, q).subrange(page_start_of(s, q), page_end_of(s, q))
}

/// Whether matches exist beyond the returned page.
pub open spec fn has_more_of(s: Seq<HistoryView>, q: QueryView) -> bool {
    page_end_of(s, q) < total_of(s, q)
}

/// Newest-first order: later records bear timestamps at or before earlier
/// ones.
pub open spec fn sorted_desc(s: Seq<HistoryView>) -> bool {
    forall|i: int, j: int|
        0 <= i < j < s.len() ==> strutil::lex_le(
            (#[trigger] s[j]).created_at,
            (#[trigger] s[i]).created_at,
        )
}

/// Inserting keeps every record and adds one.
pub proof fn lemma_insert_desc_len(sorted: Seq<HistoryView>, x: HistoryView)
    ensures
        insert_desc(sorted, x).len() == sorted.len() + 1,
    decreases sorted.len(),
{
    if sorted.len() > 0 && strutil::lex_le(x.created_at, sorted[0].created_at) {
        lemma_insert_desc_len(sorted.drop_first(), x);
    }
}

/// Sorting keeps the number of records.
pub proof fn lemma_sort_desc_len(s: Seq<HistoryView>)
    ensures
        sort_desc(s).len() == s.len(),
    decreases s.len(),
{
    if s.len() > 0 {
        lemma_sort_desc_len(s.drop_last());
        lemma_insert_desc_len(sort_desc(s.drop_last()), s.last());
    }
}

/// Where the insertion point `p` is characterized by the order, `insert_desc`
/// is a plain sequence insertion at `p`.
proof fn lemma_insert_desc_split(sorted: Seq<HistoryView>, x: HistoryView, p: int)
    requires
        0 <= p <= sorted.len(),
        forall|j: int|
            0 <= j < p ==> strutil::lex_le(x.created_at, (#[trigger] sorted[j]).created_at),
        p < sorted.len() ==> !strutil::lex_le(x.created_at, sorted[p].created_at),
    ensures
        insert_desc(sorted, x) == sorted.insert(p, x),
    decreases p,
{
    if sorted.len() == 0 {
        assert(insert_desc(sorted, x) =~= sorted.insert(0, x));
    } else if p == 0 {
        assert(insert_desc(sorted, x) =~= sorted.insert(0, x));
    } else {
        assert(strutil::lex_le(x.created_at, sorted[0].created_at));
        assert(forall|j: int|
            0 <= j < p - 1 ==> #[trigger] sorted.drop_first()[j] == sorted[j + 1]);
        lemma_insert_desc_split(sorted.drop_first(), x, p - 1);
        assert(seq![sorted[0]] + sorted.drop_first().insert(p - 1, x) =~= sorted.insert(p, x));
    }
}

/// Decides whether some result entry carries the format.
fn results_have_format(results: &Vec<TranscriptionResult>, format: &str) -> (r: bool)
    ensures
        r == has_format(results.deep_view(), format@),
{
    let mut i: usize = 0;
    while i < results.len()
        invariant
            i <= results.len(),
            forall|j: int| 0 <= j < i ==> (#[trigger] results.deep_view()[j]).format != format@,
        decreases results.len() - i,
    {
        if strutil::str_eq(results[i].format.as_str(), format) {
            assert(results.deep_view()[i as int].format == format@);
            return true;
        }
        i = i + 1;
    }
    false
}

/// Decides whether some tag equals the one sought.
fn tags_have(tags: &Vec<String>, tag: &str) -> (r: bool)
    ensures
        r == has_tag(tags.deep_view(), tag@),
{
    let mut i: usize = 0;
    while i < tags.len()
        invariant
            i <= tags.len(),
            forall|j: int| 0 <= j < i ==> tags.deep_view()[j] != tag@,
        decreases tags.len() - i,
    {
        if strutil::str_eq(tags[i].as_str(), tag) {
            assert(tags.deep_view()[i as int] == tag@);
            return true;
        }
        i = i + 1;
    }
    false
}

impl HistoryService {
    /// Decides whether one record satisfies every filter of the query.
    pub fn matches_query(&self, item: &TranscriptionHistory, query: &HistoryQuery) -> (r: bool)
        ensures
            r == query_matches(item@, query@),
    {
        if let Some(search) = &query.search {
            let name_lower = bridge::to_lowercase(item.original_file_name.as_str());
            let search_lower = bridge::to_lowercase(search.as_str());
            if !strutil::str_contains(name_lower.as_str(), search_lower.as_str()) {
                return false;
            }
        }
        if let Some(model) = &query.model_filter {
            if !strutil::str_eq(item.model_used.as_str(), model.as_str()) {
                return false;
            }
        }
        if let Some(format) = &query.format_filter {
            if !results_have_format(&item.results, format.as_str()) {
                return false;
            }
        }
        if let Some(tag) = &query.tag_filter {
            if !tags_have(&item.tags, tag.as_str()) {
                return false;
            }
        }
        if let Some(status) = &query.status_filter {
            if !(item.status == *status) {
                return false;
            }
        }
        if let Some(date_from) = &query.date_from {
            if !strutil::str_lex_le(date_from.as_str(), item.created_at.as_str()) {
                return false;
            }
        }
        if let Some(date_to) = &query.date_to {
            if !strutil::str_lex_le(item.created_at.as_str(), date_to.as_str()) {
                return false;
            }
        }
        true
    }

    /// The matching records of the index, in index order.
    fn filter_histories(&self, query: &HistoryQuery) -> (r: Vec<TranscriptionHistory>)
        ensures
            r.deep_view() == filter_matching(self.index_view(), query@),
    {
        let mut out: Vec<TranscriptionHistory> = Vec::new();
        let mut i: usize = 0;
        while i < self.index.len()
            invariant
                i <= self.index.len(),
                out.deep_view() == filter_matching(self.index_view().take(i as int), query@),
            decreases self.index.len() - i,
        {
            let ghost pre = out.deep_view();
            let keep = self.matches_query(&self.index[i], query);
            if keep {
                out.push(self.index[i].clone());
            }
            proof {
                let dv = self.index_view();
                assert(dv.take(i as int + 1).drop_last() =~= dv.take(i as int));
                assert(dv.take(i as int + 1).last() == dv[i as int]);
                if keep {
                    assert(out.deep_view() =~= pre.push(dv[i as int]));
                }
            }
            i = i + 1;
        }
        proof {
            assert(self.index_view().take(self.index@.len() as int) =~= self.index_view());
        }
        out
    }

    /// Filters, sorts and paginates the job history.  A pure function of the
    /// index and the query: the page of matches (newest first), the total
    /// match count, and whether more matches lie beyond the page.
    pub fn list_history(&self, query: HistoryQuery) -> (r: HistoryListResponse)
        ensures
            r.items.deep_view() == page_of(self.index_view(), query@),
            r.total_count == total_of(self.index_view(), query@),
            r.has_more == has_more_of(self.index_view(), query@),
    {
        let filtered = self.filter_histories(&query);
        let sorted = sort_histories_desc(filtered);
        proof {
            lemma_sort_desc_len(filter_matching(self.index_view(), query@));
        }
        let total = sorted.len();
        let offset = match query.offset {
            Some(o) => o,
            None => 0,
        };
        let limit = match query.limit {
            Some(l) => l,
            None => 50,
        };
        let start = if offset > total {
            total
        } else {
            offset
        };
        let remaining = total - start;
        let take_n = if limit < remaining {
            limit
        } else {
            remaining
        };
        let end = start + take_n;
        let mut items: Vec<TranscriptionHistory> = Vec::new();
        let mut k = start;
        while k < end
            invariant
                start <= k <= end,
                end <= sorted@.len(),
                sorted.deep_view() == sorted_matching(self.index_view(), query@),
                items.deep_view() == sorted.deep_view().subrange(start as int, k as int),
            decreases end - k,
        {
            let ghost pre = items.deep_view();
            items.push(sorted[k].clone());
            proof {
                assert(items.deep_view() =~= pre.push(sorted.deep_view()[k as int]));
                assert(sorted.deep_view().subrange(start as int, k as int + 1) =~= pre.push(
                    sorted.deep_view()[k as int],
                ));
            }
            k = k + 1;
        }
        let has_more = end < total;
        proof {
            assert(start as int == page_start_of(self.index_view(), query@));
            assert(end as int == page_end_of(self.index_view(), query@));
        }
        HistoryListResponse { items, total_count: total, has_more }
    }
}

/// Sorts records newest-first by creation timestamp, stably.
fn sort_histories_desc(v: Vec<TranscriptionHistory>) -> (r: Vec<TranscriptionHistory>)
    ensures
        r.deep_view() == sort_desc(v.deep_view()),
{
    let mut out: Vec<TranscriptionHistory> = Vec::new();
    let mut i: usize = 0;
    while i < v.len()
        invariant
            i <= v.len(),
            out@.len() == i,
            out.deep_view() == sort_desc(v.deep_view().take(i as int)),
        decreases v.len() - i,
    {
        let x = v[i].clone();
        let mut p: usize = 0;
        while p < out.len() && strutil::str_lex_le(x.created_at.as_str(), out[p].created_at.as_str())
            invariant
                p <= out@.len(),
                forall|j: int|
                    0 <= j < p ==> strutil::lex_le(
                        x@.created_at,
                        (#[trigger] out.deep_view()[j]).created_at,
                    ),
            decreases out@.len() - p,
        {
            p = p + 1;
        }
        let ghost ov = out@;
        let ghost odv = out.deep_view();
        proof {
            lemma_insert_desc_split(odv, x@, p as int);
        }
        out.insert(p, x);
        proof {
            ov.insert_ensures(p as int, x);
            odv.insert_ensures(p as int, x@);
            assert forall|j: int| 0 <= j < out@.len() implies out.deep_view()[j] == odv.insert(
                p as int,
                x@,
            )[j] by {
                if j < p as int {
                    assert(out@[j] == ov[j]);
                } else if j == p as int {
                    assert(out@[j] == x);
                } else {
                    assert(out@[j] == ov[j - 1]);
                }
            };
            assert(out.deep_view() =~= odv.insert(p as int, x@));
            let dv = v.deep_view();
            assert(dv.take(i as int + 1).drop_last() =~= dv.take(i as int));
            assert(dv.take(i as int + 1).last() == dv[i as int]);
        }
        i = i + 1;
    }
    proof {
        assert(v.deep_view().take(v@.len() as int) =~= v.deep_view());
    }
    out
}

} // verus!
