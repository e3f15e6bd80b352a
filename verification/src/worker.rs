//! The worker's request processing.
//!
//! The worker consumes one request at a time from the interactive thread
//! and processes it end-to-end before taking the next, so state mutations
//! of two requests can never interleave. The remote calls a request needs
//! (page fetches, the submission, each poll, the sleep between polls)
//! happen outside the library, between the critical sections; their
//! outcomes enter here as plain values. `run_list_request`, `run_polls` and
//! `run_query_request` drive one whole request over those observed
//! outcomes, exactly in the order the worker applies them.

use crate::rows::{render_rows, rendered};
use crate::state::{AppState, WorkerError};
use vstd::prelude::*;

verus! {

/// A request sent from the interactive thread to the worker. Immutable once
/// enqueued; `RunQuery` carries nothing and reads its inputs from the
/// shared state when it is processed.
pub enum AwsReq {
    ListLogGroups,
    RunQuery,
}

/// The status of a remote query job. Any status other than `Running` is
/// terminal and ends the polling loop.
#[derive(Clone, Copy, Debug, PartialEq, Eq)]
pub enum QueryStatus {
    Scheduled,
    Running,
    Complete,
    Failed,
    Cancelled,
    Unknown,
}

impl QueryStatus {
    pub open spec fn is_terminal(self) -> bool {
        !(self is Running)
    }
}

/// One observation of a query job: its status and, when the service handed
/// any back, the batch of (possibly partial) result rows seen so far.
pub struct PollResponse {
    pub status: QueryStatus,
    pub rows: Option<Vec<Vec<String>>>,
}

/// The names present in one listing page, in page order: an entry without a
/// name is skipped rather than trusted.
pub open spec fn present(page: Seq<Option<Seq<char>>>) -> Seq<Seq<char>>
    decreases page.len(),
{
    if page.len() == 0 {
        Seq::empty()
    } else if page.last() is Some {
        present(page.drop_last()).push(page.last()->0)
    } else {
        present(page.drop_last())
    }
}

/// All names of a sequence of listing pages, in page-then-within-page
/// order: what the log-group list holds after the pages are applied.
pub open spec fn all_names(pages: Seq<Seq<Option<Seq<char>>>>) -> Seq<Seq<char>>
    decreases pages.len(),
{
    if pages.len() == 0 {
        Seq::empty()
    } else {
        all_names(pages.drop_last()) + present(pages.last())
    }
}

/// The sum of the pages' name counts.
pub open spec fn total_names(pages: Seq<Seq<Option<Seq<char>>>>) -> nat
    decreases pages.len(),
{
    if pages.len() == 0 {
        0
    } else {
        total_names(pages.drop_last()) + present(pages.last()).len()
    }
}

/// Where page `p`'s block of names starts in the combined listing.
pub open spec fn name_offset(pages: Seq<Seq<Option<Seq<char>>>>, p: int) -> int {
    total_names(pages.subrange(0, p)) as int
}

/// The results view after a sequence of poll observations is applied to
/// `init`: the rows of the last observation that carried any, rendered;
/// `init` where none did.
pub open spec fn results_after(init: Seq<Seq<char>>, polls: Seq<PollResponse>) -> Seq<Seq<char>>
    decreases polls.len(),
{
    if polls.len() == 0 {
        init
    } else {
        match polls.last().rows {
            Some(rows) => rendered(rows.deep_view()),
            None => results_after(init, polls.drop_last()),
        }
    }
}

/// Extracts the names of one fetched page, defensively: an entry whose name
/// is missing is skipped, never unwrapped.
pub fn extract_names(entries: &Vec<Option<String>>) -> (names: Vec<String>)
    ensures
        names.deep_view() == present(entries.deep_view()),
{
    let mut names: Vec<String> = Vec::new();
    let mut i: usize = 0;
    while i < entries.len()
        invariant
            i <= entries@.len(),
            names.deep_view() =~= present(entries.deep_view().subrange(0, i as int)),
        decreases entries@.len() - i,
    {
        proof {
            let dv = entries.deep_view();
            assert(dv.subrange(0, i + 1).drop_last() =~= dv.subrange(0, i as int));
            assert(dv.subrange(0, i + 1).last() == dv[i as int]);
        }
        if let Some(name) = &entries[i] {
            let ghost pre = names.deep_view();
            names.push(name.clone());
            proof {
                assert(names.deep_view() =~= pre.push(entries.deep_view()[i as int]->0));
            }
        }
        i += 1;
    }
    proof {
        assert(entries.deep_view().subrange(0, entries@.len() as int) =~= entries.deep_view());
    }
    names
}

impl AppState {
    /// One poll observation: a handed-back batch of rows wholesale-replaces
    /// the results view (live progress while the job still runs, the final
    /// rows once it is done), and the returned flag says whether the job
    /// reached a terminal status, which ends the polling loop.
    pub fn apply_poll(&mut self, resp: &PollResponse) -> (done: bool)
        ensures
            done == resp.status.is_terminal(),
            final(self).log_groups == old(self).log_groups,
            final(self).log_group_search_index == old(self).log_group_search_index,
            final(self).selected_log_groups == old(self).selected_log_groups,
            final(self).query == old(self).query,
            final(self).error == old(self).error,
            match resp.rows {
                Some(rows) => final(self).results.deep_view() == rendered(rows.deep_view()),
                None => final(self).results == old(self).results,
            },
    {
        if let Some(rows) = &resp.rows {
            self.results = render_rows(rows);
        }
        !matches!(resp.status, QueryStatus::Running)
    }

    /// Drives one job's polling over the observed responses, exactly as the
    /// worker's polling loop does: the loop ends precisely at the first
    /// response with a terminal status, and that response's rows are
    /// reflected in the results view after exit.
    pub fn run_polls(&mut self, polls: &Vec<PollResponse>) -> (stopped: usize)
        requires
            exists|k: int|
                0 <= k < polls@.len() && (#[trigger] polls@[k].status).is_terminal(),
        ensures
            stopped < polls@.len(),
            polls@[stopped as int].status.is_terminal(),
            forall|k: int| 0 <= k < stopped ==> !(#[trigger] polls@[k].status).is_terminal(),
            final(self).results.deep_view() == results_after(
                old(self).results.deep_view(),
                polls@.subrange(0, stopped + 1),
            ),
            final(self).log_groups == old(self).log_groups,
            final(self).log_group_search_index == old(self).log_group_search_index,
            final(self).selected_log_groups == old(self).selected_log_groups,
            final(self).query == old(self).query,
            final(self).error == old(self).error,
    {
        let n = polls.len();
        let mut i: usize = 0;
        loop
            invariant
                n == polls@.len(),
                i <= polls@.len(),
                exists|k: int|
                    i <= k < polls@.len() && (#[trigger] polls@[k].status).is_terminal(),
                forall|k: int| 0 <= k < i ==> !(#[trigger] polls@[k].status).is_terminal(),
                self.results.deep_view() == results_after(
                    old(self).results.deep_view(),
                    polls@.subrange(0, i as int),
                ),
                self.log_groups == old(self).log_groups,
                self.log_group_search_index == old(self).log_group_search_index,
                self.selected_log_groups == old(self).selected_log_groups,
                self.query == old(self).query,
                self.error == old(self).error,
            decreases polls@.len() - i,
        {
            let done = self.apply_poll(&polls[i]);
            proof {
                let ps = polls@;
                assert(ps.subrange(0, i + 1).drop_last() =~= ps.subrange(0, i as int));
                assert(ps.subrange(0, i + 1).last() == ps[i as int]);
            }
            if done {
                return i;
            }
            proof {
                assert(i < n);
            }
            i += 1;
        }
    }

    /// Processes one `ListLogGroups` request over the fetched pages, exactly
    /// as the worker does: the first page replaces the list and the index,
    /// every later page is appended, and the positional invariant holds
    /// after every page, not just at the end. A page with zero names does
    /// not break the pagination.
    pub fn run_list_request(&mut self, pages: &Vec<Vec<Option<String>>>)
        requires
            pages@.len() >= 1,
            all_names(pages.deep_view()).len() <= usize::MAX,
        ensures
            final(self).inv(),
            final(self).log_groups.deep_view() == all_names(pages.deep_view()),
            final(self).selected_log_groups == old(self).selected_log_groups,
            final(self).query == old(self).query,
            final(self).results == old(self).results,
            final(self).error == old(self).error,
    {
        let first = extract_names(&pages[0]);
        self.apply_first_page(first);
        proof {
            let dv = pages.deep_view();
            assert(dv.subrange(0, 1).drop_last() =~= Seq::<Seq<Option<Seq<char>>>>::empty());
            assert(dv.subrange(0, 1).last() == dv[0]);
            assert(all_names(Seq::<Seq<Option<Seq<char>>>>::empty()) =~= Seq::<Seq<char>>::empty());
            assert(all_names(dv.subrange(0, 1)) =~= present(dv[0]));
            assert(self.log_groups.deep_view() =~= all_names(dv.subrange(0, 1)));
        }
        let mut p: usize = 1;
        while p < pages.len()
            invariant
                1 <= p <= pages@.len(),
                self.inv(),
                self.log_groups.deep_view() =~= all_names(
                    pages.deep_view().subrange(0, p as int),
                ),
                all_names(pages.deep_view()).len() <= usize::MAX,
                self.selected_log_groups == old(self).selected_log_groups,
                self.query == old(self).query,
                self.results == old(self).results,
                self.error == old(self).error,
            decreases pages@.len() - p,
        {
            let names = extract_names(&pages[p]);
            proof {
                let dv = pages.deep_view();
                assert(dv.subrange(0, p + 1).drop_last() =~= dv.subrange(0, p as int));
                assert(dv.subrange(0, p + 1).last() == dv[p as int]);
                lemma_all_names_prefix_len(dv, p + 1);
            }
            self.apply_next_page(&names);
            p += 1;
        }
        proof {
            assert(pages.deep_view().subrange(0, pages@.len() as int) =~= pages.deep_view());
        }
    }

    /// Processes one `RunQuery` request: snapshots the selection and the
    /// query text under the lock, then applies the submission outcome and,
    /// when a job was started, the polling observations. The returned
    /// snapshot is the only input the submission may use, so edits made
    /// after dispatch cannot reach the in-flight query. Whatever the
    /// outcome, the worker ends back at waiting, with any failure visible.
    pub fn run_query_request(
        &mut self,
        outcome: Result<Option<String>, String>,
        polls: &Vec<PollResponse>,
    ) -> (snap: (Vec<String>, String))
        requires
            outcome matches Ok(Some(_)) ==> exists|k: int|
                0 <= k < polls@.len() && (#[trigger] polls@[k].status).is_terminal(),
        ensures
            snap.0.deep_view() == old(self).selected_log_groups.deep_view(),
            snap.1@ == old(self).query@,
            final(self).log_groups == old(self).log_groups,
            final(self).log_group_search_index == old(self).log_group_search_index,
            final(self).selected_log_groups == old(self).selected_log_groups,
            final(self).query == old(self).query,
            match outcome {
                Ok(Some(_)) => final(self).error is None && exists|k: int|
                    0 <= k < polls@.len() && (#[trigger] polls@[k].status).is_terminal()
                        && (forall|j: int|
                        0 <= j < k ==> !(#[trigger] polls@[j].status).is_terminal())
                        && final(self).results.deep_view() == results_after(
                        old(self).results.deep_view(),
                        polls@.subrange(0, k + 1),
                    ),
                Ok(None) => final(self).error == Some(WorkerError::MalformedResponse)
                    && final(self).results == old(self).results,
                Err(msg) => final(self).error == Some(WorkerError::Submission(msg))
                    && final(self).results == old(self).results,
            },
    {
        let snap = self.snapshot_query_inputs();
        let job = self.on_submit_result(outcome);
        if job.is_some() {
            self.run_polls(polls);
        }
        snap
    }
}

/// A prefix of the pages never holds more names than all of them.
pub proof fn lemma_all_names_prefix_len(pages: Seq<Seq<Option<Seq<char>>>>, k: int)
    requires
        0 <= k <= pages.len(),
    ensures
        all_names(pages.subrange(0, k)).len() <= all_names(pages).len(),
    decreases pages.len() - k,
{
    if k == pages.len() {
        assert(pages.subrange(0, k) =~= pages);
    } else {
        lemma_all_names_prefix_len(pages, k + 1);
        assert(pages.subrange(0, k + 1).drop_last() =~= pages.subrange(0, k));
        assert(pages.subrange(0, k + 1).last() == pages[k]);
    }
}

/// Pagination completeness: over any sequence of pages, the combined
/// listing — what `run_list_request` leaves in the log-group list — holds
/// exactly the sum of the pages' name counts, and the element at offset `j`
/// inside page `p`'s block is that page's `j`-th name: the order is
/// page-then-within-page.
pub proof fn lemma_pagination_completeness(pages: Seq<Seq<Option<Seq<char>>>>)
    ensures
        all_names(pages).len() == total_names(pages),
        forall|p: int, j: int|
            0 <= p < pages.len() && 0 <= j < present(pages[p]).len() ==> all_names(pages)[
                name_offset(pages, p) + j
            ] == present(pages[p])[j],
    decreases pages.len(),
{
    if pages.len() > 0 {
        let rest = pages.drop_last();
        lemma_pagination_completeness(rest);
        assert forall|p: int, j: int|
            0 <= p < pages.len() && 0 <= j < present(pages[p]).len() implies all_names(pages)[
            name_offset(pages, p) + j
        ] == present(pages[p])[j] by {
            if p < pages.len() - 1 {
                assert(pages.subrange(0, p) =~= rest.subrange(0, p));
                assert(pages[p] == rest[p]);
                lemma_total_prefix_le(rest, p + 1);
                assert(rest.subrange(0, p + 1).drop_last() =~= rest.subrange(0, p));
                assert(rest.subrange(0, p + 1).last() == rest[p]);
                assert(name_offset(rest, p) + j < total_names(rest.subrange(0, p + 1)));
                assert(all_names(pages)[name_offset(pages, p) + j] == all_names(rest)[
                    name_offset(rest, p) + j
                ]);
            } else {
                assert(pages.subrange(0, p) =~= rest);
                assert(all_names(pages)[name_offset(pages, p) + j] == present(pages.last())[j]);
            }
        }
    }
}

/// The name count of a prefix of the pages is at most the total.
pub proof fn lemma_total_prefix_le(pages: Seq<Seq<Option<Seq<char>>>>, k: int)
    requires
        0 <= k <= pages.len(),
    ensures
        total_names(pages.subrange(0, k)) <= total_names(pages),
    decreases pages.len() - k,
{
    if k == pages.len() {
        assert(pages.subrange(0, k) =~= pages);
    } else {
        lemma_total_prefix_le(pages, k + 1);
        assert(pages.subrange(0, k + 1).drop_last() =~= pages.subrange(0, k));
        assert(pages.subrange(0, k + 1).last() == pages[k]);
    }
}

} // verus!
