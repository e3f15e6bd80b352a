//! The shared application state and the worker's critical sections on it.
//!
//! One mutual-exclusion region guards the whole blob; each method below is
//! the body of one locked critical section, pure in-memory mutation with no
//! remote call behind it. The worker owns `log_groups`, the search index,
//! `results` and `error`; the interactive thread owns `selected_log_groups`
//! and `query`, which the worker only snapshots.

use crate::index::{aligned, index_entries, LogGroupIndex};
use vstd::prelude::*;

verus! {

/// The classes of failure the worker survives and surfaces. Any of them
/// ends up as a visible state update, never as a dead worker.
#[derive(Debug, PartialEq, Eq)]
pub enum WorkerError {
    /// A listing or polling call to the remote service failed; retryable.
    TransientNetwork(String),
    /// The remote service rejected a query submission.
    Submission(String),
    /// A response lacked a field it owes, such as the job identifier.
    MalformedResponse,
    /// The request channel's other end is gone; fatal for the worker.
    ChannelClosed,
}

/// The lock-protected state read by the render thread and written by the
/// worker and by input handling.
pub struct AppState {
    /// The listing, in page-then-within-page order.
    pub log_groups: Vec<String>,
    /// The search index, positionally aligned with `log_groups`.
    pub log_group_search_index: LogGroupIndex,
    /// The log groups the user chose; survives a listing refresh.
    pub selected_log_groups: Vec<String>,
    /// The query text, owned by the interactive thread.
    pub query: String,
    /// The rendered result rows, wholesale-replaced on every observation.
    pub results: Vec<String>,
    /// The failure last surfaced to the user, if any.
    pub error: Option<WorkerError>,
}

impl AppState {
    /// Positional consistency: the search index holds exactly one entry per
    /// valid position of the log-group list, and that entry is the name at
    /// that position. Every critical section preserves it, including those
    /// in the middle of a pagination.
    pub open spec fn inv(self) -> bool {
        aligned(index_entries(self.log_group_search_index), self.log_groups.deep_view())
    }

    /// A fresh, empty state: what the dashboard starts from.
    pub fn new() -> (s: AppState)
        ensures
            s.inv(),
            s.log_groups@.len() == 0,
            s.selected_log_groups@.len() == 0,
            s.query@.len() == 0,
            s.results@.len() == 0,
            s.error is None,
    {
        AppState {
            log_groups: Vec::new(),
            log_group_search_index: LogGroupIndex::new(),
            selected_log_groups: Vec::new(),
            query: String::new(),
            results: Vec::new(),
            error: None,
        }
    }

    /// The critical section for the first page of a listing refresh:
    /// replaces the log-group list with the page and rebuilds the search
    /// index fully over it, so the positional keys stay aligned.
    pub fn apply_first_page(&mut self, names: Vec<String>)
        ensures
            final(self).inv(),
            final(self).log_groups == names,
            final(self).selected_log_groups == old(self).selected_log_groups,
            final(self).query == old(self).query,
            final(self).results == old(self).results,
            final(self).error == old(self).error,
    {
        self.log_group_search_index = LogGroupIndex::rebuild(&names);
        self.log_groups = names;
    }

    /// The critical section for a later page: appends the page to the
    /// log-group list and indexes each appended name under its new position,
    /// the pre-append length plus its offset within the page. A page with
    /// zero names leaves the state as it was.
    pub fn apply_next_page(&mut self, names: &Vec<String>)
        requires
            old(self).inv(),
            old(self).log_groups@.len() + names@.len() <= usize::MAX,
        ensures
            final(self).inv(),
            final(self).log_groups.deep_view() == old(self).log_groups.deep_view()
                + names.deep_view(),
            final(self).selected_log_groups == old(self).selected_log_groups,
            final(self).query == old(self).query,
            final(self).results == old(self).results,
            final(self).error == old(self).error,
    {
        let start = self.log_groups.len();
        let n = names.len();
        self.log_group_search_index.append(names, start);
        proof {
            let e_old = index_entries(old(self).log_group_search_index);
            let e_now = index_entries(self.log_group_search_index);
            assert forall|i: int| 0 <= i < start implies #[trigger] e_now[i] == old(
                self,
            ).log_groups.deep_view()[i] by {
                assert(e_old.contains_key(i));
                assert(e_now[i] == e_old[i]);
            }
        }
        let mut j: usize = 0;
        while j < n
            invariant
                j <= n,
                n == names@.len(),
                start == old(self).log_groups@.len(),
                start + n <= usize::MAX,
                self.log_groups@.len() == start + j,
                self.log_groups.deep_view() =~= old(self).log_groups.deep_view()
                    + names.deep_view().subrange(0, j as int),
                forall|k: int|
                    #[trigger] index_entries(self.log_group_search_index).contains_key(k) <==> 0
                        <= k < start + n,
                forall|i: int|
                    0 <= i < start ==> #[trigger] index_entries(self.log_group_search_index)[i]
                        == old(self).log_groups.deep_view()[i],
                forall|jj: int|
                    0 <= jj < n ==> #[trigger] index_entries(self.log_group_search_index)[start
                        + jj] == names.deep_view()[jj],
                self.selected_log_groups == old(self).selected_log_groups,
                self.query == old(self).query,
                self.results == old(self).results,
                self.error == old(self).error,
            decreases n - j,
        {
            let name_clone = names[j].clone();
            let ghost pre = self.log_groups.deep_view();
            self.log_groups.push(name_clone);
            proof {
                let dv = names.deep_view();
                assert(self.log_groups.deep_view() =~= pre.push(dv[j as int]));
                assert(dv.subrange(0, j + 1) =~= dv.subrange(0, j as int).push(dv[j as int]));
                assert(self.log_groups.deep_view() =~= old(self).log_groups.deep_view()
                    + dv.subrange(0, j + 1));
            }
            j += 1;
        }
        proof {
            assert(names.deep_view().subrange(0, n as int) =~= names.deep_view());
            assert(self.log_groups.deep_view() =~= old(self).log_groups.deep_view()
                + names.deep_view());
            let entries = index_entries(self.log_group_search_index);
            let dv = self.log_groups.deep_view();
            assert forall|i: int| 0 <= i < dv.len() implies #[trigger] entries[i] == dv[i] by {
                if i < start {
                    assert(entries[i] == old(self).log_groups.deep_view()[i]);
                } else {
                    let jj = i - start;
                    assert(entries[start + jj] == names.deep_view()[jj]);
                }
            }
        }
    }

    /// The snapshot taken under the lock when a query run is dispatched: the
    /// selected log groups and the query text as they stand at that moment.
    /// The submission reads nothing but this snapshot, so edits made while
    /// the query is in flight cannot alter it. An empty selection or an
    /// empty query text passes through unchanged.
    pub fn snapshot_query_inputs(&self) -> (snap: (Vec<String>, String))
        ensures
            snap.0.deep_view() == self.selected_log_groups.deep_view(),
            snap.1@ == self.query@,
    {
        let groups = self.selected_log_groups.clone();
        proof {
            assert(groups.deep_view() =~= self.selected_log_groups.deep_view());
        }
        (groups, self.query.clone())
    }

    /// Converts a failed remote call into a visible state update and nothing
    /// else: the worker survives the failure and stays able to process the
    /// next request.
    pub fn record_remote_error(&mut self, message: String)
        ensures
            final(self).error == Some(WorkerError::TransientNetwork(message)),
            final(self).log_groups == old(self).log_groups,
            final(self).log_group_search_index == old(self).log_group_search_index,
            final(self).selected_log_groups == old(self).selected_log_groups,
            final(self).query == old(self).query,
            final(self).results == old(self).results,
    {
        self.error = Some(WorkerError::TransientNetwork(message));
    }

    /// Surfaces the loss of the request channel as the application-level
    /// fatal error it is, rather than letting the worker die silently.
    pub fn record_channel_closed(&mut self)
        ensures
            final(self).error == Some(WorkerError::ChannelClosed),
            final(self).log_groups == old(self).log_groups,
            final(self).log_group_search_index == old(self).log_group_search_index,
            final(self).selected_log_groups == old(self).selected_log_groups,
            final(self).query == old(self).query,
            final(self).results == old(self).results,
    {
        self.error = Some(WorkerError::ChannelClosed);
    }

    /// Applies the outcome of a query submission. A rejected submission is
    /// recorded for the operator; a response without a job identifier is a
    /// malformed response; in both cases no job is polled and the worker
    /// goes back to waiting.
    pub fn on_submit_result(&mut self, outcome: Result<Option<String>, String>) -> (job: Option<
        String,
    >)
        ensures
            final(self).log_groups == old(self).log_groups,
            final(self).log_group_search_index == old(self).log_group_search_index,
            final(self).selected_log_groups == old(self).selected_log_groups,
            final(self).query == old(self).query,
            final(self).results == old(self).results,
            match outcome {
                Ok(Some(id)) => job == Some(id) && final(self).error is None,
                Ok(None) => job is None && final(self).error == Some(
                    WorkerError::MalformedResponse,
                ),
                Err(msg) => job is None && final(self).error == Some(
                    WorkerError::Submission(msg),
                ),
            },
    {
        match outcome {
            Ok(Some(id)) => {
                self.error = None;
                Some(id)
            },
            Ok(None) => {
                self.error = Some(WorkerError::MalformedResponse);
                None
            },
            Err(msg) => {
                self.error = Some(WorkerError::Submission(msg));
                None
            },
        }
    }
}

} // verus!
