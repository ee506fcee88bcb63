//! The background lookups behind the status line: the git branch and git
//! summary of the working directory, cached per directory, and the
//! workspace headline, fetched again after a refresh interval. At most one
//! lookup of each kind runs at a time, and a result that arrives for
//! another directory or request is dropped.

use vstd::prelude::*;
use crate::text::str_eq;

verus! {

/// A git lookup for the status line, cached for one directory. `V` is what
/// the lookup yields.
#[derive(Debug)]
pub struct GitLookup<V> {
    /// The directory the cache is for.
    pub cwd: Option<String>,
    pub value: Option<V>,
    /// A lookup runs.
    pub pending: bool,
    /// The lookup for `cwd` finished (or cannot run).
    pub lookup_complete: bool,
}

/// The lookup state as plain values.
pub struct GitLookupView<V> {
    pub cwd: Option<Seq<char>>,
    pub value: Option<V>,
    pub pending: bool,
    pub lookup_complete: bool,
}

impl<V> GitLookup<V> {
    pub open spec fn lookup_view(&self) -> GitLookupView<V> {
        GitLookupView {
            cwd: match self.cwd {
                Some(c) => Some(c@),
                None => None,
            },
            value: self.value,
            pending: self.pending,
            lookup_complete: self.lookup_complete,
        }
    }

    /// No directory, nothing cached.
    pub fn new() -> (l: Self)
        ensures
            l.lookup_view() == (GitLookupView::<V> { cwd: None, value: None, pending: false, lookup_complete: false }),
    {
        GitLookup { cwd: None, value: None, pending: false, lookup_complete: false }
    }

    /// Keeps the cache where it is for `cwd`; for another directory the
    /// cached value is dropped, so that no value of another repository shows.
    pub fn sync_cwd(&mut self, cwd: &str)
        ensures
            old(self).lookup_view().cwd == Some(cwd@) ==> final(self).lookup_view() == old(self).lookup_view(),
            old(self).lookup_view().cwd != Some(cwd@) ==> final(self).lookup_view() == (GitLookupView::<V> {
                cwd: Some(cwd@),
                value: None,
                pending: false,
                lookup_complete: false,
            }),
    {
        let same = match &self.cwd {
            Some(c) => str_eq(c.as_str(), cwd),
            None => false,
        };
        if same {
            return;
        }
        self.cwd = Some(String::from_str(cwd));
        self.value = None;
        self.pending = false;
        self.lookup_complete = false;
    }

    /// Starts a lookup unless one runs. Without a command runner the lookup
    /// counts as complete. Returns whether to start it.
    pub fn request(&mut self, runner_available: bool) -> (start: bool)
        ensures
            start == (!old(self).pending && runner_available),
            final(self).lookup_view() == (if old(self).pending {
                old(self).lookup_view()
            } else if !runner_available {
                GitLookupView { lookup_complete: true, ..old(self).lookup_view() }
            } else {
                GitLookupView { pending: true, ..old(self).lookup_view() }
            }),
    {
        if self.pending {
            return false;
        }
        if !runner_available {
            self.lookup_complete = true;
            return false;
        }
        self.pending = true;
        true
    }

    /// Takes the result of a lookup made for `cwd`. A result for another
    /// directory is dropped; the lookup no longer runs either way. Returns
    /// whether the result was taken (and the status surfaces are to be
    /// refreshed).
    pub fn finish(&mut self, cwd: &str, value: Option<V>) -> (taken: bool)
        ensures
            taken == (old(self).lookup_view().cwd == Some(cwd@)),
            final(self).lookup_view() == (if taken {
                GitLookupView { value, pending: false, lookup_complete: true, ..old(self).lookup_view() }
            } else {
                GitLookupView { pending: false, ..old(self).lookup_view() }
            }),
    {
        let same = match &self.cwd {
            Some(c) => str_eq(c.as_str(), cwd),
            None => false,
        };
        self.pending = false;
        if !same {
            return false;
        }
        self.value = value;
        self.lookup_complete = true;
        true
    }

    /// Forgets the value where the status line no longer shows it; the
    /// directory stays.
    pub fn clear(&mut self)
        ensures
            final(self).lookup_view() == (GitLookupView::<V> {
                value: None,
                pending: false,
                lookup_complete: false,
                ..old(self).lookup_view()
            }),
    {
        self.value = None;
        self.pending = false;
        self.lookup_complete = false;
    }

    /// Brings the lookup in line with the status line: cleared where the
    /// item is not shown, else synced to `cwd` and started where it has not
    /// completed. Returns whether to start a lookup.
    pub fn sync_for_selection(&mut self, used: bool, cwd: &str, runner_available: bool) -> (start: bool)
        ensures
            !used ==> !start && final(self).lookup_view() == (GitLookupView::<V> {
                value: None,
                pending: false,
                lookup_complete: false,
                ..old(self).lookup_view()
            }),
            used ==> final(self).lookup_view().cwd == Some(cwd@),
            used && start ==> final(self).lookup_view().pending,
            used && old(self).lookup_view().cwd != Some(cwd@) ==> start == runner_available,
    {
        if !used {
            self.clear();
            return false;
        }
        self.sync_cwd(cwd);
        if !self.lookup_complete {
            self.request(runner_available)
        } else {
            false
        }
    }
}

/// What a workspace headline fetch returned.
#[derive(Debug)]
pub enum WorkspaceHeadlineFetchResult {
    Available(Option<String>),
    FeatureDisabled,
}

/// The workspace headline of the status line and its fetching. Times are
/// instants of a monotonic clock in milliseconds.
#[derive(Debug)]
pub struct WorkspaceHeadlineState {
    pub headline: Option<String>,
    pub pending_request_id: Option<u64>,
    pub last_requested_at: Option<u64>,
    /// The workspace turned messages off.
    pub messages_disabled: bool,
    pub next_request_id: u64,
}

/// Whether a fetch is due: none runs, messages are on, the session is
/// signed in to the backend, and the last request is at least `interval`
/// old (a clock that went back counts as no time).
pub open spec fn fetch_due(s: WorkspaceHeadlineState, now: u64, backend_auth: bool, interval: u64) -> bool {
    &&& s.pending_request_id is None
    &&& !s.messages_disabled
    &&& backend_auth
    &&& (s.last_requested_at matches Some(last) ==> (if now >= last { now - last } else { 0 }) >= interval)
}

impl WorkspaceHeadlineState {
    /// No headline, nothing requested.
    pub fn new() -> (s: Self)
        ensures
            s.headline is None,
            s.pending_request_id is None,
            s.last_requested_at is None,
            !s.messages_disabled,
            s.next_request_id == 0,
    {
        WorkspaceHeadlineState {
            headline: None,
            pending_request_id: None,
            last_requested_at: None,
            messages_disabled: false,
            next_request_id: 0,
        }
    }

    /// Whether a fetch is due at `now`.
    pub fn status_line_workspace_headline_should_fetch(&self, now: u64, backend_auth: bool, interval: u64) -> (r: bool)
        ensures
            r == fetch_due(*self, now, backend_auth, interval),
    {
        if self.pending_request_id.is_some() || self.messages_disabled || !backend_auth {
            return false;
        }
        match self.last_requested_at {
            None => true,
            Some(last) => now.saturating_sub(last) >= interval,
        }
    }

    /// Requests a fetch where one is due; returns the request's id.
    pub fn request_status_line_workspace_headline_if_due(&mut self, now: u64, backend_auth: bool, interval: u64) -> (id: Option<u64>)
        ensures
            !fetch_due(*old(self), now, backend_auth, interval) ==> id is None && *final(self) == *old(self),
            fetch_due(*old(self), now, backend_auth, interval) ==> {
                &&& id == Some(old(self).next_request_id)
                &&& final(self).pending_request_id == id
                &&& final(self).last_requested_at == Some(now)
                &&& final(self).next_request_id == (if old(self).next_request_id == u64::MAX {
                    0
                } else {
                    (old(self).next_request_id + 1) as u64
                })
                &&& final(self).headline == old(self).headline
                &&& final(self).messages_disabled == old(self).messages_disabled
            },
    {
        if !self.status_line_workspace_headline_should_fetch(now, backend_auth, interval) {
            return None;
        }
        let request_id = self.next_request_id;
        self.next_request_id = self.next_request_id.wrapping_add(1);
        self.pending_request_id = Some(request_id);
        self.last_requested_at = Some(now);
        Some(request_id)
    }

    /// Takes the response to `request_id`; a response to any other request
    /// changes nothing and returns `None`. Otherwise returns whether to
    /// schedule the next refresh: where messages stay on and the status line
    /// shows the headline.
    pub fn set_status_line_workspace_headline(
        &mut self,
        request_id: u64,
        result: Result<WorkspaceHeadlineFetchResult, String>,
        shows_headline: bool,
    ) -> (r: Option<bool>)
        ensures
            old(self).pending_request_id != Some(request_id) ==> r is None && *final(self) == *old(self),
            old(self).pending_request_id == Some(request_id) ==> {
                &&& final(self).pending_request_id is None
                &&& final(self).last_requested_at == old(self).last_requested_at
                &&& final(self).next_request_id == old(self).next_request_id
                &&& match result {
                    Ok(WorkspaceHeadlineFetchResult::Available(h)) => !final(self).messages_disabled
                        && final(self).headline == h,
                    Ok(WorkspaceHeadlineFetchResult::FeatureDisabled) => final(self).messages_disabled
                        && final(self).headline is None,
                    Err(_) => final(self).messages_disabled == old(self).messages_disabled
                        && final(self).headline == old(self).headline,
                }
                &&& r == Some(!final(self).messages_disabled && shows_headline)
            },
    {
        let matches = match self.pending_request_id {
            Some(id) => id == request_id,
            None => false,
        };
        if !matches {
            return None;
        }
        self.pending_request_id = None;
        match result {
            Ok(WorkspaceHeadlineFetchResult::Available(headline)) => {
                self.messages_disabled = false;
                self.headline = headline;
            },
            Ok(WorkspaceHeadlineFetchResult::FeatureDisabled) => {
                self.messages_disabled = true;
                self.headline = None;
            },
            Err(_) => {},
        }
        Some(!self.messages_disabled && shows_headline)
    }

    /// Forgets the headline where the status line no longer shows it.
    pub fn clear(&mut self)
        ensures
            final(self).headline is None,
            final(self).pending_request_id is None,
            final(self).last_requested_at is None,
            !final(self).messages_disabled,
            final(self).next_request_id == old(self).next_request_id,
    {
        self.headline = None;
        self.pending_request_id = None;
        self.last_requested_at = None;
        self.messages_disabled = false;
    }
}

/// At most one headline fetch runs: right after a request, no other fetch
/// is due, whatever the time.
pub proof fn lemma_no_fetch_while_pending(s: WorkspaceHeadlineState, now: u64, backend_auth: bool, interval: u64)
    requires
        s.pending_request_id is Some,
    ensures
        !fetch_due(s, now, backend_auth, interval),
{
}

} // verus!
