//! Requests to the daemon, and what is subscribed to.

use vstd::prelude::*;
use vstd::string::*;

use super::state::{AppModel, AppState};
use super::tables::pending_inserted;
use crate::mode::Mode;
use crate::text;
use crate::text::Text;
use crate::tui::display::{followed, DisplayStream, PaneModel};
use crate::tui::ipc::{RequestModel, RequestPayload};
use crate::tui::submission::{without_command, KindModel, PendingModel, PendingSubmission};
use crate::tui::text_order::{sort_strings, sorted_texts, strings_without, without};

verus! {

/// A request whose answer is not shown.
pub open spec fn silent_pending() -> PendingModel {
    without_command(KindModel::Silent { description: "silent request"@ })
}

/// The request for the output of a job, or to give it up.
pub open spec fn output_request(id: Text, subscribe: bool) -> RequestModel {
    let channels = seq!["output:"@ + id];
    if subscribe {
        RequestModel::Subscribe { channels }
    } else {
        RequestModel::Unsubscribe { channels }
    }
}

impl AppModel {
    /// Whether a request would be taken now.
    pub open spec fn can_send(self) -> bool {
        self.writer matches Some(w) && w.refusal is None
    }

    /// With a request sent.
    pub open spec fn sent(self, payload: RequestModel) -> AppModel {
        match self.writer {
            Some(w) => AppModel { writer: Some(w.with_request(payload)), ..self },
            None => self,
        }
    }

    /// With a request sent whose answer is not shown.
    pub open spec fn silent(self, payload: RequestModel) -> AppModel {
        if self.can_send() {
            AppModel {
                pending_submissions: pending_inserted(
                    self.pending_submissions,
                    self.writer->0.next_id,
                    silent_pending(),
                ),
                ..self.sent(payload)
            }
        } else {
            self
        }
    }

    /// With the output of the first `n` jobs asked for, or given up.
    pub open spec fn output_requested(self, ids: Seq<Text>, n: int, subscribe: bool) -> AppModel
        decreases n,
    {
        if n <= 0 {
            self
        } else {
            self.output_requested(ids, n - 1, subscribe).silent(
                output_request(ids[n - 1], subscribe),
            )
        }
    }

    /// With the subscriptions that the tabs need.
    pub open spec fn with_subscriptions(self) -> AppModel {
        let desired = followed(self.display.tabs);
        let current = sorted_texts(self.display_subscriptions);
        let missing = without(desired, current, Seq::empty());
        let stale = without(current, desired, Seq::empty());
        AppModel {
            display_subscriptions: desired,
            ..self.output_requested(missing, missing.len() as int, true).output_requested(
                stale,
                stale.len() as int,
                false,
            )
        }
    }

    pub open spec fn with_core_channels(self) -> AppModel {
        self.silent(RequestModel::Subscribe { channels: seq!["jobs"@, "crons"@, "system"@] })
    }

    pub open spec fn with_cron_snapshot(self) -> AppModel {
        self.silent(RequestModel::Eval { input: ":crons"@, mode: Mode::Cron })
    }

    pub open spec fn with_snapshots(self) -> AppModel {
        self.silent(RequestModel::Eval { input: ":jobs"@, mode: Mode::Job }).with_cron_snapshot()
    }

    pub open spec fn with_restored_subscriptions(self) -> AppModel {
        self.output_requested(
            self.display_subscriptions,
            self.display_subscriptions.len() as int,
            true,
        )
    }

    /// With the output of a job shown.
    pub open spec fn with_output(
        self,
        id: Text,
        stream: DisplayStream,
        data: Text,
        truncated: bool,
        follow: bool,
    ) -> AppModel {
        AppModel {
            display: self.display.with_output(id, stream, data, truncated, follow),
            ..self
        }.with_subscriptions()
    }

    /// Without the tab at `index`.
    pub open spec fn without_tab(self, index: usize) -> AppModel {
        if index < self.display.tabs.len() {
            AppModel { display: self.display.closed(index), ..self }.with_subscriptions()
        } else {
            self
        }
    }

    /// With nothing shown and nothing subscribed to.
    pub open spec fn with_empty_display(self) -> AppModel {
        let subscribed = self.display_subscriptions;
        AppModel {
            display: PaneModel::empty(),
            target_settings: None,
            target_settings_error: None,
            ..AppModel { display_subscriptions: Seq::empty(), ..self }.output_requested(
                subscribed,
                subscribed.len() as int,
                false,
            )
        }
    }
}

impl AppState {
    /// Sends a request, if it can be sent.
    pub(crate) fn send(&mut self, payload: RequestPayload)
        ensures
            final(self)@ == old(self)@.sent(payload@),
            old(self).wf() ==> final(self).wf(),
    {
        if let Some(writer) = &mut self.writer {
            let _ = writer.try_send(payload);
        }
    }

    /// Sends a request whose answer is not shown; says whether it was sent.
    pub(crate) fn enqueue_silent_request(&mut self, payload: RequestPayload) -> (r: bool)
        ensures
            final(self)@ == old(self)@.silent(payload@),
            r == old(self)@.can_send(),
            old(self).wf() ==> final(self).wf(),
    {
        let sent = match &mut self.writer {
            Some(writer) => writer.try_send(payload),
            None => {
                return false;
            },
        };
        match sent {
            Ok(id) => {
                self.pending_submissions.insert(id, PendingSubmission::silent());
                true
            },
            Err(_) => {
                assert(self@ == old(self)@);
                false
            },
        }
    }

    fn request_output(&mut self, ids: &Vec<String>, subscribe: bool)
        ensures
            final(self)@ == old(self)@.output_requested(
                text::texts(ids@),
                ids@.len() as int,
                subscribe,
            ),
            old(self).wf() ==> final(self).wf(),
    {
        let mut i: usize = 0;
        while i < ids.len()
            invariant
                i <= ids@.len(),
                self@ == old(self)@.output_requested(text::texts(ids@), i as int, subscribe),
                old(self).wf() ==> self.wf(),
            decreases ids@.len() - i,
        {
            let channels = text::texts1(text::concat2("output:", ids[i].as_str()));
            proof {
                assert(text::texts(ids@)[i as int] == ids@[i as int]@);
                assert(text::texts(channels@) =~= seq!["output:"@ + ids@[i as int]@]);
            }
            let payload = if subscribe {
                RequestPayload::Subscribe { channels }
            } else {
                RequestPayload::Unsubscribe { channels }
            };
            let _ = self.enqueue_silent_request(payload);
            i = i + 1;
        }
    }

    pub(crate) fn sync_display_subscriptions(&mut self)
        ensures
            final(self)@ == old(self)@.with_subscriptions(),
            old(self).wf() ==> final(self).wf(),
    {
        let desired = self.display.desired_subscriptions();
        let current = sort_strings(&self.display_subscriptions);
        let none: Vec<String> = Vec::new();
        assert(text::texts(none@) =~= Seq::<Text>::empty());
        let missing = strings_without(&desired, &current, &none);
        let stale = strings_without(&current, &desired, &none);
        assert(text::texts(missing@).len() == missing@.len());
        assert(text::texts(stale@).len() == stale@.len());
        self.request_output(&missing, true);
        self.request_output(&stale, false);
        self.display_subscriptions = desired;
    }

    pub(crate) fn restore_display_subscriptions(&mut self)
        ensures
            final(self)@ == old(self)@.with_restored_subscriptions(),
            old(self).wf() ==> final(self).wf(),
    {
        let ids = text::clone_strings(&self.display_subscriptions);
        assert(text::texts(ids@).len() == ids@.len());
        self.request_output(&ids, true);
    }

    pub(crate) fn subscribe_core_channels(&mut self)
        ensures
            final(self)@ == old(self)@.with_core_channels(),
            old(self).wf() ==> final(self).wf(),
    {
        let channels = text::texts3("jobs".to_owned(), "crons".to_owned(), "system".to_owned());
        let _ = self.enqueue_silent_request(RequestPayload::Subscribe { channels });
    }

    pub(crate) fn request_cron_snapshot(&mut self)
        ensures
            final(self)@ == old(self)@.with_cron_snapshot(),
            old(self).wf() ==> final(self).wf(),
    {
        let _ = self.enqueue_silent_request(
            RequestPayload::Eval { input: ":crons".to_owned(), mode: Mode::Cron },
        );
    }

    /// Asks for all jobs and crons; if the first cannot be sent, neither is.
    pub(crate) fn request_sidebar_snapshots(&mut self)
        ensures
            final(self)@ == old(self)@.with_snapshots(),
            old(self).wf() ==> final(self).wf(),
    {
        let sent = self.enqueue_silent_request(
            RequestPayload::Eval { input: ":jobs".to_owned(), mode: Mode::Job },
        );
        if sent {
            self.request_cron_snapshot();
        }
    }

    pub fn show_output_display(
        &mut self,
        id: String,
        stream: DisplayStream,
        data: String,
        truncated: bool,
        follow: bool,
    )
        ensures
            final(self)@ == old(self)@.with_output(id@, stream, data@, truncated, follow),
            old(self).wf() ==> final(self).wf(),
    {
        self.display.show_output(id, stream, data, truncated, follow);
        self.sync_display_subscriptions();
    }

    pub fn close_display_tab(&mut self, index: usize)
        ensures
            final(self)@ == old(self)@.without_tab(index),
            old(self).wf() ==> final(self).wf(),
    {
        if self.display.close(index) {
            self.sync_display_subscriptions();
        } else {
            assert(self@ == old(self)@);
        }
    }

    pub(crate) fn clear_display_pane(&mut self)
        ensures
            final(self)@ == old(self)@.with_empty_display(),
            old(self).wf() ==> final(self).wf(),
    {
        let mut subscribed: Vec<String> = Vec::new();
        std::mem::swap(&mut subscribed, &mut self.display_subscriptions);
        proof {
            assert(text::texts(subscribed@).len() == subscribed@.len());
            assert(text::texts(self.display_subscriptions@) =~= Seq::<Text>::empty());
        }
        self.request_output(&subscribed, false);
        self.display.clear();
        self.target_settings = None;
        self.target_settings_error = None;
    }
}

// ── Laws ──

/// A request that cannot be sent changes nothing.
pub proof fn lemma_unsent_changes_nothing(s: AppModel, payload: RequestModel)
    requires
        !s.can_send(),
    ensures
        s.silent(payload) == s,
        s.sent(payload) == s,
{
}

/// Asking again for subscriptions that fit the tabs sends nothing.
pub proof fn lemma_subscriptions_settle(s: AppModel)
    ensures
        s.with_subscriptions().display_subscriptions == followed(s.display.tabs),
        s.with_subscriptions().with_subscriptions() == s.with_subscriptions(),
{
    let t = s.with_subscriptions();
    let desired = followed(s.display.tabs);
    lemma_requests_keep_display(
        s,
        without(desired, sorted_texts(s.display_subscriptions), Seq::empty()),
        without(desired, sorted_texts(s.display_subscriptions), Seq::empty()).len() as int,
        true,
    );
    let m = s.output_requested(
        without(desired, sorted_texts(s.display_subscriptions), Seq::empty()),
        without(desired, sorted_texts(s.display_subscriptions), Seq::empty()).len() as int,
        true,
    );
    let stale = without(sorted_texts(s.display_subscriptions), desired, Seq::empty());
    lemma_requests_keep_display(m, stale, stale.len() as int, false);
    assert(t.display == s.display);
    crate::tui::text_order::lemma_sorted_texts(desired);
    lemma_without_itself(desired, sorted_texts(desired));
    lemma_without_itself(sorted_texts(desired), desired);
}

proof fn lemma_without_itself(a: Seq<Text>, b: Seq<Text>)
    requires
        forall|t: Text| a.contains(t) ==> #[trigger] b.contains(t),
    ensures
        without(a, b, Seq::empty()) == Seq::<Text>::empty(),
    decreases a.len(),
{
    if a.len() > 0 {
        let d = a.drop_last();
        assert forall|t: Text| d.contains(t) implies #[trigger] b.contains(t) by {
            assert(a[d.index_of(t)] == t);
            assert(a.contains(t));
        }
        lemma_without_itself(d, b);
        assert(a[a.len() - 1] == a.last());
        assert(a.contains(a.last()));
        assert(b.contains(a.last()));
    }
}

proof fn lemma_requests_keep_display(s: AppModel, ids: Seq<Text>, n: int, subscribe: bool)
    ensures
        s.output_requested(ids, n, subscribe).display == s.display,
        s.output_requested(ids, n, subscribe).display_subscriptions == s.display_subscriptions,
    decreases n,
{
    if n > 0 {
        lemma_requests_keep_display(s, ids, n - 1, subscribe);
    }
}

} // verus!
