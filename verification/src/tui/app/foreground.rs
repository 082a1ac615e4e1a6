//! The session in the foreground in the state.

use vstd::prelude::*;
use vstd::string::*;

use super::session::{FgModel, FgSession};
use super::state::{AppModel, AppState};
use crate::text;
use crate::text::Text;
use crate::tui::foreground::{session_size, terminal_size};
use crate::tui::ipc::{RequestModel, RequestPayload};
use crate::tui::main_view::CardStatus;

verus! {

impl AppModel {
    pub open spec fn fg_size(self) -> (u16, u16) {
        session_size(self.terminal_width, self.terminal_height)
    }

    /// With the daemon told the size of the session.
    pub open spec fn with_fg_size_sent(self) -> AppModel {
        let (cols, rows) = self.fg_size();
        self.sent(RequestModel::FgResize { cols, rows })
    }

    /// With a job in the foreground.
    pub open spec fn fg_started(self, id: Text, card: Option<usize>) -> AppModel {
        if text::starts_with(id, "A"@) {
            self
        } else {
            let (cols, rows) = self.fg_size();
            AppModel { fg_session: Some(FgModel::started(id, card, cols, rows)), ..self }
        }
    }

    pub open spec fn fg_fed(self, data: Seq<u8>) -> AppModel {
        match self.fg_session {
            Some(s) => AppModel { fg_session: Some(s.fed(data)), ..self },
            None => self,
        }
    }

    /// After a session ended; its card shows how, and what the terminal showed.
    pub open spec fn fg_finished(self, id: Text, reason: Text) -> AppModel {
        match self.fg_session {
            Some(s) => if s.id != id {
                self
            } else {
                let rest = AppModel { fg_session: None, ..self };
                match s.card_index {
                    Some(card) => {
                        let status = if reason == "done"@ || reason == "detached"@ {
                            CardStatus::Success
                        } else {
                            CardStatus::Error
                        };
                        let shown = text::lossy_text(s.screen().formatted);
                        let log = self.main_view.with_status(card as int, status);
                        AppModel {
                            main_view: if shown.len() > 0 {
                                log.with_output(card as int, shown)
                            } else {
                                log
                            },
                            ..rest
                        }
                    },
                    None => rest,
                }
            },
            None => self,
        }
    }

    /// With the terminal at another size.
    #[verifier::opaque]
    pub open spec fn resized(self, width: u16, height: u16) -> AppModel {
        let s = AppModel { terminal_width: width, terminal_height: height, ..self };
        match self.fg_session {
            Some(session) => {
                let (cols, rows) = s.fg_size();
                AppModel { fg_session: Some(session.resized(cols, rows)), ..s }.with_fg_size_sent()
            },
            None => s,
        }
    }
}

impl AppState {
    fn fg_terminal_size(&self) -> (r: (u16, u16))
        ensures
            r == self@.fg_size(),
            r.0 >= 1,
            r.1 >= 1,
    {
        terminal_size(self.terminal_width, self.terminal_height)
    }

    pub(crate) fn send_fg_size(&mut self)
        ensures
            final(self)@ == old(self)@.with_fg_size_sent(),
            old(self).wf() ==> final(self).wf(),
    {
        let (cols, rows) = self.fg_terminal_size();
        self.send(RequestPayload::FgResize { cols, rows });
    }

    pub(crate) fn start_fg_session(&mut self, id: String, card_index: Option<usize>)
        ensures
            final(self)@ == old(self)@.fg_started(id@, card_index),
            old(self).wf() ==> final(self).wf(),
    {
        if text::str_starts_with(id.as_str(), "A") {
            return;
        }
        let (cols, rows) = self.fg_terminal_size();
        self.fg_session = Some(FgSession::new(id, card_index, cols, rows));
    }

    pub(crate) fn append_fg_output(&mut self, data: Vec<u8>)
        requires
            old(self).wf(),
        ensures
            final(self).wf(),
            final(self)@ == old(self)@.fg_fed(data@),
    {
        if let Some(s) = &mut self.fg_session {
            s.feed(data);
        }
    }

    pub(crate) fn finish_fg_session(&mut self, id: &str, reason: &str)
        requires
            old(self).wf(),
        ensures
            final(self).wf(),
            final(self)@ == old(self)@.fg_finished(id@, reason@),
    {
        let (card, shown) = match &self.fg_session {
            Some(s) => {
                if !text::str_eq(s.id(), id) {
                    return;
                }
                match s.card_index() {
                    Some(card) => (card, text::lossy_string(&s.screen().formatted)),
                    None => {
                        self.fg_session = None;
                        return;
                    },
                }
            },
            None => {
                return;
            },
        };
        self.fg_session = None;
        let status = if text::str_eq(reason, "done") || text::str_eq(reason, "detached") {
            CardStatus::Success
        } else {
            CardStatus::Error
        };
        self.main_view.set_card_status(card, status);
        if shown.as_str().unicode_len() > 0 {
            self.main_view.set_card_output(card, shown);
        }
    }

    pub(crate) fn resize(&mut self, width: u16, height: u16)
        requires
            old(self).wf(),
        ensures
            final(self).wf(),
            final(self)@ == old(self)@.resized(width, height),
    {
        proof {
            reveal(AppModel::resized);
        }
        self.terminal_width = width;
        self.terminal_height = height;
        let (cols, rows) = self.fg_terminal_size();
        if let Some(s) = &mut self.fg_session {
            s.resize(cols, rows);
            self.send_fg_size();
        }
    }
}

} // verus!
