//! Submitted commands: what waits for an answer, and what commands mean to the
//! front end.

use vstd::prelude::*;
use vstd::string::*;

use crate::mode::Mode;
use crate::text;
use crate::text::Text;
use crate::tui::ipc::Stream;
use crate::tui::lines::push_line;
use crate::tui::text_order::{insert_string, insert_text};

verus! {

/// A request that waits for an answer.
#[derive(Debug)]
pub struct PendingSubmission {
    card_index: Option<usize>,
    input: String,
    mode: Mode,
    warnings: Vec<String>,
    kind: PendingKind,
}

#[derive(Debug)]
#[allow(inconsistent_fields)]
enum PendingKind {
    User,
    Silent { description: String },
    DisplaySubscribe { id: String },
    DisplayUnsubscribe { id: String },
}

/// What a request is for.
#[allow(inconsistent_fields)]
pub enum KindModel {
    /// A command of the user.
    User,
    /// A request without a card.
    Silent { description: Text },
    DisplaySubscribe { id: Text },
    DisplayUnsubscribe { id: Text },
}

/// A waiting request over character sequences.
pub struct PendingModel {
    pub card_index: Option<usize>,
    pub input: Text,
    pub mode: Mode,
    pub warnings: Seq<Text>,
    pub kind: KindModel,
}

impl View for PendingSubmission {
    type V = PendingModel;

    closed spec fn view(&self) -> PendingModel {
        PendingModel {
            card_index: self.card_index,
            input: self.input@,
            mode: self.mode,
            warnings: text::texts(self.warnings@),
            kind: match self.kind {
                PendingKind::User => KindModel::User,
                PendingKind::Silent { description } => KindModel::Silent {
                    description: description@,
                },
                PendingKind::DisplaySubscribe { id } => KindModel::DisplaySubscribe { id: id@ },
                PendingKind::DisplayUnsubscribe { id } => KindModel::DisplayUnsubscribe {
                    id: id@,
                },
            },
        }
    }
}

/// A request without a command.
pub open spec fn without_command(kind: KindModel) -> PendingModel {
    PendingModel {
        card_index: None,
        input: Seq::empty(),
        mode: Mode::Job,
        warnings: Seq::empty(),
        kind,
    }
}

impl PendingSubmission {
    pub fn user(
        card_index: Option<usize>,
        input: String,
        mode: Mode,
        warnings: Vec<String>,
    ) -> (r: PendingSubmission)
        ensures
            r@ == (PendingModel {
                card_index,
                input: input@,
                mode,
                warnings: text::texts(warnings@),
                kind: KindModel::User,
            }),
    {
        PendingSubmission { card_index, input, mode, warnings, kind: PendingKind::User }
    }

    fn plain(kind: PendingKind) -> (r: PendingSubmission)
        ensures
            r@.card_index is None,
            r@.input == Seq::<char>::empty(),
            r@.mode == Mode::Job,
            r@.warnings == Seq::<Text>::empty(),
            r.kind == kind,
    {
        let r = PendingSubmission {
            card_index: None,
            input: String::new(),
            mode: Mode::Job,
            warnings: Vec::new(),
            kind,
        };
        proof {
            assert(r.input@ =~= Seq::<char>::empty());
            assert(text::texts(r.warnings@) =~= Seq::<Text>::empty());
        }
        r
    }

    /// A request whose answer is not shown.
    pub fn silent() -> (r: PendingSubmission)
        ensures
            r@ == without_command(KindModel::Silent { description: "silent request"@ }),
    {
        PendingSubmission::silent_request("silent request")
    }

    pub fn silent_request(description: &str) -> (r: PendingSubmission)
        ensures
            r@ == without_command(KindModel::Silent { description: description@ }),
    {
        PendingSubmission::plain(PendingKind::Silent { description: description.to_owned() })
    }

    pub fn display_subscribe(id: String) -> (r: PendingSubmission)
        ensures
            r@ == without_command(KindModel::DisplaySubscribe { id: id@ }),
    {
        PendingSubmission::plain(PendingKind::DisplaySubscribe { id })
    }

    pub fn display_unsubscribe(id: String) -> (r: PendingSubmission)
        ensures
            r@ == without_command(KindModel::DisplayUnsubscribe { id: id@ }),
    {
        PendingSubmission::plain(PendingKind::DisplayUnsubscribe { id })
    }

    pub fn card_index(&self) -> (r: Option<usize>)
        ensures
            r == self@.card_index,
    {
        self.card_index
    }

    pub fn input(&self) -> (r: &str)
        ensures
            r@ == self@.input,
    {
        self.input.as_str()
    }

    pub fn mode(&self) -> (r: Mode)
        ensures
            r == self@.mode,
    {
        self.mode
    }

    /// An answer with the warnings on the command.
    pub fn decorated_output(&self, body: String) -> (r: String)
        ensures
            r@ == decorated(self@.warnings, body@),
    {
        decorate_output(&self.warnings, body)
    }

    /// What is shown when the command was accepted.
    pub fn ack_message(&self) -> (r: String)
        ensures
            r@ == ack_text(self@.input),
    {
        format_ack_message(self.input.as_str())
    }

    pub fn normalized_command_label(&self) -> (r: String)
        ensures
            r@ == command_label(self@.input),
    {
        normalize_command_label(self.input.as_str())
    }

    pub fn display_request(&self) -> (r: Option<DisplayRequest>)
        ensures
            r == display_request_of(self@.input),
    {
        display_request_from_submission(self.input.as_str(), self.mode)
    }

    /// Whether the answer is shown.
    pub fn is_user_visible(&self) -> (r: bool)
        ensures
            r == (self@.kind is User),
    {
        match &self.kind {
            PendingKind::User => true,
            _ => false,
        }
    }

    pub fn silent_description(&self) -> (r: Option<&str>)
        ensures
            text::opt_str(r) == match self@.kind {
                KindModel::Silent { description } => Some(description),
                _ => None,
            },
    {
        match &self.kind {
            PendingKind::Silent { description } => Some(description.as_str()),
            _ => None,
        }
    }

    pub fn display_subscribe_id(&self) -> (r: Option<&str>)
        ensures
            text::opt_str(r) == match self@.kind {
                KindModel::DisplaySubscribe { id } => Some(id),
                _ => None,
            },
    {
        match &self.kind {
            PendingKind::DisplaySubscribe { id } => Some(id.as_str()),
            _ => None,
        }
    }

    pub fn display_unsubscribe_id(&self) -> (r: Option<&str>)
        ensures
            text::opt_str(r) == match self@.kind {
                KindModel::DisplayUnsubscribe { id } => Some(id),
                _ => None,
            },
    {
        match &self.kind {
            PendingKind::DisplayUnsubscribe { id } => Some(id.as_str()),
            _ => None,
        }
    }
}

pub open spec fn pending_models(v: Seq<PendingSubmission>) -> Seq<PendingModel> {
    v.map_values(|p: PendingSubmission| p@)
}

/// The jobs whose output is being subscribed to, in ascending order.
pub open spec fn subscribing(pending: Seq<PendingModel>) -> Seq<Text>
    decreases pending.len(),
{
    if pending.len() == 0 {
        Seq::empty()
    } else {
        let before = subscribing(pending.drop_last());
        match pending.last().kind {
            KindModel::DisplaySubscribe { id } => insert_text(before, id),
            _ => before,
        }
    }
}

/// The jobs whose output is being unsubscribed from, in ascending order.
pub open spec fn unsubscribing(pending: Seq<PendingModel>) -> Seq<Text>
    decreases pending.len(),
{
    if pending.len() == 0 {
        Seq::empty()
    } else {
        let before = unsubscribing(pending.drop_last());
        match pending.last().kind {
            KindModel::DisplayUnsubscribe { id } => insert_text(before, id),
            _ => before,
        }
    }
}

/// The subscriptions that are being asked for and given up.
pub fn pending_display_subscription_requests(pending: &Vec<PendingSubmission>) -> (r: (
    Vec<String>,
    Vec<String>,
))
    ensures
        text::texts(r.0@) == subscribing(pending_models(pending@)),
        text::texts(r.1@) == unsubscribing(pending_models(pending@)),
{
    let ghost all = pending_models(pending@);
    let mut subscribes: Vec<String> = Vec::new();
    let mut unsubscribes: Vec<String> = Vec::new();
    let mut i: usize = 0;
    assert(text::texts(subscribes@) =~= subscribing(all.take(0)));
    assert(text::texts(unsubscribes@) =~= unsubscribing(all.take(0)));
    while i < pending.len()
        invariant
            i <= pending@.len(),
            all == pending_models(pending@),
            text::texts(subscribes@) == subscribing(all.take(i as int)),
            text::texts(unsubscribes@) == unsubscribing(all.take(i as int)),
        decreases pending@.len() - i,
    {
        proof {
            assert(all.take(i + 1).drop_last() =~= all.take(i as int));
            assert(all.take(i + 1).last() == pending@[i as int]@);
        }
        match &pending[i].kind {
            PendingKind::DisplaySubscribe { id } => {
                insert_string(&mut subscribes, id.clone());
            },
            PendingKind::DisplayUnsubscribe { id } => {
                insert_string(&mut unsubscribes, id.clone());
            },
            _ => {},
        }
        i = i + 1;
    }
    assert(all.take(i as int) =~= all);
    (subscribes, unsubscribes)
}

// ── Commands of the front end ──

/// A command that the front end carries out itself.
#[derive(Debug, Clone, Copy, PartialEq, Eq, Structural)]
pub enum LocalCommand {
    Clear,
    Quit,
    Restart,
}

pub open spec fn local_command(input: Text) -> Option<LocalCommand> {
    let t = text::trim(input);
    if t == ":clear"@ {
        Some(LocalCommand::Clear)
    } else if t == ":quit"@ || t == ":exit"@ {
        Some(LocalCommand::Quit)
    } else if t == ":restart"@ {
        Some(LocalCommand::Restart)
    } else {
        None
    }
}

pub fn parse_local_command(input: &str) -> (r: Option<LocalCommand>)
    ensures
        r == local_command(input@),
{
    let trimmed = text::all_string(&text::str_trim(input));
    let t = trimmed.as_str();
    if text::str_eq(t, ":clear") {
        Some(LocalCommand::Clear)
    } else if text::str_eq(t, ":quit") || text::str_eq(t, ":exit") {
        Some(LocalCommand::Quit)
    } else if text::str_eq(t, ":restart") {
        Some(LocalCommand::Restart)
    } else {
        None
    }
}

/// Output that a command asks to be shown.
#[derive(Debug, Clone, Copy, PartialEq, Eq, Structural)]
pub struct DisplayRequest {
    pub stream: Stream,
    pub follow: bool,
}

pub open spec fn display_request_of(input: Text) -> Option<DisplayRequest> {
    match text::strip_prefix(text::trim(input), ":"@) {
        None => None,
        Some(rest) => if text::words(rest).len() == 0 {
            None
        } else if text::words(rest)[0] == "out"@ {
            Some(DisplayRequest { stream: Stream::Stdout, follow: false })
        } else if text::words(rest)[0] == "tail"@ {
            Some(DisplayRequest { stream: Stream::Stdout, follow: true })
        } else if text::words(rest)[0] == "err"@ {
            Some(DisplayRequest { stream: Stream::Stderr, follow: false })
        } else {
            None
        },
    }
}

/// The output that a command asks to be shown; a colon is needed in every mode.
pub fn display_request_from_submission(input: &str, _mode: Mode) -> (r: Option<DisplayRequest>)
    ensures
        r == display_request_of(input@),
{
    let trimmed = text::str_trim(input);
    let rest = match text::chars_strip_prefix(&trimmed, ":") {
        Some(rest) => rest,
        None => {
            return None;
        },
    };
    let parts = text::chars_words(&rest);
    if parts.len() == 0 {
        return None;
    }
    assert(text::texts(parts@)[0] == parts@[0]@);
    let command = parts[0].as_str();
    if text::str_eq(command, "out") {
        Some(DisplayRequest { stream: Stream::Stdout, follow: false })
    } else if text::str_eq(command, "tail") {
        Some(DisplayRequest { stream: Stream::Stdout, follow: true })
    } else if text::str_eq(command, "err") {
        Some(DisplayRequest { stream: Stream::Stderr, follow: false })
    } else {
        None
    }
}

// ── Operator spacing ──

/// The operator that starts at `pos`.
pub open spec fn operator_at(s: Text, pos: int) -> Option<Text> {
    if text::has_at(s, pos, "|||"@) {
        Some("|||"@)
    } else if text::has_at(s, pos, "|?|"@) {
        Some("|?|"@)
    } else if text::has_at(s, pos, "->"@) {
        Some("->"@)
    } else if text::has_at(s, pos, "~>"@) {
        Some("~>"@)
    } else {
        None
    }
}

pub open spec fn is_blank(c: char) -> bool {
    c == ' ' || c == '\t'
}

pub open spec fn trim_blanks_end(s: Text) -> Text
    decreases s.len(),
{
    if s.len() > 0 && is_blank(s.last()) {
        trim_blanks_end(s.drop_last())
    } else {
        s
    }
}

pub open spec fn trim_blanks_start(s: Text) -> Text
    decreases s.len(),
{
    if s.len() > 0 && is_blank(s[0]) {
        trim_blanks_start(s.skip(1))
    } else {
        s
    }
}

/// The input with single spaces around the operator.
pub open spec fn spaced(s: Text, pos: int, op: Text) -> Text {
    trim_blanks_end(s.take(pos)) + " "@ + op + " "@ + trim_blanks_start(s.skip(pos + op.len()))
}

pub open spec fn spacing_warning(s: Text, pos: int, op: Text) -> Text {
    "Warning: missing spaces around `"@ + op + "`; did you mean `"@ + spaced(s, pos, op) + "`?"@
}

/// Whether white space, or nothing, stands on both sides.
pub open spec fn well_spaced(s: Text, pos: int, op: Text) -> bool {
    &&& pos == 0 || text::is_white(s[pos - 1])
    &&& pos + op.len() >= s.len() || text::is_white(s[pos + op.len()])
}

pub proof fn lemma_operator_len(s: Text, pos: int)
    ensures
        operator_at(s, pos) matches Some(op) ==> 2 <= op.len() <= 3 && pos + op.len() <= s.len(),
{
    reveal_strlit("|||");
    reveal_strlit("|?|");
    reveal_strlit("->");
    reveal_strlit("~>");
}

/// The warnings on operators from `pos` on, outside of double quotes.
pub open spec fn warnings_from(s: Text, pos: int, quoted: bool) -> Seq<Text>
    decreases s.len() - pos,
{
    if !(0 <= pos < s.len()) {
        Seq::empty()
    } else if s[pos] == '\\' && quoted {
        warnings_from(
            s,
            if pos + 1 < s.len() {
                pos + 2
            } else {
                pos + 1
            },
            quoted,
        )
    } else if s[pos] == '"' {
        warnings_from(s, pos + 1, !quoted)
    } else {
        match operator_at(s, pos) {
            Some(op) if !quoted => {
                proof {
                    lemma_operator_len(s, pos);
                }
                let rest = warnings_from(s, pos + op.len(), quoted);
                if well_spaced(s, pos, op) {
                    rest
                } else {
                    seq![spacing_warning(s, pos, op)] + rest
                }
            },
            _ => warnings_from(s, pos + 1, quoted),
        }
    }
}

/// The warnings on a command.
pub open spec fn spacing_warnings(s: Text) -> Seq<Text> {
    warnings_from(s, 0, false)
}

fn find_operator(v: &Vec<char>, pos: usize) -> (r: Option<&'static str>)
    requires
        pos <= v.len(),
    ensures
        text::opt_str(r) == operator_at(v@, pos as int),
{
    if text::chars_at(v, pos, "|||") {
        Some("|||")
    } else if text::chars_at(v, pos, "|?|") {
        Some("|?|")
    } else if text::chars_at(v, pos, "->") {
        Some("->")
    } else if text::chars_at(v, pos, "~>") {
        Some("~>")
    } else {
        None
    }
}

fn spaced_operator_suggestion(v: &Vec<char>, pos: usize, op: &str) -> (r: String)
    requires
        pos + op@.len() <= v.len(),
    ensures
        r@ == spaced(v@, pos as int, op@),
{
    let mut end: usize = pos;
    assert(v@.take(pos as int) =~= v@.subrange(0, pos as int));
    while end > 0 && (v[end - 1] == ' ' || v[end - 1] == '\t')
        invariant
            end <= pos <= v@.len(),
            trim_blanks_end(v@.subrange(0, end as int)) == trim_blanks_end(v@.take(pos as int)),
        decreases end,
    {
        assert(v@.subrange(0, end as int).drop_last() =~= v@.subrange(0, end - 1));
        end = end - 1;
    }
    let after: usize = pos + op.unicode_len();
    let mut start: usize = after;
    assert(v@.skip(after as int) =~= v@.subrange(after as int, v@.len() as int));
    while start < v.len() && (v[start] == ' ' || v[start] == '\t')
        invariant
            after <= start <= v@.len(),
            trim_blanks_start(v@.subrange(start as int, v@.len() as int)) == trim_blanks_start(
                v@.skip(after as int),
            ),
        decreases v@.len() - start,
    {
        assert(v@.subrange(start as int, v@.len() as int).skip(1) =~= v@.subrange(
            start + 1,
            v@.len() as int,
        ));
        start = start + 1;
    }
    let head = text::string_of(v, 0, end);
    let tail = text::string_of(v, start, v.len());
    text::concat5(head.as_str(), " ", op, " ", tail.as_str())
}

/// Warns of operators without spaces around them, outside of double quotes.
pub fn operator_spacing_warnings(input: &str) -> (r: Vec<String>)
    ensures
        text::texts(r@) == spacing_warnings(input@),
{
    let v = text::chars_of(input);
    let ghost s = v@;
    let mut warnings: Vec<String> = Vec::new();
    let mut pos: usize = 0;
    let mut quoted: bool = false;
    assert(text::texts(warnings@) + warnings_from(s, 0, false) =~= spacing_warnings(s));
    while pos < v.len()
        invariant
            v@ == s,
            s == input@,
            pos <= v@.len(),
            text::texts(warnings@) + warnings_from(s, pos as int, quoted) == spacing_warnings(s),
        decreases v@.len() - pos,
    {
        let c = v[pos];
        if c == '\\' && quoted {
            if pos + 1 < v.len() {
                pos = pos + 2;
            } else {
                pos = pos + 1;
            }
            continue;
        }
        if c == '"' {
            quoted = !quoted;
            pos = pos + 1;
            continue;
        }
        if !quoted {
            proof {
                lemma_operator_len(s, pos as int);
            }
            if let Some(op) = find_operator(&v, pos) {
                let after: usize = pos + op.unicode_len();
                let before_ok = pos == 0 || text::is_whitespace(v[pos - 1]);
                let after_ok = after >= v.len() || text::is_whitespace(v[after]);
                let ghost rest = warnings_from(s, after as int, quoted);
                if !before_ok || !after_ok {
                    let suggestion = spaced_operator_suggestion(&v, pos, op);
                    let warning = text::concat5(
                        "Warning: missing spaces around `",
                        op,
                        "`; did you mean `",
                        suggestion.as_str(),
                        "`?",
                    );
                    let ghost shown = text::texts(warnings@);
                    let ghost w = warning@;
                    push_line(&mut warnings, warning);
                    assert(shown.push(w) + rest =~= shown + (seq![w] + rest));
                }
                pos = after;
                continue;
            }
        }
        pos = pos + 1;
    }
    assert(text::texts(warnings@) + warnings_from(s, pos as int, quoted) =~= text::texts(warnings@));
    warnings
}

// ── Answers ──

/// Whether a command gets its card before it is answered: none does.
pub fn precreates_card(_input: &str, _mode: Mode, _warnings: &Vec<String>) -> (r: bool)
    ensures
        !r,
{
    false
}

/// An answer below the warnings.
pub open spec fn decorated(warnings: Seq<Text>, body: Text) -> Text {
    if warnings.len() == 0 {
        body
    } else if body.len() == 0 {
        text::join(warnings, "\n"@)
    } else {
        text::join(warnings, "\n"@) + "\n\n"@ + body
    }
}

pub fn decorate_output(warnings: &Vec<String>, body: String) -> (r: String)
    ensures
        r@ == decorated(text::texts(warnings@), body@),
{
    if warnings.len() == 0 {
        return body;
    }
    let head = text::join_strings(warnings, "\n");
    if body.as_str().unicode_len() == 0 {
        return head;
    }
    text::concat3(head.as_str(), "\n\n", body.as_str())
}

/// What follows a prefix, trimmed, if there is anything.
pub open spec fn argument_of(s: Text, prefix: Text) -> Option<Text> {
    match text::strip_prefix(s, prefix) {
        Some(rest) => if text::trim(rest).len() > 0 {
            Some(text::trim(rest))
        } else {
            None
        },
        None => None,
    }
}

fn find_argument(v: &Vec<char>, prefix: &str) -> (r: Option<String>)
    ensures
        text::opt_text(r) == argument_of(v@, prefix@),
{
    match text::chars_strip_prefix(v, prefix) {
        Some(rest) => {
            let t = text::chars_trim(&rest);
            if t.len() > 0 {
                Some(text::all_string(&t))
            } else {
                None
            }
        },
        None => None,
    }
}

/// What is shown when a command was accepted.
pub open spec fn ack_text(input: Text) -> Text {
    let t = text::trim(input);
    if argument_of(t, ":kill"@) is Some {
        "kill requested for "@ + argument_of(t, ":kill"@)->0
    } else if argument_of(t, ":cancel"@) is Some {
        "cancel requested for "@ + argument_of(t, ":cancel"@)->0
    } else if argument_of(t, ":pause"@) is Some {
        "paused "@ + argument_of(t, ":pause"@)->0
    } else if argument_of(t, ":resume"@) is Some {
        "resumed "@ + argument_of(t, ":resume"@)->0
    } else if argument_of(t, ":send"@) is Some {
        "sent "@ + argument_of(t, ":send"@)->0
    } else {
        "ok"@
    }
}

pub fn format_ack_message(input: &str) -> (r: String)
    ensures
        r@ == ack_text(input@),
{
    let t = text::str_trim(input);
    if let Some(rest) = find_argument(&t, ":kill") {
        return text::concat2("kill requested for ", rest.as_str());
    }
    if let Some(rest) = find_argument(&t, ":cancel") {
        return text::concat2("cancel requested for ", rest.as_str());
    }
    if let Some(rest) = find_argument(&t, ":pause") {
        return text::concat2("paused ", rest.as_str());
    }
    if let Some(rest) = find_argument(&t, ":resume") {
        return text::concat2("resumed ", rest.as_str());
    }
    if let Some(rest) = find_argument(&t, ":send") {
        return text::concat2("sent ", rest.as_str());
    }
    "ok".to_owned()
}

/// A command without the word that only says what it is.
pub open spec fn command_label(input: Text) -> Text {
    let t = text::trim(input);
    if argument_of(t, ":run"@) is Some {
        argument_of(t, ":run"@)->0
    } else if argument_of(t, ":cron"@) is Some {
        argument_of(t, ":cron"@)->0
    } else {
        t
    }
}

pub fn normalize_command_label(input: &str) -> (r: String)
    ensures
        r@ == command_label(input@),
{
    let t = text::str_trim(input);
    if let Some(rest) = find_argument(&t, ":run") {
        return rest;
    }
    if let Some(rest) = find_argument(&t, ":cron") {
        return rest;
    }
    text::all_string(&t)
}

} // verus!
