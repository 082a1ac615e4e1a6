//! What stands on the screen: labels that do what they say, and texts that tell things
//! apart.

use vstd::prelude::*;

use crate::text;
use crate::job::{terminal_status, JobStatus};
use crate::laws::texts::{print, printed};
use crate::mode::Mode;
use crate::storage::rows::flag;
use crate::text::Text;
use crate::tui::clipboard::{first_from, CopyTarget};
use crate::tui::footer::{footer, main_footer, FooterContext};
use crate::tui::geometry::Rect;
use crate::tui::job_picker::{none_text, submit_text, title_text, JobPickerState};
use crate::tui::main_view::{bracketed, card_title, CardModel, CardStatus};
use crate::tui::message::{ActionModel, FocusArea};
use crate::tui::record_format::card_status_text;
use crate::tui::script_summary::{signed_decimal, summary, truncated};
use crate::tui::status_bar::{action_in, label_at, labels, labels_width, running_text, two_digits};

verus! {

// ── Modes and states ──

/// The two modes lead to each other and have names of their own.
pub proof fn lemma_modes_told_apart()
    ensures
        Mode::Job.next_mode() is Cron,
        Mode::Cron.next_mode() is Job,
        Mode::Job.label_text() == "JOB"@,
        Mode::Cron.label_text() == "CRON"@,
        Mode::Job.label_text() != Mode::Cron.label_text(),
        Mode::Job.indicator_text() != Mode::Cron.indicator_text(),
        title_text(Mode::Job) != title_text(Mode::Cron),
        none_text(Mode::Job) != none_text(Mode::Cron),
        submit_text(Mode::Job) == "kill"@,
        submit_text(Mode::Cron) == "remove"@,
{
    reveal_strlit("JOB");
    reveal_strlit("CRON");
    reveal_strlit("JOB ⚡");
    reveal_strlit("CRON ⏰");
    reveal_strlit("Running Jobs");
    reveal_strlit("Crons");
    reveal_strlit("No running jobs.");
    reveal_strlit("No crons.");
    assert("JOB"@.len() == 3 && "CRON"@.len() == 4);
    assert("JOB ⚡"@.len() == 5 && "CRON ⏰"@.len() == 6);
    assert("Running Jobs"@.len() == 12 && "Crons"@.len() == 5);
    assert("No running jobs."@.len() == 16 && "No crons."@.len() == 9);
}

/// A job has come to its end just when it neither waits nor runs.
pub proof fn lemma_ended_jobs(s: JobStatus)
    ensures
        terminal_status(s) <==> !(s is Pending) && !(s is Running),
{
}

/// The four states of a card have four names.
pub proof fn lemma_card_states_told_apart(a: CardStatus, b: CardStatus)
    ensures
        a != b ==> card_status_text(a) != card_status_text(b),
        card_status_text(CardStatus::Success) == "success"@,
        card_status_text(CardStatus::Error) == "error"@,
        card_status_text(CardStatus::Pending) == "pending"@,
        card_status_text(CardStatus::Streaming) == "streaming"@,
{
    reveal_strlit("success");
    reveal_strlit("error");
    reveal_strlit("pending");
    reveal_strlit("streaming");
    assert(print("success"@) == printed(7, 's', 'u'));
    assert(print("error"@) == printed(5, 'e', 'r'));
    assert(print("pending"@) == printed(7, 'p', 'e'));
    assert(print("streaming"@) == printed(9, 's', 't'));
}

/// The title of a card holds its mode, its command and its labels.
pub proof fn lemma_titles(card: CardModel, l: Text)
    ensures
        card.label is None && card.chain_label is None ==> card_title(card) == seq![' ']
            + card.mode.label_text() + seq![' ', '>', ' '] + card.input + seq![' '],
        bracketed(Some(l)) == seq![' ', '['] + l + seq![']'],
        bracketed(None).len() == 0,
{
    reveal_strlit(" ");
    reveal_strlit(" > ");
    reveal_strlit(" [");
    reveal_strlit("]");
    assert(" "@ =~= seq![' '] && " > "@ =~= seq![' ', '>', ' '] && " ["@ =~= seq![' ', '[']
        && "]"@ =~= seq![']']);
    if card.label is None && card.chain_label is None {
        assert(card_title(card) =~= seq![' '] + card.mode.label_text() + seq![' ', '>', ' ']
            + card.input + seq![' ']);
    }
}

// ── The header ──

/// Where label `i` starts if the first starts at `at`, with a blank between two.
pub open spec fn label_from(labels: Seq<Text>, at: int, i: int) -> int
    decreases i,
{
    if i <= 0 {
        at
    } else {
        label_from(labels, at, i - 1) + labels[i - 1].len() + 1
    }
}

proof fn lemma_label_from_rest(labels: Seq<Text>, at: int, i: int)
    requires
        1 <= i <= labels.len(),
    ensures
        label_from(labels, at, i) == label_from(
            labels.drop_first(),
            at + labels[0].len() + 1,
            i - 1,
        ),
    decreases i,
{
    reveal_with_fuel(label_from, 2);
    if i > 1 {
        lemma_label_from_rest(labels, at, i - 1);
        assert(labels.drop_first()[i - 2] == labels[i - 1]);
    }
}

proof fn lemma_label_hit(labels: Seq<Text>, at: int, i: int, column: int)
    requires
        0 <= i < labels.len(),
        label_from(labels, at, i) <= column < label_from(labels, at, i) + labels[i].len(),
    ensures
        label_at(labels, at, column) == Some(i),
        column >= at,
    decreases labels.len(),
{
    if i > 0 {
        let rest = labels.drop_first();
        let next = at + labels[0].len() + 1;
        lemma_label_from_rest(labels, at, i);
        assert(rest[i - 1] == labels[i]);
        lemma_label_hit(rest, next, i - 1, column);
    }
}

proof fn lemma_width(labels: Seq<Text>, at: int)
    requires
        labels.len() > 0,
    ensures
        label_from(labels, at, labels.len() as int) == at + labels_width(labels) + 1,
    decreases labels.len(),
{
    lemma_label_from_rest(labels, at, labels.len() as int);
    if labels.len() == 1 {
        reveal_with_fuel(label_from, 2);
    } else {
        lemma_width(labels.drop_first(), at + labels[0].len() + 1);
    }
}

/// The labels stand at the right end of the header, one beside the other, and a click on one
/// of them does what it stands for.
pub proof fn lemma_labels_do_what_they_say(area: Rect, i: int, column: u16)
    requires
        0 <= i < 7,
        area.width >= labels_width(labels()),
        column < area.x + area.width,
        ({
            let from = label_from(labels(), area.x + area.width - labels_width(labels()), i);
            from <= column < from + labels()[i].len()
        }),
    ensures
        labels()[i] == "[clear]"@ ==> action_in(area, column) == Some(ActionModel::ClearDisplay),
        labels()[i] == "[sidebar ^B]"@ ==> action_in(area, column) == Some(
            ActionModel::ToggleSidebar,
        ),
        labels()[i] == "[copy ^Y]"@ ==> action_in(area, column) == Some(ActionModel::CopyFocus),
        labels()[i] == "[targets ^T]"@ ==> action_in(area, column) == Some(
            ActionModel::OpenTargetSettings,
        ),
        labels()[i] == "[jobs ^C]"@ ==> action_in(area, column) == Some(ActionModel::OpenJobPicker),
        labels()[i] == "[mouse]"@ ==> action_in(area, column) == Some(ActionModel::ToggleMouseMode),
        labels()[i] == "[quit ^D]"@ ==> action_in(area, column) == Some(ActionModel::Quit),
        labels().len() == 7,
        label_from(labels(), area.x + area.width - labels_width(labels()), 7) == area.x + area.width
            + 1,
{
    let at = area.x + area.width - labels_width(labels());
    lemma_width(labels(), at);
    lemma_label_hit(labels(), at, i, column as int);
    lemma_label_prints();
    assert(labels()[0] == "[clear]"@ && labels()[1] == "[sidebar ^B]"@ && labels()[2]
        == "[copy ^Y]"@ && labels()[3] == "[targets ^T]"@ && labels()[4] == "[jobs ^C]"@
        && labels()[5] == "[mouse]"@ && labels()[6] == "[quit ^D]"@);
    assert(i == 0 || i == 1 || i == 2 || i == 3 || i == 4 || i == 5 || i == 6);
}

proof fn lemma_label_prints()
    ensures
        print("[clear]"@) == printed(7, '[', 'c'),
        print("[sidebar ^B]"@) == printed(12, '[', 's'),
        print("[copy ^Y]"@) == printed(9, '[', 'c'),
        print("[targets ^T]"@) == printed(12, '[', 't'),
        print("[jobs ^C]"@) == printed(9, '[', 'j'),
        print("[mouse]"@) == printed(7, '[', 'm'),
        print("[quit ^D]"@) == printed(9, '[', 'q'),
{
    reveal_strlit("[clear]");
    reveal_strlit("[sidebar ^B]");
    reveal_strlit("[copy ^Y]");
    reveal_strlit("[targets ^T]");
    reveal_strlit("[jobs ^C]");
    reveal_strlit("[mouse]");
    reveal_strlit("[quit ^D]");
}

/// Two digits are two digits, and they are those of the number.
pub proof fn lemma_two_digits(n: nat)
    requires
        n < 100,
    ensures
        two_digits(n) == seq![text::digit_char(n / 10), text::digit_char(n % 10)],
{
    reveal_strlit("0");
    assert("0"@ =~= seq!['0']);
    reveal_with_fuel(text::decimal, 3);
    assert(text::digit_char(0) == '0');
    assert(two_digits(n) =~= seq![text::digit_char(n / 10), text::digit_char(n % 10)]);
}

/// The number of jobs that run is told, and that none runs.
pub proof fn lemma_running_told(n: u32)
    ensures
        n > 0 ==> running_text(n) == "("@ + text::decimal(n as nat) + " running)"@,
        n == 0 ==> running_text(n) == "(-)"@,
{
}

// ── The footer ──

/// The first two characters of a text.
pub open spec fn begins(t: Text, a: char, b: char) -> bool {
    t.len() >= 2 && t[0] == a && t[1] == b
}

/// The footer begins with what it speaks of, so each context has its own.
pub proof fn lemma_footers_told_apart(mode: Mode, shown: bool)
    ensures
        begins(main_footer(FocusArea::Input, Mode::Job, shown), 'J', 'O'),
        begins(main_footer(FocusArea::Input, Mode::Cron, shown), 'C', 'R'),
        begins(main_footer(FocusArea::Sidebar, mode, shown), 'S', 'i'),
        begins(main_footer(FocusArea::MainView, mode, true), 'D', 'i'),
        begins(main_footer(FocusArea::MainView, mode, false), 'C', 'o'),
        begins(footer(FooterContext::JobPicker { mode: Mode::Job }), 'K', 'i'),
        begins(footer(FooterContext::JobPicker { mode: Mode::Cron }), 'R', 'e'),
{
    reveal_strlit(
        "JOB: Enter submit  •  Shift+Enter newline  •  Tab complete  •  Shift+Tab mode",
    );
    reveal_strlit(
        "CRON: Enter schedule + command  •  Shift+Enter newline  •  Tab complete  •  Shift+Tab mode",
    );
    reveal_strlit(
        "Sidebar: Click row to open  •  Del/Backspace kill or remove  •  Up/Down move  •  Enter open  •  Shift+Tab mode  •  Ctrl+B toggle",
    );
    reveal_strlit(
        "Display: Click tab to switch  •  × closes tab  •  Ctrl+Y copy active tab  •  Shift+Tab mode  •  Ctrl+L clears when idle",
    );
    reveal_strlit(
        "Command log: Click cards to inspect  •  Ctrl+Y copy latest record  •  Shift+Tab mode  •  :out/:err snapshot  •  :tail follows live output",
    );
    reveal_strlit("Kill picker: Enter kill  •  Esc close");
    reveal_strlit("Remove picker: Enter remove  •  Esc close");
}

// ── The picker ──

/// The picker opens on its last entry, and moves from there by as many as asked for.
pub proof fn lemma_picker_selection(count: nat, i: usize, delta: int)
    requires
        0 < count <= usize::MAX,
        i < count,
    ensures
        JobPickerState::opened(count).selected == Some((count - 1) as usize),
        JobPickerState::opened(0).selected is None,
        0 <= i + delta < count ==> (JobPickerState { selected: Some(i) }).moved(delta, count).selected
            == Some((i + delta) as usize),
        i + delta < 0 ==> (JobPickerState { selected: Some(i) }).moved(delta, count).selected == Some(
            0usize,
        ),
        i + delta >= count ==> (JobPickerState { selected: Some(i) }).moved(delta, count).selected
            == Some((count - 1) as usize),
{
}

// ── Summaries ──

/// A text that is not too long stays as it is; of any other the first characters stay, and
/// three dots say so.
pub proof fn lemma_cut_texts(t: Text, max: nat)
    ensures
        t.len() <= max ==> truncated(t, max) == t,
        t.len() > max ==> truncated(t, max) == t.take(max as int) + seq!['.', '.', '.'],
        summary(t).len() <= 99,
{
    reveal_strlit("...");
    assert("..."@ =~= seq!['.', '.', '.']);
}

/// A number below zero has a sign in front of it.
pub proof fn lemma_signed_numbers(n: nat)
    ensures
        signed_decimal(n as int) == text::decimal(n),
        n > 0 ==> signed_decimal(-(n as int)) == seq!['-'] + text::decimal(n),
{
    reveal_strlit("-");
    assert("-"@ =~= seq!['-']);
}

// ── What is copied first ──

/// The first target that there is, is copied.
pub proof fn lemma_first_target(targets: Seq<Option<CopyTarget>>, i: int, k: int)
    requires
        0 <= i <= k < targets.len(),
        targets[k] is Some,
        forall|j: int| i <= j < k ==> (#[trigger] targets[j]) is None,
    ensures
        first_from(targets, i) == Some((targets[k]->0)@),
    decreases k - i,
{
    if i < k {
        assert(targets[i] is None);
        lemma_first_target(targets, i + 1, k);
    }
}

/// A flag is read back from its number.
pub proof fn lemma_flags(b: bool)
    ensures
        flag(b) != 0 <==> b,
{
}

} // verus!
