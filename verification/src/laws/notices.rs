//! What is shown of a command's output, what a service runs, and what stands below.

use vstd::prelude::*;

use crate::json::{json_char, json_chars, json_string};
use crate::laws::texts::lemma_trimmed;
use crate::resource::cli::{output_suffix, text_suffix};
use crate::service::{file_content, Platform};
use crate::text;
use crate::text::{is_white, Text};
use crate::tui::app::state::AppModel;
use crate::tui::footer::FooterContext;

verus! {

// ── Output ──

/// Every character is whitespace.
pub open spec fn all_white(s: Text) -> bool {
    forall|i: int| 0 <= i < s.len() ==> is_white(#[trigger] s[i])
}

/// Something is written, from the first character to the last.
pub open spec fn written(s: Text) -> bool {
    s.len() > 0 && !is_white(s[0]) && !is_white(s.last())
}

proof fn lemma_nothing_shown(w: Text)
    requires
        all_white(w),
    ensures
        text::trim(w).len() == 0,
    decreases w.len(),
{
    if w.len() > 0 {
        assert(is_white(w[0]));
        lemma_nothing_shown(w.drop_first());
    }
}

/// Output is shown after a line break and its label, without the whitespace round it; of
/// output that is all whitespace nothing is shown.
pub proof fn lemma_output_shown(label: Text, front: Text, shown: Text, back: Text)
    requires
        all_white(front),
        all_white(back),
        written(shown),
    ensures
        text_suffix(label, front + shown + back) == seq!['\n'] + label + seq![':', ' '] + shown,
        text_suffix(label, front).len() == 0,
{
    reveal_strlit("\n");
    reveal_strlit(": ");
    lemma_trimmed(front, shown, back);
    assert("\n"@ =~= seq!['\n']);
    assert(": "@ =~= seq![':', ' ']);
    lemma_nothing_shown(front);
}

/// Bytes are shown as their text is.
pub proof fn lemma_bytes_shown_as_text(label: Text, bytes: Seq<u8>)
    ensures
        output_suffix(label, bytes) == text_suffix(label, text::lossy_text(bytes)),
{
}

// ── The service ──

/// The characters stand somewhere in the text.
pub open spec fn stands_in(part: Text, whole: Text) -> bool {
    exists|at: int| text::has_at(whole, at, part)
}

/// On Linux the service runs the program with `start --fg`, and again when it failed.
pub proof fn lemma_service_of_linux(exe: Text, log: Text)
    ensures
        file_content(Platform::Linux, exe, log) matches Ok(s) && stands_in(
            "\nExecStart="@ + exe + " start --fg\nRestart=on-failure\n"@,
            s,
        ),
{
    let a = "[Unit]\nDescription=cued — background daemon for cue-shell\nAfter=default.target\n\n[Service]\nExecStart="@;
    let b = " start --fg\nRestart=on-failure\nRestartSec=3\n\n[Install]\nWantedBy=default.target\n"@;
    reveal_strlit(
        "[Unit]\nDescription=cued — background daemon for cue-shell\nAfter=default.target\n\n[Service]\nExecStart=",
    );
    reveal_strlit(
        " start --fg\nRestart=on-failure\nRestartSec=3\n\n[Install]\nWantedBy=default.target\n",
    );
    reveal_strlit("\nExecStart=");
    reveal_strlit(" start --fg\nRestart=on-failure\n");
    let x = "\nExecStart="@;
    let y = " start --fg\nRestart=on-failure\n"@;
    let s = file_content(Platform::Linux, exe, log)->Ok_0;
    let at = a.len() - x.len();
    assert(a.skip(at) =~= x);
    assert(b.take(y.len() as int) =~= y);
    assert(s == a + exe + b);
    let part = x + exe + y;
    let here = s.subrange(at, at + part.len());
    assert forall|i: int| 0 <= i < part.len() implies here[i] == part[i] by {
        if i < x.len() {
            assert(a.skip(at)[i] == a[at + i]);
        } else if i >= x.len() + exe.len() {
            let k = i - x.len() - exe.len();
            assert(b.take(y.len() as int)[k] == b[k]);
        }
    }
    assert(here =~= part);
    assert(text::has_at(s, at, part));
}

/// Two programs have two service files, and so have two logs on a Mac; elsewhere than on
/// a Mac and on Linux there is no service.
pub proof fn lemma_service_files_differ(exe: Text, other: Text, log: Text, other_log: Text)
    ensures
        file_content(Platform::Linux, exe, log) == file_content(Platform::Linux, other, log)
            ==> exe == other,
        file_content(Platform::MacOs, exe, log) == file_content(Platform::MacOs, other, log)
            ==> exe == other,
        file_content(Platform::MacOs, exe, log) == file_content(Platform::MacOs, exe, other_log)
            ==> log == other_log,
        file_content(Platform::Other, exe, log) is Err,
{
    lemma_framed_differ(exe, other, log, other_log);
}

proof fn lemma_framed_differ(exe: Text, other: Text, log: Text, other_log: Text)
    ensures
        forall|a: Text, b: Text| #[trigger]
            (a + exe + b) == a + other + b ==> exe == other,
        forall|a: Text, b: Text, c: Text| #[trigger]
            (a + exe + b + log + c) == a + other + b + log + c ==> exe == other,
        forall|a: Text, b: Text, c: Text| #[trigger]
            (a + exe + b + log + c) == a + exe + b + other_log + c ==> log == other_log,
{
    assert forall|a: Text, b: Text| #[trigger] (a + exe + b) == a + other + b implies exe
        == other by {
        lemma_middle(a, exe, other, b);
    }
    assert forall|a: Text, b: Text, c: Text| #[trigger]
        (a + exe + b + log + c) == a + other + b + log + c implies exe == other by {
        assert(a + exe + b + log + c =~= a + exe + (b + log + c));
        assert(a + other + b + log + c =~= a + other + (b + log + c));
        lemma_middle(a, exe, other, b + log + c);
    }
    assert forall|a: Text, b: Text, c: Text| #[trigger]
        (a + exe + b + log + c) == a + exe + b + other_log + c implies log == other_log by {
        lemma_middle(a + exe + b, log, other_log, c);
    }
}

proof fn lemma_middle(a: Text, m: Text, n: Text, b: Text)
    requires
        a + m + b == a + n + b,
    ensures
        m == n,
{
    assert((a + m + b).len() == a.len() + m.len() + b.len());
    assert((a + n + b).len() == a.len() + n.len() + b.len());
    assert forall|i: int| 0 <= i < m.len() implies m[i] == n[i] by {
        assert((a + m + b)[a.len() + i] == m[i]);
        assert((a + n + b)[a.len() + i] == n[i]);
    }
    assert(m =~= n);
}

// ── JSON ──

/// Neither a quote, a backslash nor a control character.
pub open spec fn plain_char(c: char) -> bool {
    c != '"' && c != '\\' && c as int >= 32
}

/// Plain text stands in JSON as it is, in quotes.
pub proof fn lemma_plain_json(s: Text)
    requires
        forall|i: int| 0 <= i < s.len() ==> plain_char(#[trigger] s[i]),
    ensures
        json_chars(s) == s,
        json_string(s) == seq!['"'] + s + seq!['"'],
    decreases s.len(),
{
    reveal_strlit("\"");
    assert("\""@ =~= seq!['"']);
    if s.len() > 0 {
        assert(forall|i: int|
            0 <= i < s.drop_last().len() ==> plain_char(#[trigger] s.drop_last()[i]));
        lemma_plain_json(s.drop_last());
        assert(plain_char(s[s.len() - 1]));
        assert(json_char(s.last()) =~= seq![s.last()]);
        assert(s.drop_last() + seq![s.last()] =~= s);
    } else {
        assert(s =~= Seq::empty());
    }
}

/// What is no plain character is written with a backslash in front.
pub proof fn lemma_escaped_json(c: char)
    requires
        !plain_char(c),
    ensures
        json_char(c).len() >= 2,
        json_char(c)[0] == '\\',
{
    reveal_strlit("\\\"");
    reveal_strlit("\\\\");
    reveal_strlit("\\b");
    reveal_strlit("\\t");
    reveal_strlit("\\n");
    reveal_strlit("\\f");
    reveal_strlit("\\r");
    reveal_strlit("\\u00");
}

// ── The footer ──

/// The footer speaks of what takes the keys: the job picker before the target settings,
/// and these before the panes.
pub proof fn lemma_footer_of_what_is_open(s: AppModel)
    ensures
        s.footer_context() is JobPicker <==> s.job_picker is Some,
        s.footer_context() is TargetSettings <==> s.job_picker is None && (s.target_settings is Some
            || s.target_settings_error is Some),
        match s.footer_context() {
            FooterContext::JobPicker { mode } => mode == s.mode,
            FooterContext::TargetSettings { can_save, has_pending_reconnect } => (can_save
                <==> s.target_settings is Some) && (has_pending_reconnect ==> can_save),
            FooterContext::Main { focus, mode, display_has_target } => focus == s.focus && mode
                == s.mode && (display_has_target <==> s.display.active is Some),
        },
        s.target_settings matches Some(t) ==> (s.footer_context() matches
            FooterContext::TargetSettings { has_pending_reconnect, .. } ==> (has_pending_reconnect
            <==> t.pending is Some)),
{
}

} // verus!
