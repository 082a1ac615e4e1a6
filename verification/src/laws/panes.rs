//! The panes: tabs of the display, cards of the log and entries of the sidebar.

use vstd::prelude::*;

use crate::text::Text;
use crate::tui::display::{
    shown_stream, stream_label, tab_from, DisplayStream, PaneModel, TabModel, TargetModel,
};
use crate::tui::ipc::Stream;
use crate::tui::keys::{KeyEvent, MouseEventKind};
use crate::tui::main_view::{
    card_height, line_count, new_card, CardModel, CardStatus, MainViewModel,
};
use crate::tui::sidebar::{clamped, SidebarItemModel, SidebarModel};

verus! {

// ── Tabs ──

proof fn lemma_tab_from(tabs: Seq<TabModel>, target: TargetModel, i: int)
    requires
        0 <= i <= tabs.len(),
    ensures
        tab_from(tabs, target, i) matches Some(k) ==> i <= k < tabs.len() && tabs[k].target
            == target && forall|j: int| i <= j < k ==> (#[trigger] tabs[j]).target != target,
        tab_from(tabs, target, i) is None ==> forall|j: int|
            i <= j < tabs.len() ==> (#[trigger] tabs[j]).target != target,
    decreases tabs.len() - i,
{
    if i < tabs.len() && tabs[i].target != target {
        lemma_tab_from(tabs, target, i + 1);
    }
}

/// Showing output shows it: the tab that shows it is the one of that job and stream, with
/// just this content, and no other tab changes.
pub proof fn lemma_output_shown(
    p: PaneModel,
    id: Text,
    stream: DisplayStream,
    data: Text,
    truncated: bool,
    follow: bool,
)
    requires
        p.tabs.len() < usize::MAX,
    ensures
        ({
            let q = p.with_output(id, stream, data, truncated, follow);
            let target = TargetModel::Output { id, stream };
            &&& q.active_tab() matches Some(tab) && {
                &&& tab.target == target
                &&& tab.follow == follow
                &&& !truncated ==> tab.content == data
                &&& truncated ==> tab.content == data + "\n--- (truncated) ---"@
            }
            &&& forall|j: int|
                0 <= j < p.tabs.len() && (#[trigger] p.tabs[j]).target != target ==> q.tabs[j]
                    == p.tabs[j]
            &&& (exists|j: int| 0 <= j < p.tabs.len() && (#[trigger] p.tabs[j]).target == target)
                ==> q.tabs.len() == p.tabs.len()
            &&& !(exists|j: int|
                0 <= j < p.tabs.len() && (#[trigger] p.tabs[j]).target == target) ==> q.tabs.len()
                == p.tabs.len() + 1
        }),
{
    let target = TargetModel::Output { id, stream };
    lemma_tab_from(p.tabs, target, 0);
}

/// New output is added to the tabs that follow this stream of this job, at the end, and to
/// no others; which tab is shown stays.
pub proof fn lemma_output_followed(p: PaneModel, id: Text, stream: Stream, data: Text, i: int)
    requires
        0 <= i < p.tabs.len(),
    ensures
        ({
            let q = p.with_appended(id, stream, data);
            let wanted = TargetModel::Output {
                id,
                stream: match stream {
                    Stream::Stdout => DisplayStream::Stdout,
                    Stream::Stderr => DisplayStream::Stderr,
                },
            };
            &&& q.active == p.active
            &&& q.tabs.len() == p.tabs.len()
            &&& q.tabs[i].target == p.tabs[i].target && q.tabs[i].follow == p.tabs[i].follow
            &&& p.tabs[i].follow && p.tabs[i].target == wanted ==> q.tabs[i].content
                == p.tabs[i].content + data
            &&& !(p.tabs[i].follow && p.tabs[i].target == wanted) ==> q.tabs[i] == p.tabs[i]
        }),
{
}

/// A job that is no longer followed is followed in no tab, whichever stream it shows; what
/// is shown stays.
pub proof fn lemma_follow_ended(p: PaneModel, id: Text, i: int)
    requires
        0 <= i < p.tabs.len(),
    ensures
        ({
            let q = p.without_follow(id);
            let of_job = p.tabs[i].target matches TargetModel::Output { id: shown, .. } && shown
                == id;
            &&& q.active == p.active && q.tabs.len() == p.tabs.len()
            &&& q.tabs[i].content == p.tabs[i].content && q.tabs[i].target == p.tabs[i].target
            &&& q.tabs[i].follow <==> p.tabs[i].follow && !of_job
        }),
{
}

/// Closing a tab takes away that tab alone; the tab that comes into its place is shown, or
/// the one in front of it.
pub proof fn lemma_tab_closed(p: PaneModel, index: usize, j: int)
    requires
        p.wf(),
        p.tabs.len() <= usize::MAX,
    ensures
        ({
            let q = p.closed(index);
            &&& index >= p.tabs.len() ==> q == p
            &&& index < p.tabs.len() ==> {
                &&& q.tabs.len() == p.tabs.len() - 1
                &&& 0 <= j < index ==> q.tabs[j] == p.tabs[j]
                &&& index <= j < q.tabs.len() ==> q.tabs[j] == p.tabs[j + 1]
                &&& index + 1 < p.tabs.len() ==> q.active_tab() == Some(p.tabs[index + 1])
                &&& index + 1 == p.tabs.len() && index > 0 ==> q.active_tab() == Some(
                    p.tabs[index - 1],
                )
                &&& p.tabs.len() == 1 ==> q.active_tab() is None
            }
        }),
{
}

/// Choosing a tab shows it and changes nothing else.
pub proof fn lemma_tab_chosen(p: PaneModel, index: usize)
    ensures
        index < p.tabs.len() ==> p.activated(index).active_tab() == Some(p.tabs[index as int]),
        p.activated(index).tabs == p.tabs,
        index >= p.tabs.len() ==> p.activated(index) == p,
{
}

/// What is copied is what the shown tab holds, under its name.
pub proof fn lemma_tab_copied(p: PaneModel)
    ensures
        p.copy_target() matches Some((label, content)) ==> (p.active_tab() matches Some(tab)
            && content == tab.content && content == p.content() && match tab.target {
            TargetModel::Output { id, stream } => label == (if stream is Stdout {
                "stdout"@
            } else {
                "stderr"@
            }) + " "@ + id,
            TargetModel::Preview { key, title } => label == title,
        }),
        p.copy_target() is None <==> p.active_tab() is None,
{
}

/// The two streams are told apart.
pub proof fn lemma_streams_told_apart()
    ensures
        stream_label(DisplayStream::Stdout) != stream_label(DisplayStream::Stderr),
        shown_stream(Stream::Stdout) is Stdout,
        shown_stream(Stream::Stderr) is Stderr,
{
    reveal_strlit("stdout");
    reveal_strlit("stderr");
    assert("stdout"@[3] == 'o' && "stderr"@[3] == 'e');
}

// ── Cards ──

/// A new card is the last one, waits for its answer and is shown; the others stay.
pub proof fn lemma_card_added(v: MainViewModel, input: Text, mode: crate::mode::Mode, i: int)
    ensures
        ({
            let w = v.push(new_card(input, mode));
            let card = w.cards.last();
            &&& w.cards.len() == v.cards.len() + 1
            &&& w.scroll_offset == 0
            &&& w.mode == v.mode
            &&& card.input == input && card.mode == mode && card.output.len() == 0
            &&& card.status is Pending && card.label is None && card.chain_label is None
            &&& 0 <= i < v.cards.len() ==> w.cards[i] == v.cards[i]
        }),
{
}

/// A change of one card changes just what it names, of just that card.
pub proof fn lemma_card_changed(v: MainViewModel, i: int, t: Text, status: CardStatus, j: int)
    requires
        0 <= i < v.cards.len(),
        0 <= j < v.cards.len(),
    ensures
        j != i ==> v.with_output(i, t).cards[j] == v.cards[j] && v.with_status(i, status).cards[j]
            == v.cards[j] && v.with_label(i, t).cards[j] == v.cards[j] && v.with_chain_label(
            i,
            t,
        ).cards[j] == v.cards[j],
        v.with_output(i, t).cards[i] == (CardModel { output: t, ..v.cards[i] }),
        v.with_status(i, status).cards[i] == (CardModel { status, ..v.cards[i] }),
        v.with_label(i, t).cards[i] == (CardModel { label: Some(t), ..v.cards[i] }),
        v.with_chain_label(i, t).cards[i] == (CardModel { chain_label: Some(t), ..v.cards[i] }),
        v.with_output(i, t).scroll_offset == v.scroll_offset,
{
}

/// Streamed text is added to the newest card, which streams from then on.
pub proof fn lemma_card_streams(v: MainViewModel, data: Text, j: int)
    ensures
        ({
            let w = v.with_appended(data);
            let n = v.cards.len();
            &&& n == 0 ==> w == v
            &&& n > 0 ==> w.cards[n - 1] == (CardModel {
                output: v.cards[n - 1].output + data,
                status: CardStatus::Streaming,
                ..v.cards[n - 1]
            })
            &&& 0 <= j < n - 1 ==> w.cards[j] == v.cards[j]
        }),
{
}

/// Scrolling goes up and down by the same number of cards, and never past the first or the
/// last one.
pub proof fn lemma_scrolled(v: MainViewModel, key: KeyEvent)
    requires
        v.cards.len() <= usize::MAX,
        v.scroll_offset < v.cards.len(),
        key.kind is Press,
    ensures
        ({
            let up = v.after_scroll(MouseEventKind::ScrollUp);
            let down = v.after_scroll(MouseEventKind::ScrollDown);
            let n = v.cards.len() as int;
            &&& up.scroll_offset == if v.scroll_offset + 3 < n {
                v.scroll_offset + 3
            } else {
                n - 1
            }
            &&& down.scroll_offset == if v.scroll_offset >= 3 {
                v.scroll_offset - 3
            } else {
                0
            }
            &&& v.scroll_offset + 3 < n ==> up.after_scroll(MouseEventKind::ScrollDown) == v
            &&& key.code is PageUp ==> v.after_key(key).scroll_offset == if v.scroll_offset + 5 < n {
                v.scroll_offset + 5
            } else {
                n - 1
            }
            &&& key.code is PageDown ==> v.after_key(key).scroll_offset == if v.scroll_offset >= 5 {
                v.scroll_offset - 5
            } else {
                0
            }
            &&& up.cards == v.cards && down.cards == v.cards && v.after_key(key).cards == v.cards
            &&& !(key.code is PageUp || key.code is PageDown) ==> v.after_key(key) == v
        }),
{
}

/// A line feed ends a line, and a line without one at the end counts too.
pub proof fn lemma_lines_counted(s: Text, c: char)
    ensures
        line_count(Seq::empty()) == 0,
        c != '\n' && (s.len() == 0 || s.last() == '\n') ==> line_count(s.push(c)) == line_count(s)
            + 1,
        c != '\n' && s.len() > 0 && s.last() != '\n' ==> line_count(s.push(c)) == line_count(s),
        c == '\n' && s.len() > 0 && s.last() != '\n' ==> line_count(s.push(c)) == line_count(s),
        c == '\n' && (s.len() == 0 || s.last() == '\n') ==> line_count(s.push(c)) == line_count(s)
            + 1,
{
    assert(s.push(c).drop_last() =~= s);
}

/// A card has a row for each line, one at least, and two for its border.
pub proof fn lemma_card_rows(card: CardModel)
    requires
        line_count(card.output) < 65536,
    ensures
        line_count(card.output) == 0 ==> card_height(card) == 3,
        line_count(card.output) > 0 ==> card_height(card) == line_count(card.output) + 2,
{
}

// ── The sidebar ──

/// The selection moves by as many entries as asked for, and stays among them.
pub proof fn lemma_selection_moved(current: int, delta: int, len: int)
    requires
        0 <= current < len,
    ensures
        0 <= clamped(current, delta, len) < len,
        0 <= current + delta < len ==> clamped(current, delta, len) == current + delta,
        current + delta < 0 ==> clamped(current, delta, len) == 0,
        current + delta >= len ==> clamped(current, delta, len) == len - 1,
{
}

/// Up and down select the entry above and below, from an end if none is selected.
pub proof fn lemma_selection_keys(s: SidebarModel, up: KeyEvent, down: KeyEvent)
    requires
        up.code is Up && up.kind is Press,
        down.code is Down && down.kind is Press,
        s.items.len() <= usize::MAX,
        s.selected matches Some(i) ==> i < s.items.len(),
    ensures
        s.after_key(up).items == s.items && s.after_key(down).items == s.items,
        s.selected matches Some(i) ==> {
            &&& i > 0 ==> s.after_key(up).selected == Some((i - 1) as usize)
            &&& i == 0 ==> s.after_key(up).selected == Some(0usize)
            &&& i + 1 < s.items.len() ==> s.after_key(down).selected == Some((i + 1) as usize)
            &&& i + 1 == s.items.len() ==> s.after_key(down).selected == Some(i)
        },
        s.selected is None && s.items.len() > 0 ==> s.after_key(up).selected == Some(
            (s.items.len() - 1) as usize,
        ) && s.after_key(down).selected == Some(0usize),
{
}

/// With other entries the selection stays where it is, or goes to the last one.
pub proof fn lemma_selection_kept(s: SidebarModel, items: Seq<SidebarItemModel>)
    requires
        items.len() <= usize::MAX,
    ensures
        s.with_items(items).items == items,
        s.selected matches Some(i) ==> {
            &&& i < items.len() ==> s.with_items(items).selected == Some(i)
            &&& i >= items.len() && items.len() > 0 ==> s.with_items(items).selected == Some(
                (items.len() - 1) as usize,
            )
            &&& items.len() == 0 ==> s.with_items(items).selected is None
        },
        s.selected is None ==> s.with_items(items).selected is None,
{
}

} // verus!
