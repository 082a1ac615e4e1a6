//! The pane that shows output and previews, one tab each.

use vstd::prelude::*;
use vstd::string::*;

use crate::resource::types::JobId;
use crate::storage::records::{id_number, parse_id};
use crate::text;
use crate::text::Text;
use crate::tui::geometry::{contains, inside, minus, plus, saturating_minus, saturating_plus, Rect};
use crate::tui::ipc::Stream;
use crate::tui::lines::push_line;
use crate::tui::text_order::{
    insert_string, insert_text, lemma_sorted_texts, lemma_without, sort_strings, sorted_texts,
    strings_without, without,
};

verus! {

pub const EMPTY_DISPLAY_MESSAGE: &'static str = "Use `:out J1` for a stdout snapshot, `:tail J1` to follow live stdout, or `:err J1` for stderr.";

/// The output stream that a tab shows.
#[derive(Debug, Clone, Copy, PartialEq, Eq, Structural)]
pub enum DisplayStream {
    Stdout,
    Stderr,
}

pub open spec fn stream_label(stream: DisplayStream) -> Text {
    match stream {
        DisplayStream::Stdout => "stdout"@,
        DisplayStream::Stderr => "stderr"@,
    }
}

impl DisplayStream {
    pub fn label(self) -> (r: &'static str)
        ensures
            r@ == stream_label(self),
    {
        match self {
            DisplayStream::Stdout => "stdout",
            DisplayStream::Stderr => "stderr",
        }
    }
}

pub open spec fn shown_stream(stream: Stream) -> DisplayStream {
    match stream {
        Stream::Stdout => DisplayStream::Stdout,
        Stream::Stderr => DisplayStream::Stderr,
    }
}

pub fn display_stream_from_ipc(stream: Stream) -> (r: DisplayStream)
    ensures
        r == shown_stream(stream),
{
    match stream {
        Stream::Stdout => DisplayStream::Stdout,
        Stream::Stderr => DisplayStream::Stderr,
    }
}

/// A channel of events that can be subscribed to.
#[derive(Debug, Clone, Copy, PartialEq, Eq, Structural)]
pub enum EventChannel {
    Output(JobId),
}

/// The channel of a job's output, if the ID is that of a job.
pub fn output_channel_for_job_id(id: &str) -> (r: Option<EventChannel>)
    ensures
        match r {
            Some(EventChannel::Output(JobId(n))) => id_number('J', id@) == Some(n as nat),
            None => id_number('J', id@) is None,
        },
{
    match parse_id('J', id) {
        Some(n) => Some(EventChannel::Output(JobId(n))),
        None => None,
    }
}

// ── Tabs ──

#[derive(Debug)]
struct DisplayTab {
    target: DisplayTarget,
    content: String,
    follow: bool,
}

#[derive(Debug)]
enum DisplayTarget {
    Output { id: String, stream: DisplayStream },
    Preview { key: String, title: String },
}

/// What a tab shows.
pub enum TargetModel {
    Output { id: Text, stream: DisplayStream },
    Preview { key: Text, title: Text },
}

/// A tab over character sequences.
pub struct TabModel {
    pub target: TargetModel,
    pub content: Text,
    /// Whether new output is added.
    pub follow: bool,
}

impl View for DisplayTarget {
    type V = TargetModel;

    closed spec fn view(&self) -> TargetModel {
        match self {
            DisplayTarget::Output { id, stream } => TargetModel::Output { id: id@, stream: *stream },
            DisplayTarget::Preview { key, title } => TargetModel::Preview {
                key: key@,
                title: title@,
            },
        }
    }
}

impl View for DisplayTab {
    type V = TabModel;

    closed spec fn view(&self) -> TabModel {
        TabModel { target: self.target@, content: self.content@, follow: self.follow }
    }
}

spec fn tab_models(v: Seq<DisplayTab>) -> Seq<TabModel> {
    v.map_values(|t: DisplayTab| t@)
}

/// A text to copy and what it is.
#[derive(Debug, PartialEq, Eq)]
pub struct DisplayCopyTarget {
    pub label: String,
    pub content: String,
}

/// A preview to show in a tab.
#[derive(Debug, PartialEq, Eq)]
pub struct DisplayPreview {
    pub key: String,
    pub title: String,
    pub content: String,
}

/// A preview over character sequences.
pub struct PreviewModel {
    pub key: Text,
    pub title: Text,
    pub content: Text,
}

impl View for DisplayPreview {
    type V = PreviewModel;

    open spec fn view(&self) -> PreviewModel {
        PreviewModel { key: self.key@, title: self.title@, content: self.content@ }
    }
}

impl DisplayPreview {
    pub fn new(key: &str, title: &str, content: &str) -> (r: DisplayPreview)
        ensures
            r@ == (PreviewModel { key: key@, title: title@, content: content@ }),
    {
        DisplayPreview { key: key.to_owned(), title: title.to_owned(), content: content.to_owned() }
    }
}

/// What a click on the tab bar does.
#[derive(Debug, Clone, Copy, PartialEq, Eq, Structural)]
pub enum DisplayTabHit {
    Activate(usize),
    Close(usize),
}

// ── Subscriptions ──

/// What to subscribe to and what to give up.
#[derive(Debug, PartialEq, Eq)]
pub struct DisplaySubscriptionPlan {
    pub subscribe: Vec<String>,
    pub unsubscribe: Vec<String>,
}

/// The changes that lead from the current subscriptions to the desired ones,
/// without those that are under way.
pub fn plan_display_subscriptions(
    desired: &Vec<String>,
    current: &Vec<String>,
    pending_subscribes: &Vec<String>,
    pending_unsubscribes: &Vec<String>,
) -> (r: DisplaySubscriptionPlan)
    ensures
        text::texts(r.subscribe@) == without(
            sorted_texts(text::texts(desired@)),
            text::texts(current@),
            text::texts(pending_subscribes@),
        ),
        text::texts(r.unsubscribe@) == without(
            sorted_texts(text::texts(current@)),
            text::texts(desired@),
            text::texts(pending_unsubscribes@),
        ),
{
    let subscribe = strings_without(&sort_strings(desired), current, pending_subscribes);
    let unsubscribe = strings_without(&sort_strings(current), desired, pending_unsubscribes);
    DisplaySubscriptionPlan { subscribe, unsubscribe }
}

/// A planned subscription is desired and neither there nor under way; after the
/// plan and what is under way, the subscriptions cover what is desired.
pub proof fn lemma_plan_covers_desired(
    desired: Seq<Text>,
    current: Seq<Text>,
    pending: Seq<Text>,
    id: Text,
)
    ensures
        ({
            let planned = without(sorted_texts(desired), current, pending);
            &&& planned.contains(id) <==> desired.contains(id) && !current.contains(id)
                && !pending.contains(id)
            &&& desired.contains(id) ==> planned.contains(id) || current.contains(id)
                || pending.contains(id)
        }),
{
    lemma_sorted_texts(desired);
    lemma_without(sorted_texts(desired), current, pending);
}

// ── The pane ──

/// Tabs, one of which is shown.
#[derive(Debug)]
pub struct DisplayPane {
    tabs: Vec<DisplayTab>,
    active: Option<usize>,
}

/// The pane over character sequences.
pub struct PaneModel {
    pub tabs: Seq<TabModel>,
    pub active: Option<usize>,
}

impl View for DisplayPane {
    type V = PaneModel;

    closed spec fn view(&self) -> PaneModel {
        PaneModel { tabs: tab_models(self.tabs@), active: self.active }
    }
}

/// The first tab from `i` on with this target.
pub open spec fn tab_from(tabs: Seq<TabModel>, target: TargetModel, i: int) -> Option<int>
    decreases tabs.len() - i,
{
    if !(0 <= i < tabs.len()) {
        None
    } else if tabs[i].target == target {
        Some(i)
    } else {
        tab_from(tabs, target, i + 1)
    }
}

/// A tab found is among the tabs.
pub proof fn lemma_tab_from(tabs: Seq<TabModel>, target: TargetModel, i: int)
    ensures
        tab_from(tabs, target, i) matches Some(k) ==> i <= k < tabs.len() && 0 <= k,
    decreases tabs.len() - i,
{
    if 0 <= i < tabs.len() && tabs[i].target != target {
        lemma_tab_from(tabs, target, i + 1);
    }
}

pub open spec fn tab_label(tab: TabModel) -> Text {
    match tab.target {
        TargetModel::Output { id, stream } => (if tab.follow {
            " follow"@
        } else {
            ""@
        }) + " "@ + stream_label(stream) + " "@ + id + "  × "@,
        TargetModel::Preview { key, title } => " "@ + title + "  × "@,
    }
}

pub open spec fn copy_label(target: TargetModel) -> Text {
    match target {
        TargetModel::Output { id, stream } => stream_label(stream) + " "@ + id,
        TargetModel::Preview { key, title } => title,
    }
}

/// The jobs whose output is followed, in ascending order.
pub open spec fn followed(tabs: Seq<TabModel>) -> Seq<Text>
    decreases tabs.len(),
{
    if tabs.len() == 0 {
        Seq::empty()
    } else {
        let before = followed(tabs.drop_last());
        match tabs.last().target {
            TargetModel::Output { id, stream } if tabs.last().follow => insert_text(before, id),
            _ => before,
        }
    }
}

/// Whether a tab follows this job.
pub open spec fn follows(tab: TabModel, id: Text) -> bool {
    tab.follow && (tab.target matches TargetModel::Output { id: shown, .. } && shown == id)
}

/// The label that the column lies on, counted from the label at `i`, which
/// starts at `start`. The last three columns of a label close its tab.
pub open spec fn hit_from(labels: Seq<Text>, i: int, start: int, x: int) -> Option<DisplayTabHit>
    decreases labels.len() - i,
{
    if !(0 <= i < labels.len()) {
        None
    } else {
        let width = labels[i].len() as int % 0x10000;
        let close = if width >= 3 {
            start + width - 3
        } else {
            start
        };
        if start <= x < start + width {
            if x >= close {
                Some(DisplayTabHit::Close(i as usize))
            } else {
                Some(DisplayTabHit::Activate(i as usize))
            }
        } else {
            hit_from(labels, i + 1, start + width, x)
        }
    }
}

impl PaneModel {
    /// Whether a tab is shown exactly if there is one.
    pub open spec fn wf(self) -> bool {
        match self.active {
            Some(i) => i < self.tabs.len(),
            None => self.tabs.len() == 0,
        }
    }

    pub open spec fn empty() -> PaneModel {
        PaneModel { tabs: Seq::empty(), active: None }
    }

    pub open spec fn active_tab(self) -> Option<TabModel> {
        match self.active {
            Some(i) => if i < self.tabs.len() {
                Some(self.tabs[i as int])
            } else {
                None
            },
            None => None,
        }
    }

    pub open spec fn content(self) -> Text {
        match self.active_tab() {
            Some(tab) => tab.content,
            None => EMPTY_DISPLAY_MESSAGE@,
        }
    }

    pub open spec fn labels(self) -> Seq<Text> {
        self.tabs.map_values(|t: TabModel| tab_label(t))
    }

    pub open spec fn copy_target(self) -> Option<(Text, Text)> {
        match self.active_tab() {
            Some(tab) => Some((copy_label(tab.target), tab.content)),
            None => None,
        }
    }

    /// The pane with this tab shown in place of the one with the same target,
    /// or as a new one.
    pub open spec fn with_tab(self, tab: TabModel) -> PaneModel {
        match tab_from(self.tabs, tab.target, 0) {
            Some(i) => PaneModel { tabs: self.tabs.update(i, tab), active: Some(i as usize) },
            None => PaneModel {
                tabs: self.tabs.push(tab),
                active: Some(self.tabs.len() as usize),
            },
        }
    }

    pub open spec fn with_preview(self, preview: PreviewModel) -> PaneModel {
        let target = TargetModel::Preview { key: preview.key, title: preview.title };
        self.with_tab(
            TabModel {
                target,
                content: preview.content,
                follow: match tab_from(self.tabs, target, 0) {
                    Some(i) => self.tabs[i].follow,
                    None => false,
                },
            },
        )
    }

    pub open spec fn with_output(
        self,
        id: Text,
        stream: DisplayStream,
        data: Text,
        truncated: bool,
        follow: bool,
    ) -> PaneModel {
        self.with_tab(
            TabModel {
                target: TargetModel::Output { id, stream },
                content: if truncated {
                    data + "\n--- (truncated) ---"@
                } else {
                    data
                },
                follow,
            },
        )
    }

    pub open spec fn with_appended(self, id: Text, stream: Stream, data: Text) -> PaneModel {
        PaneModel {
            tabs: self.tabs.map_values(
                |t: TabModel|
                    if t.follow && t.target == (TargetModel::Output {
                        id,
                        stream: shown_stream(stream),
                    }) {
                        TabModel { content: t.content + data, ..t }
                    } else {
                        t
                    },
            ),
            ..self
        }
    }

    pub open spec fn without_follow(self, id: Text) -> PaneModel {
        PaneModel {
            tabs: self.tabs.map_values(
                |t: TabModel|
                    if follows(t, id) {
                        TabModel { follow: false, ..t }
                    } else {
                        t
                    },
            ),
            ..self
        }
    }

    pub open spec fn activated(self, index: usize) -> PaneModel {
        if index < self.tabs.len() {
            PaneModel { active: Some(index), ..self }
        } else {
            self
        }
    }

    pub open spec fn closed(self, index: usize) -> PaneModel {
        if index < self.tabs.len() {
            let tabs = self.tabs.remove(index as int);
            PaneModel {
                tabs,
                active: if tabs.len() == 0 {
                    None
                } else if index >= tabs.len() {
                    Some((tabs.len() - 1) as usize)
                } else {
                    Some(index)
                },
            }
        } else {
            self
        }
    }

    pub open spec fn tab_bar(self, area: Rect) -> Option<Rect> {
        if self.tabs.len() == 0 || area.width <= 2 || area.height <= 2 {
            None
        } else {
            Some(
                Rect {
                    x: plus(area.x, 1),
                    y: plus(area.y, 1),
                    width: minus(area.width, 2),
                    height: 1,
                },
            )
        }
    }

    pub open spec fn hit(self, area: Rect, point: Rect) -> Option<DisplayTabHit> {
        match self.tab_bar(area) {
            Some(bar) => if inside(bar, point) {
                hit_from(self.labels(), 0, bar.x as int, point.x as int)
            } else {
                None
            },
            None => None,
        }
    }
}

impl DisplayPane {
    pub fn new() -> (r: DisplayPane)
        ensures
            r@ == PaneModel::empty(),
            r@.wf(),
    {
        let r = DisplayPane { tabs: Vec::new(), active: None };
        assert(tab_models(r.tabs@) =~= Seq::<TabModel>::empty());
        r
    }

    fn active_tab(&self) -> (r: Option<&DisplayTab>)
        ensures
            match r {
                Some(t) => self@.active_tab() == Some(t@),
                None => self@.active_tab() is None,
            },
    {
        match self.active {
            Some(i) => if i < self.tabs.len() {
                Some(&self.tabs[i])
            } else {
                None
            },
            None => None,
        }
    }

    /// The text of the tab that is shown.
    pub fn content(&self) -> (r: &str)
        ensures
            r@ == self@.content(),
    {
        match self.active_tab() {
            Some(tab) => tab.content.as_str(),
            None => EMPTY_DISPLAY_MESSAGE,
        }
    }

    pub fn has_target(&self) -> (r: bool)
        ensures
            r == self@.active is Some,
    {
        self.active.is_some()
    }

    pub fn active(&self) -> (r: Option<usize>)
        ensures
            r == self@.active,
    {
        self.active
    }

    /// The labels on the tab bar.
    pub fn labels(&self) -> (r: Vec<String>)
        ensures
            text::texts(r@) == self@.labels(),
    {
        let ghost all = self@.labels();
        let mut out: Vec<String> = Vec::new();
        let mut i: usize = 0;
        assert(text::texts(out@) =~= all.take(0));
        while i < self.tabs.len()
            invariant
                i <= self.tabs@.len(),
                all == self@.labels(),
                text::texts(out@) == all.take(i as int),
            decreases self.tabs@.len() - i,
        {
            let tab = &self.tabs[i];
            assert(self@.tabs[i as int] == tab@);
            let label = match &tab.target {
                DisplayTarget::Output { id, stream } => {
                    let prefix = if tab.follow {
                        " follow"
                    } else {
                        ""
                    };
                    let head = text::concat4(prefix, " ", stream.label(), " ");
                    text::concat3(head.as_str(), id.as_str(), "  × ")
                },
                DisplayTarget::Preview { key, title } => text::concat3(" ", title.as_str(), "  × "),
            };
            assert(label@ == tab_label(tab@));
            push_line(&mut out, label);
            assert(all.take(i as int).push(all[i as int]) =~= all.take(i + 1));
            i = i + 1;
        }
        assert(all.take(i as int) =~= all);
        out
    }

    /// What copying the tab that is shown copies.
    pub fn copy_target(&self) -> (r: Option<DisplayCopyTarget>)
        ensures
            match r {
                Some(t) => self@.copy_target() == Some((t.label@, t.content@)),
                None => self@.copy_target() is None,
            },
    {
        match self.active_tab() {
            Some(tab) => {
                let label = match &tab.target {
                    DisplayTarget::Output { id, stream } => text::concat3(
                        stream.label(),
                        " ",
                        id.as_str(),
                    ),
                    DisplayTarget::Preview { key, title } => title.clone(),
                };
                Some(DisplayCopyTarget { label, content: tab.content.clone() })
            },
            None => None,
        }
    }

    /// The jobs whose output is followed, in ascending order.
    pub fn desired_subscriptions(&self) -> (r: Vec<String>)
        ensures
            text::texts(r@) == followed(self@.tabs),
    {
        let ghost all = self@.tabs;
        let mut out: Vec<String> = Vec::new();
        let mut i: usize = 0;
        assert(text::texts(out@) =~= followed(all.take(0)));
        while i < self.tabs.len()
            invariant
                i <= self.tabs@.len(),
                all == self@.tabs,
                text::texts(out@) == followed(all.take(i as int)),
            decreases self.tabs@.len() - i,
        {
            let tab = &self.tabs[i];
            proof {
                assert(all.take(i + 1).drop_last() =~= all.take(i as int));
                assert(all.take(i + 1).last() == tab@);
            }
            if tab.follow {
                if let DisplayTarget::Output { id, .. } = &tab.target {
                    insert_string(&mut out, id.clone());
                }
            }
            i = i + 1;
        }
        assert(all.take(i as int) =~= all);
        out
    }

    /// Stops following a job; says whether it was followed.
    pub fn disable_follow(&mut self, id: &str) -> (r: bool)
        ensures
            final(self)@ == old(self)@.without_follow(id@),
            r == exists|i: int|
                0 <= i < old(self)@.tabs.len() && follows(#[trigger] old(self)@.tabs[i], id@),
    {
        let ghost before = self@.tabs;
        let mut changed = false;
        let mut i: usize = 0;
        while i < self.tabs.len()
            invariant
                i <= self.tabs@.len(),
                before == old(self)@.tabs,
                before.len() == self.tabs@.len(),
                self.active == old(self).active,
                forall|j: int|
                    0 <= j < i ==> (#[trigger] self.tabs@[j])@ == old(self)@.without_follow(
                        id@,
                    ).tabs[j],
                forall|j: int| i <= j < before.len() ==> (#[trigger] self.tabs@[j])@ == before[j],
                changed == exists|j: int| 0 <= j < i && follows(#[trigger] before[j], id@),
            decreases self.tabs@.len() - i,
        {
            let ghost was = self.tabs@;
            assert(self.tabs@[i as int]@ == before[i as int]);
            let hit = self.tabs[i].follow && match &self.tabs[i].target {
                DisplayTarget::Output { id: shown, .. } => text::str_eq(shown.as_str(), id),
                DisplayTarget::Preview { .. } => false,
            };
            assert(hit == follows(before[i as int], id@));
            if hit {
                self.tabs[i].follow = false;
                changed = true;
                assert(self.tabs@ =~= was.update(i as int, self.tabs@[i as int]));
            }
            proof {
                assert(self.tabs@[i as int]@ == old(self)@.without_follow(id@).tabs[i as int]);
                if changed && !hit {
                    let j = choose|j: int| 0 <= j < i && follows(#[trigger] before[j], id@);
                    assert(follows(before[j], id@));
                }
            }
            i = i + 1;
        }
        assert(self@.tabs =~= old(self)@.without_follow(id@).tabs);
        changed
    }

    fn find_tab(&self, target: &DisplayTarget) -> (r: Option<usize>)
        ensures
            match r {
                Some(i) => tab_from(self@.tabs, target@, 0) == Some(i as int) && i
                    < self.tabs@.len(),
                None => tab_from(self@.tabs, target@, 0) is None,
            },
    {
        let mut i: usize = 0;
        while i < self.tabs.len()
            invariant
                i <= self.tabs@.len(),
                tab_from(self@.tabs, target@, 0) == tab_from(self@.tabs, target@, i as int),
            decreases self.tabs@.len() - i,
        {
            assert(self@.tabs[i as int] == self.tabs@[i as int]@);
            let same = match (&self.tabs[i].target, target) {
                (
                    DisplayTarget::Output { id: a, stream: s },
                    DisplayTarget::Output { id: b, stream: t },
                ) => text::str_eq(a.as_str(), b.as_str()) && *s == *t,
                (
                    DisplayTarget::Preview { key: a, title: s },
                    DisplayTarget::Preview { key: b, title: t },
                ) => text::str_eq(a.as_str(), b.as_str()) && text::str_eq(s.as_str(), t.as_str()),
                _ => false,
            };
            assert(same == (self@.tabs[i as int].target == target@));
            if same {
                return Some(i);
            }
            i = i + 1;
        }
        None
    }

    /// Shows a tab in place of the one with the same target, or as a new one.
    fn put_tab(&mut self, at: Option<usize>, tab: DisplayTab)
        requires
            match at {
                Some(i) => tab_from(old(self)@.tabs, tab@.target, 0) == Some(i as int) && i
                    < old(self).tabs@.len(),
                None => tab_from(old(self)@.tabs, tab@.target, 0) is None,
            },
        ensures
            final(self)@ == old(self)@.with_tab(tab@),
    {
        let ghost before = self.tabs@;
        match at {
            Some(i) => {
                self.tabs.set(i, tab);
                self.active = Some(i);
                assert(tab_models(self.tabs@) =~= tab_models(before).update(i as int, tab@));
            },
            None => {
                let n: usize = self.tabs.len();
                self.tabs.push(tab);
                self.active = Some(n);
                assert(tab_models(self.tabs@) =~= tab_models(before).push(tab@));
            },
        }
    }

    /// Shows a preview.
    pub fn open_preview(&mut self, preview: DisplayPreview)
        ensures
            final(self)@ == old(self)@.with_preview(preview@),
    {
        let target = DisplayTarget::Preview { key: preview.key, title: preview.title };
        let at = self.find_tab(&target);
        let follow = match at {
            Some(i) => {
                assert(self@.tabs[i as int] == self.tabs@[i as int]@);
                self.tabs[i].follow
            },
            None => false,
        };
        self.put_tab(at, DisplayTab { target, content: preview.content, follow });
    }

    /// Shows the output of a job.
    pub fn show_output(
        &mut self,
        id: String,
        stream: DisplayStream,
        data: String,
        truncated: bool,
        follow: bool,
    )
        ensures
            final(self)@ == old(self)@.with_output(id@, stream, data@, truncated, follow),
    {
        let content = if truncated {
            text::concat2(data.as_str(), "\n--- (truncated) ---")
        } else {
            data
        };
        let target = DisplayTarget::Output { id, stream };
        let at = self.find_tab(&target);
        self.put_tab(at, DisplayTab { target, content, follow });
    }

    /// Adds output to the tabs that follow it.
    pub fn append_output(&mut self, id: &str, stream: Stream, data: &str)
        ensures
            final(self)@ == old(self)@.with_appended(id@, stream, data@),
    {
        let ghost before = self@.tabs;
        let shown = display_stream_from_ipc(stream);
        let mut i: usize = 0;
        while i < self.tabs.len()
            invariant
                i <= self.tabs@.len(),
                shown == shown_stream(stream),
                before == old(self)@.tabs,
                before.len() == self.tabs@.len(),
                self.active == old(self).active,
                forall|j: int|
                    0 <= j < i ==> (#[trigger] self.tabs@[j])@ == old(self)@.with_appended(
                        id@,
                        stream,
                        data@,
                    ).tabs[j],
                forall|j: int| i <= j < before.len() ==> (#[trigger] self.tabs@[j])@ == before[j],
            decreases self.tabs@.len() - i,
        {
            let ghost was = self.tabs@;
            assert(self.tabs@[i as int]@ == before[i as int]);
            let hit = self.tabs[i].follow && match &self.tabs[i].target {
                DisplayTarget::Output { id: a, stream: s } => text::str_eq(a.as_str(), id) && *s
                    == shown,
                DisplayTarget::Preview { .. } => false,
            };
            if hit {
                let content = text::concat2(self.tabs[i].content.as_str(), data);
                self.tabs[i].content = content;
                assert(self.tabs@ =~= was.update(i as int, self.tabs@[i as int]));
            }
            assert(self.tabs@[i as int]@ == old(self)@.with_appended(id@, stream, data@).tabs[i as int]);
            i = i + 1;
        }
        assert(self@.tabs =~= old(self)@.with_appended(id@, stream, data@).tabs);
    }

    pub fn clear(&mut self)
        ensures
            final(self)@ == PaneModel::empty(),
    {
        self.tabs.clear();
        self.active = None;
        assert(tab_models(self.tabs@) =~= Seq::<TabModel>::empty());
    }

    /// Shows the tab at `index`, if there is one.
    pub fn activate(&mut self, index: usize)
        ensures
            final(self)@ == old(self)@.activated(index),
    {
        if index < self.tabs.len() {
            self.active = Some(index);
        }
    }

    /// Closes the tab at `index`; the one that takes its place, or else the
    /// last one, is shown.
    pub fn close(&mut self, index: usize) -> (r: bool)
        ensures
            final(self)@ == old(self)@.closed(index),
            r == (index < old(self)@.tabs.len()),
    {
        if index >= self.tabs.len() {
            return false;
        }
        let ghost before = self.tabs@;
        self.tabs.remove(index);
        assert(tab_models(self.tabs@) =~= tab_models(before).remove(index as int));
        let n: usize = self.tabs.len();
        self.active = if n == 0 {
            None
        } else if index >= n {
            Some(n - 1)
        } else {
            Some(index)
        };
        true
    }

    /// What a click at `point` on the tab bar does.
    pub fn hit(&self, display_area: Rect, point: Rect) -> (r: Option<DisplayTabHit>)
        ensures
            r == self@.hit(display_area, point),
    {
        if self.tabs.len() == 0 || display_area.width <= 2 || display_area.height <= 2 {
            return None;
        }
        let bar = Rect {
            x: saturating_plus(display_area.x, 1),
            y: saturating_plus(display_area.y, 1),
            width: saturating_minus(display_area.width, 2),
            height: 1,
        };
        if !contains(bar, point) {
            return None;
        }
        let labels = self.labels();
        let ghost all = text::texts(labels@);
        let mut start: u128 = bar.x as u128;
        let x: u128 = point.x as u128;
        let mut i: usize = 0;
        while i < labels.len()
            invariant
                i <= labels@.len(),
                all == text::texts(labels@),
                start <= 0x10000 * (i + 1),
                hit_from(all, 0, bar.x as int, x as int) == hit_from(
                    all,
                    i as int,
                    start as int,
                    x as int,
                ),
                hit_from(all, 0, bar.x as int, x as int) == self@.hit(display_area, point),
            decreases labels@.len() - i,
        {
            assert(all[i as int] == labels@[i as int]@);
            let width: u128 = (labels[i].as_str().unicode_len() % 0x10000) as u128;
            let close_x: u128 = if width >= 3 {
                start + width - 3
            } else {
                start
            };
            if x >= start && x < start + width {
                return if x >= close_x {
                    Some(DisplayTabHit::Close(i))
                } else {
                    Some(DisplayTabHit::Activate(i))
                };
            }
            start = start + width;
            i = i + 1;
        }
        None
    }
}

// ── Laws ──

/// Whatever is done to a pane, a tab is shown exactly if there is one.
pub proof fn lemma_pane_stays_valid(
    p: PaneModel,
    tab: TabModel,
    id: Text,
    stream: Stream,
    data: Text,
    index: usize,
)
    requires
        p.wf(),
        p.tabs.len() < usize::MAX,
    ensures
        p.with_tab(tab).wf(),
        p.with_appended(id, stream, data).wf(),
        p.without_follow(id).wf(),
        p.activated(index).wf(),
        p.closed(index).wf(),
{
    lemma_tab_from(p.tabs, tab.target, 0);
}

/// A tab just opened is the one that is shown.
pub proof fn lemma_opened_tab_is_shown(p: PaneModel, tab: TabModel)
    requires
        p.tabs.len() < usize::MAX,
    ensures
        p.with_tab(tab).active_tab() == Some(tab),
        p.with_tab(tab).content() == tab.content,
{
    lemma_tab_from(p.tabs, tab.target, 0);
}

/// No target has two tabs.
pub open spec fn distinct_tabs(tabs: Seq<TabModel>) -> bool {
    forall|i: int, j: int|
        0 <= i < j < tabs.len() ==> (#[trigger] tabs[i]).target != (#[trigger] tabs[j]).target
}

proof fn lemma_not_found(tabs: Seq<TabModel>, target: TargetModel, i: int)
    requires
        0 <= i,
        tab_from(tabs, target, i) is None,
    ensures
        forall|j: int| i <= j < tabs.len() ==> (#[trigger] tabs[j]).target != target,
    decreases tabs.len() - i,
{
    if i < tabs.len() {
        lemma_not_found(tabs, target, i + 1);
    }
}

proof fn lemma_found(tabs: Seq<TabModel>, target: TargetModel, i: int)
    requires
        0 <= i,
    ensures
        tab_from(tabs, target, i) matches Some(k) ==> tabs[k].target == target,
    decreases tabs.len() - i,
{
    if i < tabs.len() && tabs[i].target != target {
        lemma_found(tabs, target, i + 1);
    }
}

/// Whatever is done to a pane, no target gets a second tab.
pub proof fn lemma_tabs_stay_distinct(
    p: PaneModel,
    preview: PreviewModel,
    tab: TabModel,
    id: Text,
    stream: DisplayStream,
    from: Stream,
    data: Text,
    truncated: bool,
    follow: bool,
    index: usize,
)
    requires
        distinct_tabs(p.tabs),
    ensures
        distinct_tabs(PaneModel::empty().tabs),
        distinct_tabs(p.with_tab(tab).tabs),
        distinct_tabs(p.with_preview(preview).tabs),
        distinct_tabs(p.with_output(id, stream, data, truncated, follow).tabs),
        distinct_tabs(p.with_appended(id, from, data).tabs),
        distinct_tabs(p.without_follow(id).tabs),
        distinct_tabs(p.activated(index).tabs),
        distinct_tabs(p.closed(index).tabs),
{
    lemma_opening_keeps_distinct(p, tab);
    let target = TargetModel::Preview { key: preview.key, title: preview.title };
    lemma_opening_keeps_distinct(
        p,
        TabModel {
            target,
            content: preview.content,
            follow: match tab_from(p.tabs, target, 0) {
                Some(i) => p.tabs[i].follow,
                None => false,
            },
        },
    );
    lemma_opening_keeps_distinct(
        p,
        TabModel {
            target: TargetModel::Output { id, stream },
            content: if truncated {
                data + "\n--- (truncated) ---"@
            } else {
                data
            },
            follow,
        },
    );
    let appended = p.with_appended(id, from, data).tabs;
    assert forall|i: int| 0 <= i < appended.len() implies (#[trigger] appended[i]).target
        == p.tabs[i].target by {}
    let unfollowed = p.without_follow(id).tabs;
    assert forall|i: int| 0 <= i < unfollowed.len() implies (#[trigger] unfollowed[i]).target
        == p.tabs[i].target by {}
    if index < p.tabs.len() {
        let rest = p.tabs.remove(index as int);
        assert forall|i: int| 0 <= i < rest.len() implies #[trigger] rest[i] == p.tabs[if i < index {
            i
        } else {
            i + 1
        }] by {}
    }
}

proof fn lemma_opening_keeps_distinct(p: PaneModel, tab: TabModel)
    requires
        distinct_tabs(p.tabs),
    ensures
        distinct_tabs(p.with_tab(tab).tabs),
{
    lemma_tab_from(p.tabs, tab.target, 0);
    lemma_found(p.tabs, tab.target, 0);
    if tab_from(p.tabs, tab.target, 0) is None {
        lemma_not_found(p.tabs, tab.target, 0);
    }
}

/// A job whose following was stopped is not subscribed to any more.
pub proof fn lemma_unfollowed_is_not_desired(tabs: Seq<TabModel>, id: Text)
    requires
        forall|i: int| 0 <= i < tabs.len() ==> !follows(#[trigger] tabs[i], id),
    ensures
        !followed(tabs).contains(id),
        crate::textmap::ascending(followed(tabs)),
    decreases tabs.len(),
{
    if tabs.len() > 0 {
        let d = tabs.drop_last();
        assert(forall|i: int| 0 <= i < d.len() ==> d[i] == tabs[i]);
        lemma_unfollowed_is_not_desired(d, id);
        assert(!follows(tabs[tabs.len() - 1], id));
        match tabs.last().target {
            TargetModel::Output { id: other, stream } => {
                crate::tui::text_order::lemma_insert_text(followed(d), other);
            },
            _ => {},
        }
    }
}

} // verus!
