//! The command log: a stack of records, newest at the bottom.

use vstd::prelude::*;
use vstd::string::*;

use crate::mode::Mode;
use crate::text;
use crate::text::Text;
use crate::tui::geometry::{contains, inside, plus, Rect};
use crate::tui::keys::{KeyCode, KeyEvent, KeyEventKind, MouseEventKind};
use crate::tui::message::{opt_action, ActionModel, UserAction};

verus! {

/// How a command went.
#[derive(Debug, Clone, Copy, PartialEq, Eq, Structural)]
pub enum CardStatus {
    Success,
    Error,
    Pending,
    Streaming,
}

/// One command and its output.
#[derive(Debug, PartialEq, Eq)]
pub struct Card {
    /// Which mode this card belongs to.
    pub mode: Mode,
    /// What the user typed.
    pub input: String,
    /// Response or accumulated output.
    pub output: String,
    pub status: CardStatus,
    /// Short ID (e.g. "J1").
    pub label: Option<String>,
    /// Step of a chain (e.g. "chain:CH1/1/3").
    pub chain_label: Option<String>,
}

/// A card over character sequences.
pub struct CardModel {
    pub mode: Mode,
    pub input: Text,
    pub output: Text,
    pub status: CardStatus,
    pub label: Option<Text>,
    pub chain_label: Option<Text>,
}

impl View for Card {
    type V = CardModel;

    open spec fn view(&self) -> CardModel {
        CardModel {
            mode: self.mode,
            input: self.input@,
            output: self.output@,
            status: self.status,
            label: text::opt_text(self.label),
            chain_label: text::opt_text(self.chain_label),
        }
    }
}

/// A card for a command that has not been answered.
pub open spec fn new_card(input: Text, mode: Mode) -> CardModel {
    CardModel {
        mode,
        input,
        output: Seq::empty(),
        status: CardStatus::Pending,
        label: None,
        chain_label: None,
    }
}

/// The number of line feeds.
pub open spec fn line_feeds(s: Text) -> nat
    decreases s.len(),
{
    if s.len() == 0 {
        0
    } else {
        line_feeds(s.drop_last()) + if s.last() == '\n' {
            1nat
        } else {
            0nat
        }
    }
}

/// The number of lines; a line feed at the end starts none.
pub open spec fn line_count(s: Text) -> nat {
    if s.len() == 0 || s.last() == '\n' {
        line_feeds(s)
    } else {
        line_feeds(s) + 1
    }
}

fn count_lines(s: &str) -> (r: usize)
    ensures
        r == line_count(s@),
{
    let v = text::chars_of(s);
    let mut n: usize = 0;
    let mut i: usize = 0;
    assert(v@.take(0) =~= Seq::<char>::empty());
    while i < v.len()
        invariant
            i <= v@.len(),
            n <= i,
            n == line_feeds(v@.take(i as int)),
        decreases v@.len() - i,
    {
        assert(v@.take(i + 1).drop_last() =~= v@.take(i as int));
        if v[i] == '\n' {
            n = n + 1;
        }
        i = i + 1;
    }
    assert(v@.take(i as int) =~= v@);
    if v.len() == 0 || v[v.len() - 1] == '\n' {
        n
    } else {
        proof {
            lemma_line_feeds_below(v@);
        }
        n + 1
    }
}

proof fn lemma_line_feeds_below(s: Text)
    ensures
        line_feeds(s) <= s.len(),
        s.len() > 0 && s.last() != '\n' ==> line_feeds(s) < s.len(),
    decreases s.len(),
{
    if s.len() > 0 {
        lemma_line_feeds_below(s.drop_last());
    }
}

/// Rows that a card takes: the border, and a row for each line of output. The
/// number of lines is kept in 16 bits.
pub open spec fn card_height(card: CardModel) -> nat {
    let lines = line_count(card.output);
    let rows = if lines >= 1 {
        lines
    } else {
        1
    };
    2 + (rows % 65536)
}

impl Card {
    pub fn new(input: String, mode: Mode) -> (r: Card)
        ensures
            r@ == new_card(input@, mode),
    {
        let output = String::new();
        assert(output@ =~= Seq::<char>::empty());
        Card { mode, input, output, status: CardStatus::Pending, label: None, chain_label: None }
    }

    fn height(&self) -> (r: u32)
        ensures
            r == card_height(self@),
    {
        let lines = count_lines(self.output.as_str());
        let rows: usize = if lines >= 1 {
            lines
        } else {
            1
        };
        2 + (rows % 65536) as u32
    }

    /// The text on the border of a card.
    pub fn title(&self) -> (r: String)
        ensures
            r@ == card_title(self@),
    {
        let mode = self.mode.label();
        let mut t = text::concat4(" ", mode, " > ", self.input.as_str());
        if let Some(label) = &self.label {
            t.append(" [");
            t.append(label.as_str());
            t.append("]");
        }
        if let Some(chain_label) = &self.chain_label {
            t.append(" [");
            t.append(chain_label.as_str());
            t.append("]");
        }
        t.append(" ");
        assert(t@ =~= card_title(self@));
        t
    }

    /// What is shown in a card: its output, or that none has come yet.
    pub fn body(&self) -> (r: String)
        ensures
            r@ == card_body(self@),
    {
        if self.output.as_str().unicode_len() > 0 {
            return self.output.clone();
        }
        match self.status {
            CardStatus::Pending => "⏳ waiting...".to_owned(),
            CardStatus::Streaming => "▌".to_owned(),
            _ => {
                let r = String::new();
                assert(r@ =~= self.output@);
                r
            },
        }
    }
}

pub open spec fn bracketed(label: Option<Text>) -> Text {
    match label {
        Some(l) => " ["@ + l + "]"@,
        None => Seq::empty(),
    }
}

pub open spec fn card_title(card: CardModel) -> Text {
    " "@ + card.mode.label_text() + " > "@ + card.input + bracketed(card.label) + bracketed(
        card.chain_label,
    ) + " "@
}

pub open spec fn card_body(card: CardModel) -> Text {
    if card.output.len() > 0 {
        card.output
    } else {
        match card.status {
            CardStatus::Pending => "⏳ waiting..."@,
            CardStatus::Streaming => "▌"@,
            _ => card.output,
        }
    }
}

impl Clone for Card {
    fn clone(&self) -> (r: Card)
        ensures
            r@ == self@,
    {
        Card {
            mode: self.mode,
            input: self.input.clone(),
            output: self.output.clone(),
            status: self.status,
            label: text::clone_opt(&self.label),
            chain_label: text::clone_opt(&self.chain_label),
        }
    }
}

/// Messages local to the command log.
#[derive(Debug)]
pub enum MainViewMsg {
    /// Switch the active mode.
    SetMode(Mode),
    /// Append a new card.
    PushCard(Card),
    /// Add to the latest card's output.
    AppendOutput { data: String },
    /// Replace the latest card's output.
    SetLatestOutput(String),
    /// Set the latest card's status.
    SetLatestStatus(CardStatus),
    /// Set the latest card's label.
    SetLatestLabel(String),
    /// Set a card's chain step label.
    SetCardChainLabel { index: usize, label: String },
}

#[derive(Debug)]
pub struct MainView {
    /// Active input mode.
    pub mode: Mode,
    /// All cards, oldest first.
    pub cards: Vec<Card>,
    /// How many of the newest cards are scrolled away.
    pub scroll_offset: usize,
}

/// The command log over character sequences.
pub struct MainViewModel {
    pub mode: Mode,
    pub cards: Seq<CardModel>,
    pub scroll_offset: usize,
}

pub open spec fn card_models(v: Seq<Card>) -> Seq<CardModel> {
    v.map_values(|c: Card| c@)
}

impl View for MainView {
    type V = MainViewModel;

    open spec fn view(&self) -> MainViewModel {
        MainViewModel {
            mode: self.mode,
            cards: card_models(self.cards@),
            scroll_offset: self.scroll_offset,
        }
    }
}

impl MainViewModel {
    /// With one more card, which is shown.
    pub open spec fn push(self, card: CardModel) -> MainViewModel {
        MainViewModel { cards: self.cards.push(card), scroll_offset: 0, ..self }
    }

    /// With card `i` replaced, where there is one.
    pub open spec fn with_card(self, i: int, card: CardModel) -> MainViewModel {
        if 0 <= i < self.cards.len() {
            MainViewModel { cards: self.cards.update(i, card), ..self }
        } else {
            self
        }
    }

    pub open spec fn with_output(self, i: int, output: Text) -> MainViewModel {
        self.with_card(i, CardModel { output, ..self.cards[i] })
    }

    pub open spec fn with_status(self, i: int, status: CardStatus) -> MainViewModel {
        self.with_card(i, CardModel { status, ..self.cards[i] })
    }

    pub open spec fn with_label(self, i: int, label: Text) -> MainViewModel {
        self.with_card(i, CardModel { label: Some(label), ..self.cards[i] })
    }

    pub open spec fn with_chain_label(self, i: int, label: Text) -> MainViewModel {
        self.with_card(i, CardModel { chain_label: Some(label), ..self.cards[i] })
    }

    /// With text added to the newest card, which then streams.
    pub open spec fn with_appended(self, data: Text) -> MainViewModel {
        let i = self.cards.len() - 1;
        self.with_card(
            i,
            CardModel {
                output: self.cards[i].output + data,
                status: CardStatus::Streaming,
                ..self.cards[i]
            },
        )
    }

    pub open spec fn cleared(self) -> MainViewModel {
        MainViewModel { cards: Seq::empty(), scroll_offset: 0, ..self }
    }

    /// Scrolled `n` cards up, as far as there are cards.
    pub open spec fn scrolled_up(self, n: int) -> MainViewModel {
        let last = if self.cards.len() >= 1 {
            self.cards.len() - 1
        } else {
            0
        };
        let to = if self.scroll_offset + n <= last {
            self.scroll_offset + n
        } else {
            last
        };
        MainViewModel { scroll_offset: to as usize, ..self }
    }

    pub open spec fn scrolled_down(self, n: int) -> MainViewModel {
        let to = if self.scroll_offset >= n {
            self.scroll_offset - n
        } else {
            0
        };
        MainViewModel { scroll_offset: to as usize, ..self }
    }

    /// The log after a key.
    pub open spec fn after_key(self, key: KeyEvent) -> MainViewModel {
        if key.kind != KeyEventKind::Press {
            self
        } else {
            match key.code {
                KeyCode::PageUp => self.scrolled_up(5),
                KeyCode::PageDown => self.scrolled_down(5),
                _ => self,
            }
        }
    }

    /// The log after the wheel was turned.
    pub open spec fn after_scroll(self, kind: MouseEventKind) -> MainViewModel {
        match kind {
            MouseEventKind::ScrollUp => self.scrolled_up(3),
            MouseEventKind::ScrollDown => self.scrolled_down(3),
            _ => self,
        }
    }

    /// The card at a point of the area, with cards stacked from the bottom up.
    pub open spec fn card_at(self, area: Rect, point: Rect) -> Option<int> {
        if !inside(area, point) {
            None
        } else {
            let shown = if self.cards.len() >= self.scroll_offset {
                self.cards.len() - self.scroll_offset
            } else {
                0
            };
            stacked_card_at(self.cards, shown, plus(area.y, area.height) as int, area, point)
        }
    }

    /// The cards that fit into the area, from the bottom up, each with its
    /// place.
    pub open spec fn card_places(self, area: Rect) -> Seq<(int, Rect)> {
        let shown = if self.cards.len() >= self.scroll_offset {
            self.cards.len() - self.scroll_offset
        } else {
            0
        };
        stacked_places(self.cards, shown, plus(area.y, area.height) as int, area)
    }
}

/// The first `n` cards stacked upwards from row `y`, as far as there is room.
pub open spec fn stacked_places(cards: Seq<CardModel>, n: int, y: int, area: Rect) -> Seq<
    (int, Rect),
>
    decreases n,
{
    if n <= 0 || n > cards.len() {
        Seq::empty()
    } else {
        let room = y - area.y;
        let h = if card_height(cards[n - 1]) <= room {
            card_height(cards[n - 1]) as int
        } else {
            room
        };
        let top = y - h;
        if h <= 0 {
            Seq::empty()
        } else {
            let place = Rect { x: area.x, y: top as u16, width: area.width, height: h as u16 };
            seq![(n - 1, place)] + if top <= area.y {
                Seq::empty()
            } else {
                stacked_places(cards, n - 1, top, area)
            }
        }
    }
}

/// The places as positions and areas.
pub open spec fn places(v: Seq<(usize, Rect)>) -> Seq<(int, Rect)> {
    v.map_values(|p: (usize, Rect)| (p.0 as int, p.1))
}

/// The card at a point, of the first `n` cards stacked upwards from row `y`.
pub open spec fn stacked_card_at(
    cards: Seq<CardModel>,
    n: int,
    y: int,
    area: Rect,
    point: Rect,
) -> Option<int>
    decreases n,
{
    if n <= 0 || n > cards.len() {
        None
    } else {
        let room = y - area.y;
        let h = if card_height(cards[n - 1]) <= room {
            card_height(cards[n - 1]) as int
        } else {
            room
        };
        let top = y - h;
        if h <= 0 {
            None
        } else if inside(
            Rect { x: area.x, y: top as u16, width: area.width, height: h as u16 },
            point,
        ) {
            Some(n - 1)
        } else if top <= area.y {
            None
        } else {
            stacked_card_at(cards, n - 1, top, area, point)
        }
    }
}

proof fn lemma_place_added(v: Seq<(usize, Rect)>, p: (usize, Rect), rest: Seq<(int, Rect)>)
    ensures
        places(v) + (seq![(p.0 as int, p.1)] + rest) == places(v.push(p)) + rest,
{
    assert(places(v.push(p)) =~= places(v).push((p.0 as int, p.1)));
    assert(places(v) + (seq![(p.0 as int, p.1)] + rest) =~= places(v).push((p.0 as int, p.1))
        + rest);
}

/// The action that a key asks for in the command log.
pub open spec fn log_key_action(key: KeyEvent) -> Option<ActionModel> {
    if key.kind == KeyEventKind::Press && key.code == KeyCode::Char('b') && key.modifiers.control {
        Some(ActionModel::ToggleSidebar)
    } else {
        None
    }
}

impl MainView {
    pub fn new() -> (r: MainView)
        ensures
            r@ == (MainViewModel { mode: Mode::Job, cards: Seq::empty(), scroll_offset: 0 }),
    {
        let r = MainView { mode: Mode::Job, cards: Vec::new(), scroll_offset: 0 };
        assert(card_models(r.cards@) =~= Seq::<CardModel>::empty());
        r
    }

    /// Adds a card for a command and shows it.
    pub fn push_card(&mut self, input: String, mode: Mode) -> (r: usize)
        ensures
            r == old(self)@.cards.len(),
            final(self)@ == old(self)@.push(new_card(input@, mode)),
    {
        let index: usize = self.cards.len();
        let card = Card::new(input, mode);
        proof {
            assert(card_models(self.cards@.push(card)) =~= card_models(self.cards@).push(card@));
        }
        self.cards.push(card);
        self.scroll_offset = 0;
        index
    }

    pub fn set_card_output(&mut self, index: usize, data: String)
        ensures
            final(self)@ == old(self)@.with_output(index as int, data@),
    {
        if index < self.cards.len() {
            let ghost before = self.cards@;
            self.cards[index].output = data;
            assert(card_models(self.cards@) =~= card_models(before).update(
                index as int,
                self.cards@[index as int]@,
            ));
        }
    }

    pub fn append_card_output(&mut self, index: usize, data: &str)
        ensures
            final(self)@ == old(self)@.with_output(
                index as int,
                old(self)@.cards[index as int].output + data@,
            ),
    {
        if index < self.cards.len() {
            let ghost before = self.cards@;
            self.cards[index].output.append(data);
            assert(card_models(self.cards@) =~= card_models(before).update(
                index as int,
                self.cards@[index as int]@,
            ));
        }
    }

    pub fn set_card_status(&mut self, index: usize, status: CardStatus)
        ensures
            final(self)@ == old(self)@.with_status(index as int, status),
    {
        if index < self.cards.len() {
            let ghost before = self.cards@;
            self.cards[index].status = status;
            assert(card_models(self.cards@) =~= card_models(before).update(
                index as int,
                self.cards@[index as int]@,
            ));
        }
    }

    pub fn set_card_label(&mut self, index: usize, label: String)
        ensures
            final(self)@ == old(self)@.with_label(index as int, label@),
    {
        if index < self.cards.len() {
            let ghost before = self.cards@;
            self.cards[index].label = Some(label);
            assert(card_models(self.cards@) =~= card_models(before).update(
                index as int,
                self.cards@[index as int]@,
            ));
        }
    }

    pub fn set_card_chain_label(&mut self, index: usize, label: String)
        ensures
            final(self)@ == old(self)@.with_chain_label(index as int, label@),
    {
        if index < self.cards.len() {
            let ghost before = self.cards@;
            self.cards[index].chain_label = Some(label);
            assert(card_models(self.cards@) =~= card_models(before).update(
                index as int,
                self.cards@[index as int]@,
            ));
        }
    }

    pub fn clear_all(&mut self)
        ensures
            final(self)@ == old(self)@.cleared(),
    {
        self.cards = Vec::new();
        self.scroll_offset = 0;
        assert(card_models(self.cards@) =~= Seq::<CardModel>::empty());
    }

    /// Scrolls so that a card is the lowest that is shown.
    pub fn scroll_to_card(&mut self, index: usize)
        ensures
            final(self)@ == if index < old(self)@.cards.len() {
                MainViewModel {
                    scroll_offset: (old(self)@.cards.len() - index - 1) as usize,
                    ..old(self)@
                }
            } else {
                old(self)@
            },
    {
        if index < self.cards.len() {
            self.scroll_offset = self.cards.len() - index - 1;
        }
    }

    /// The cards that fit into the area, from the bottom up, each with its
    /// place.
    pub fn card_areas(&self, area: Rect) -> (r: Vec<(usize, Rect)>)
        ensures
            places(r@) == self@.card_places(area),
    {
        let ghost cards = card_models(self.cards@);
        let ghost all = self@.card_places(area);
        let bottom: u32 = area.y as u32 + area.height as u32;
        let mut y: u32 = if bottom <= 65535 {
            bottom
        } else {
            65535
        };
        let mut n: usize = if self.cards.len() >= self.scroll_offset {
            self.cards.len() - self.scroll_offset
        } else {
            0
        };
        let mut r: Vec<(usize, Rect)> = Vec::new();
        assert(places(r@) + all =~= all);
        while n > 0
            invariant
                n <= self.cards@.len(),
                area.y <= y <= 65535,
                cards == card_models(self.cards@),
                all == self@.card_places(area),
                all == places(r@) + stacked_places(cards, n as int, y as int, area),
            decreases n,
        {
            let wanted = self.cards[n - 1].height();
            assert(cards[n - 1] == self.cards@[n - 1]@);
            let room: u32 = y - area.y as u32;
            let h: u32 = if wanted <= room {
                wanted
            } else {
                room
            };
            if h == 0 {
                assert(places(r@) =~= all);
                return r;
            }
            let top: u32 = y - h;
            let place = Rect::new(area.x, top as u16, area.width, h as u16);
            proof {
                let rest = if top <= area.y {
                    Seq::empty()
                } else {
                    stacked_places(cards, n - 1, top as int, area)
                };
                lemma_place_added(r@, ((n - 1) as usize, place), rest);
            }
            r.push((n - 1, place));
            if top <= area.y as u32 {
                assert(places(r@) =~= all);
                return r;
            }
            y = top;
            n = n - 1;
        }
        assert(places(r@) =~= all);
        r
    }

    /// The card at a point of the area.
    pub fn card_at_point(&self, area: Rect, point: Rect) -> (r: Option<usize>)
        ensures
            match r {
                Some(i) => self@.card_at(area, point) == Some(i as int) && i < self@.cards.len(),
                None => self@.card_at(area, point) is None,
            },
    {
        if !contains(area, point) {
            return None;
        }
        let ghost cards = card_models(self.cards@);
        let bottom: u32 = area.y as u32 + area.height as u32;
        let mut y: u32 = if bottom <= 65535 {
            bottom
        } else {
            65535
        };
        let mut n: usize = if self.cards.len() >= self.scroll_offset {
            self.cards.len() - self.scroll_offset
        } else {
            0
        };
        while n > 0
            invariant
                n <= self.cards@.len(),
                area.y <= y <= 65535,
                cards == card_models(self.cards@),
                self@.card_at(area, point) == stacked_card_at(cards, n as int, y as int, area, point),
            decreases n,
        {
            let wanted = self.cards[n - 1].height();
            assert(cards[n - 1] == self.cards@[n - 1]@);
            let room: u32 = y - area.y as u32;
            let h: u32 = if wanted <= room {
                wanted
            } else {
                room
            };
            if h == 0 {
                return None;
            }
            let top: u32 = y - h;
            if contains(Rect::new(area.x, top as u16, area.width, h as u16), point) {
                return Some(n - 1);
            }
            if top <= area.y as u32 {
                return None;
            }
            y = top;
            n = n - 1;
        }
        None
    }

    fn scroll_up(&mut self, n: usize)
        ensures
            final(self)@ == old(self)@.scrolled_up(n as int),
    {
        let last: usize = if self.cards.len() >= 1 {
            self.cards.len() - 1
        } else {
            0
        };
        self.scroll_offset = if self.scroll_offset >= last || last - self.scroll_offset < n {
            last
        } else {
            self.scroll_offset + n
        };
    }

    fn scroll_down(&mut self, n: usize)
        ensures
            final(self)@ == old(self)@.scrolled_down(n as int),
    {
        self.scroll_offset = if self.scroll_offset >= n {
            self.scroll_offset - n
        } else {
            0
        };
    }

    pub fn update(&mut self, msg: MainViewMsg)
        ensures
            final(self)@ == match msg {
                MainViewMsg::SetMode(mode) => MainViewModel { mode, ..old(self)@ },
                MainViewMsg::PushCard(card) => old(self)@.push(card@),
                MainViewMsg::AppendOutput { data } => old(self)@.with_appended(data@),
                MainViewMsg::SetLatestOutput(data) => old(self)@.with_output(
                    old(self)@.cards.len() - 1,
                    data@,
                ),
                MainViewMsg::SetLatestStatus(status) => old(self)@.with_status(
                    old(self)@.cards.len() - 1,
                    status,
                ),
                MainViewMsg::SetLatestLabel(label) => old(self)@.with_label(
                    old(self)@.cards.len() - 1,
                    label@,
                ),
                MainViewMsg::SetCardChainLabel { index, label } => old(self)@.with_chain_label(
                    index as int,
                    label@,
                ),
            },
    {
        let count: usize = self.cards.len();
        match msg {
            MainViewMsg::SetMode(mode) => {
                self.mode = mode;
            },
            MainViewMsg::PushCard(card) => {
                proof {
                    assert(card_models(self.cards@.push(card)) =~= card_models(self.cards@).push(
                        card@,
                    ));
                }
                self.cards.push(card);
                self.scroll_offset = 0;
            },
            MainViewMsg::AppendOutput { data } => {
                if count > 0 {
                    let ghost before = self.cards@;
                    self.cards[count - 1].output.append(data.as_str());
                    self.cards[count - 1].status = CardStatus::Streaming;
                    assert(card_models(self.cards@) =~= card_models(before).update(
                        count - 1,
                        self.cards@[count - 1]@,
                    ));
                }
            },
            MainViewMsg::SetLatestOutput(data) => {
                if count > 0 {
                    self.set_card_output(count - 1, data);
                }
            },
            MainViewMsg::SetLatestStatus(status) => {
                if count > 0 {
                    self.set_card_status(count - 1, status);
                }
            },
            MainViewMsg::SetLatestLabel(label) => {
                if count > 0 {
                    self.set_card_label(count - 1, label);
                }
            },
            MainViewMsg::SetCardChainLabel { index, label } => {
                self.set_card_chain_label(index, label);
            },
        }
    }

    pub fn handle_key(&mut self, key: KeyEvent) -> (r: Option<UserAction>)
        ensures
            final(self)@ == old(self)@.after_key(key),
            opt_action(r) == log_key_action(key),
    {
        if key.kind != KeyEventKind::Press {
            return None;
        }
        match key.code {
            KeyCode::PageUp => {
                self.scroll_up(5);
                None
            },
            KeyCode::PageDown => {
                self.scroll_down(5);
                None
            },
            KeyCode::Char(c) => {
                if c == 'b' && key.modifiers.control {
                    Some(UserAction::ToggleSidebar)
                } else {
                    None
                }
            },
            _ => None,
        }
    }

    /// Scrolls with the wheel.
    pub fn handle_scroll(&mut self, kind: MouseEventKind)
        ensures
            final(self)@ == old(self)@.after_scroll(kind),
    {
        match kind {
            MouseEventKind::ScrollUp => {
                self.scroll_up(3);
            },
            MouseEventKind::ScrollDown => {
                self.scroll_down(3);
            },
            _ => {},
        }
    }
}

/// The label of a chain step, counted from one.
pub open spec fn chain_step(chain_id: Text, step_index: int, total: int) -> Text {
    "chain:"@ + chain_id + "/"@ + text::decimal((step_index + 1) as nat) + "/"@ + text::decimal(total as nat)
}

/// Formats a chain step label, e.g. `chain:CH1/1/3`.
pub fn chain_step_label(chain_id: &str, step_index: usize, total: usize) -> (r: String)
    ensures
        r@ == chain_step(chain_id@, step_index as int, total as int),
{
    let mut r = text::concat4("chain:", chain_id, "/", text::decimal_after(step_index).as_str());
    r.append("/");
    r.append(text::decimal_usize(total).as_str());
    r
}

proof fn lemma_stacked_hit(
    cards: Seq<CardModel>,
    n: int,
    y: int,
    area: Rect,
    point: Rect,
    k: int,
)
    requires
        area.y <= y <= 65535,
        0 <= k < stacked_places(cards, n, y, area).len(),
    ensures
        stacked_places(cards, n, y, area)[k].1.y + stacked_places(cards, n, y, area)[k].1.height
            <= y,
        inside(stacked_places(cards, n, y, area)[k].1, point) ==> stacked_card_at(
            cards,
            n,
            y,
            area,
            point,
        ) == Some(stacked_places(cards, n, y, area)[k].0),
    decreases n,
{
    let all = stacked_places(cards, n, y, area);
    if k > 0 {
        let room = y - area.y;
        let h = if card_height(cards[n - 1]) <= room {
            card_height(cards[n - 1]) as int
        } else {
            room
        };
        let rest = stacked_places(cards, n - 1, y - h, area);
        assert(all[k] == rest[k - 1]);
        lemma_stacked_hit(cards, n - 1, y - h, area, point, k - 1);
    }
}

/// A click on a card hits the card that is drawn there.
pub proof fn lemma_click_hits_drawn_card(s: MainViewModel, area: Rect, point: Rect, k: int)
    requires
        0 <= k < s.card_places(area).len(),
        inside(area, point),
        inside(s.card_places(area)[k].1, point),
    ensures
        s.card_at(area, point) == Some(s.card_places(area)[k].0),
{
    let shown = if s.cards.len() >= s.scroll_offset {
        s.cards.len() - s.scroll_offset
    } else {
        0
    };
    lemma_stacked_hit(s.cards, shown, plus(area.y, area.height) as int, area, point, k);
}

} // verus!
