//! The job in the foreground and the terminal that shows it.

use vstd::prelude::*;

use crate::text::Text;
use crate::tui::foreground::{
    bytes_of, code_of, emulator_size, given_to, input_models, narrow, screen_after, showable,
    size_after, slim_bytes, FgScreen, ScreenModel, TermInput, TermInputModel, Terminal,
};

verus! {

/// A job in the foreground.
pub struct FgSession {
    id: String,
    card_index: Option<usize>,
    terminal: Terminal,
    given: Vec<TermInput>,
}

/// A session over character and byte sequences.
pub struct FgModel {
    pub id: Text,
    pub card_index: Option<usize>,
    /// What the terminal was given, from its first size on.
    pub given: Seq<TermInputModel>,
}

impl View for FgSession {
    type V = FgModel;

    closed spec fn view(&self) -> FgModel {
        FgModel { id: self.id@, card_index: self.card_index, given: input_models(self.given@) }
    }
}

/// The rows of an emulator: two at least.
pub open spec fn tall(rows: u16) -> u16 {
    if rows >= 2 {
        rows
    } else {
        2
    }
}

/// The columns of an emulator: so many that tab stops can be counted.
pub open spec fn fitting(cols: u16) -> u16 {
    if cols <= u16::MAX - 8 {
        cols
    } else {
        (u16::MAX - 8) as u16
    }
}

/// The columns of an emulator in which every character has room.
pub open spec fn roomy(cols: u16) -> u16 {
    if cols >= 3 {
        cols
    } else {
        3
    }
}

fn tall_rows(rows: u16) -> (r: u16)
    ensures
        r == tall(rows),
{
    if rows >= 2 {
        rows
    } else {
        2
    }
}

fn fitting_cols(cols: u16) -> (r: u16)
    ensures
        r == fitting(cols),
{
    if cols <= u16::MAX - 8 {
        cols
    } else {
        u16::MAX - 8
    }
}

fn roomy_cols(cols: u16) -> (r: u16)
    ensures
        r == roomy(cols),
{
    if cols >= 3 {
        cols
    } else {
        3
    }
}

/// The bytes among the inputs.
pub open spec fn only_bytes(given: Seq<TermInputModel>) -> Seq<TermInputModel>
    decreases given.len(),
{
    if given.len() == 0 {
        Seq::empty()
    } else {
        let before = only_bytes(given.drop_last());
        match given.last() {
            TermInputModel::Size(..) => before,
            TermInputModel::Bytes(_) => before.push(given.last()),
        }
    }
}

/// The size in force is one that an emulator can have.
proof fn lemma_size_in_force(given: Seq<TermInputModel>)
    requires
        showable(given),
    ensures
        emulator_size(size_after(given).0, size_after(given).1),
    decreases given.len(),
{
    if given.len() > 1 {
        lemma_size_in_force(given.drop_last());
    }
}

fn is_slim(first: u8, second: u8, third: u8) -> (r: bool)
    ensures
        r == slim_bytes(first, second, third),
{
    if first < 0xe1 || first > 0xef || second < 0x80 || second > 0xbf || third < 0x80 || third
        > 0xbf {
        return false;
    }
    let code: u32 = (first as u32 - 0xe0) * 0x1000 + (second as u32 - 0x80) * 0x40 + (third as u32
        - 0x80);
    assert(code == code_of(first, second, third));
    0x1000 <= code && code < 0x1100 || 0x1160 <= code && code < 0x17a4 || 0x17a5 <= code && code
        < 0x17d8 || 0x17d9 <= code && code < 0x231a || 0x232b <= code && code < 0x23e9 || 0x2400
        <= code && code < 0x25fd || 0x2600 <= code && code < 0x2614 || 0x2654 <= code && code
        < 0x267f || 0x2700 <= code && code < 0x2705 || 0x270c <= code && code < 0x2728 || 0x2729
        <= code && code < 0x274c || 0x2758 <= code && code < 0x2795 || 0x2798 <= code && code
        < 0x27b0 || 0x27c0 <= code && code < 0x2b1b || 0x2b56 <= code && code < 0x2e80 || 0xe000
        <= code && code < 0xf900 || code == 0xfffd
}

fn is_narrow(data: &Vec<u8>) -> (r: bool)
    ensures
        r == narrow(data@),
{
    let mut i: usize = 0;
    while i < data.len()
        invariant
            i <= data@.len(),
            forall|j: int|
                0 <= j < i ==> (#[trigger] data@[j] < 0xe1 || j + 2 < data@.len() && slim_bytes(
                    data@[j],
                    data@[j + 1],
                    data@[j + 2],
                )),
        decreases data@.len() - i,
    {
        if data[i] >= 0xe1 && (data.len() - i <= 2 || !is_slim(
            data[i],
            data[i + 1],
            data[i + 2],
        )) {
            return false;
        }
        i = i + 1;
    }
    true
}

impl FgModel {
    pub open spec fn started(id: Text, card_index: Option<usize>, cols: u16, rows: u16) -> FgModel {
        FgModel {
            id,
            card_index,
            given: seq![TermInputModel::Size(tall(rows), fitting(cols))],
        }
    }

    /// The rows and columns in force.
    pub open spec fn size(self) -> (u16, u16) {
        size_after(self.given)
    }

    /// Given one thing more.
    pub open spec fn with(self, input: TermInputModel) -> FgModel {
        FgModel { given: self.given.push(input), ..self }
    }

    /// Another terminal of this size that has been given the same bytes.
    pub open spec fn restarted(self, cols: u16, rows: u16) -> FgModel {
        FgModel {
            given: seq![TermInputModel::Size(rows, cols)] + only_bytes(self.given),
            ..self
        }
    }

    /// With another size. A terminal that may show a character of several cells
    /// is not made narrower: another takes its place.
    pub open spec fn resized(self, cols: u16, rows: u16) -> FgModel {
        let (c, r) = (fitting(cols), tall(rows));
        if c >= self.size().1 || narrow(bytes_of(self.given)) {
            self.with(TermInputModel::Size(r, c))
        } else {
            self.restarted(roomy(c), r)
        }
    }

    /// With more bytes. Where they may begin a character that has no room, a
    /// terminal takes over in which it has.
    pub open spec fn fed(self, data: Seq<u8>) -> FgModel {
        let s = if self.size().1 >= 3 || narrow(bytes_of(self.given) + data) {
            self
        } else {
            self.restarted(3, self.size().0)
        };
        s.with(TermInputModel::Bytes(data))
    }

    /// What the terminal shows.
    pub open spec fn screen(self) -> ScreenModel {
        screen_after(self.given)
    }
}

impl FgSession {
    /// The terminal was given what is noted, and can show it.
    pub closed spec fn wf(&self) -> bool {
        &&& given_to(self.terminal) == input_models(self.given@)
        &&& showable(input_models(self.given@))
    }

    pub fn new(id: String, card_index: Option<usize>, cols: u16, rows: u16) -> (r: FgSession)
        requires
            cols >= 1,
        ensures
            r.wf(),
            r@ == FgModel::started(id@, card_index, cols, rows),
    {
        let (c, r) = (fitting_cols(cols), tall_rows(rows));
        let given = vec![TermInput::Size(r, c)];
        assert(input_models(given@) =~= seq![TermInputModel::Size(r, c)]);
        FgSession { id, card_index, terminal: Terminal::open(r, c), given }
    }

    pub fn id(&self) -> (r: &str)
        ensures
            r@ == self@.id,
    {
        self.id.as_str()
    }

    pub fn card_index(&self) -> (r: Option<usize>)
        ensures
            r == self@.card_index,
    {
        self.card_index
    }

    /// The rows and columns in force.
    fn size(&self) -> (r: (u16, u16))
        ensures
            r == self@.size(),
    {
        let ghost all = input_models(self.given@);
        let mut n: usize = self.given.len();
        assert(all.take(n as int) =~= all);
        while n > 0
            invariant
                n <= self.given@.len(),
                all == input_models(self.given@),
                self@.size() == size_after(all.take(n as int)),
            decreases n,
        {
            assert(all.take(n as int).last() == self.given@[n - 1]@);
            assert(all.take(n as int).drop_last() =~= all.take(n - 1));
            if let TermInput::Size(rows, cols) = &self.given[n - 1] {
                return (*rows, *cols);
            }
            n = n - 1;
        }
        (0, 0)
    }

    /// All bytes that the terminal was given.
    fn bytes(&self) -> (r: Vec<u8>)
        ensures
            r@ == bytes_of(self@.given),
    {
        let ghost all = input_models(self.given@);
        let mut out: Vec<u8> = Vec::new();
        let mut i: usize = 0;
        assert(out@ =~= bytes_of(all.take(0)));
        while i < self.given.len()
            invariant
                i <= self.given@.len(),
                all == input_models(self.given@),
                out@ == bytes_of(all.take(i as int)),
            decreases self.given@.len() - i,
        {
            assert(all.take(i + 1).last() == self.given@[i as int]@);
            assert(all.take(i + 1).drop_last() =~= all.take(i as int));
            if let TermInput::Bytes(data) = &self.given[i] {
                out.extend_from_slice(data.as_slice());
            }
            i = i + 1;
        }
        assert(all.take(i as int) =~= all);
        out
    }

    /// Lets a terminal of this size take over.
    fn restart(&mut self, cols: u16, rows: u16)
        requires
            emulator_size(rows, cols),
            cols >= 3,
        ensures
            final(self).wf(),
            final(self)@ == old(self)@.restarted(cols, rows),
            final(self)@.size() == (rows, cols),
    {
        let mut rest: Vec<TermInput> = Vec::new();
        std::mem::swap(&mut rest, &mut self.given);
        let ghost all = rest@;
        let ghost models = input_models(all);
        let ghost first = seq![TermInputModel::Size(rows, cols)];
        let n: usize = rest.len();
        let mut terminal = Terminal::open(rows, cols);
        let mut kept: Vec<TermInput> = vec![TermInput::Size(rows, cols)];
        let mut i: usize = 0;
        assert(models.take(0) =~= Seq::<TermInputModel>::empty());
        assert(input_models(kept@) =~= first);
        assert(first + only_bytes(models.take(0)) =~= first);
        assert(all.skip(0) =~= all);
        while i < n
            invariant
                i <= n,
                n == all.len(),
                cols >= 3,
                rest@ == all.skip(i as int),
                models == input_models(all),
                first == seq![TermInputModel::Size(rows, cols)],
                input_models(kept@) == first + only_bytes(models.take(i as int)),
                given_to(terminal) == input_models(kept@),
                showable(input_models(kept@)),
                size_after(input_models(kept@)) == (rows, cols),
            decreases n - i,
        {
            let input = rest.remove(0);
            let ghost before = input_models(kept@);
            proof {
                assert(rest@ =~= all.skip(i + 1));
                assert(models.take(i + 1).drop_last() =~= models.take(i as int));
                assert(models.take(i + 1).last() == input@);
                assert(input_models(kept@.push(input)) =~= before.push(input@));
                assert(before.push(input@).drop_last() =~= before);
            }
            if let TermInput::Bytes(data) = &input {
                assert(first + only_bytes(models.take(i as int)).push(input@) =~= before.push(
                    input@,
                ));
                terminal.process(data);
                kept.push(input);
            }
            i = i + 1;
        }
        assert(models.take(i as int) =~= models);
        self.given = kept;
        self.terminal = terminal;
    }

    /// Gives the terminal another size.
    pub fn resize(&mut self, cols: u16, rows: u16)
        requires
            old(self).wf(),
            cols >= 1,
        ensures
            final(self).wf(),
            final(self)@ == old(self)@.resized(cols, rows),
    {
        let c = fitting_cols(cols);
        let r = tall_rows(rows);
        let ghost before = input_models(self.given@);
        let (_, in_force) = self.size();
        if c >= in_force || is_narrow(&self.bytes()) {
            let size = TermInput::Size(r, c);
            assert(before.push(size@).drop_last() =~= before);
            self.terminal.set_size(r, c);
            self.given.push(size);
            assert(input_models(self.given@) =~= before.push(size@));
        } else {
            self.restart(roomy_cols(c), r);
        }
    }

    /// Gives the terminal bytes to show.
    pub fn feed(&mut self, data: Vec<u8>)
        requires
            old(self).wf(),
        ensures
            final(self).wf(),
            final(self)@ == old(self)@.fed(data@),
    {
        let (rows, cols) = self.size();
        proof {
            lemma_size_in_force(self@.given);
        }
        if cols < 3 {
            let mut all = self.bytes();
            all.extend_from_slice(data.as_slice());
            assert(all@ =~= bytes_of(self@.given) + data@);
            if !is_narrow(&all) {
                self.restart(3, rows);
            }
        }
        let ghost before = input_models(self.given@);
        assert(before.push(TermInputModel::Bytes(data@)).drop_last() =~= before);
        self.terminal.process(&data);
        let bytes = TermInput::Bytes(data);
        self.given.push(bytes);
        assert(input_models(self.given@) =~= before.push(bytes@));
    }

    /// What the terminal shows.
    pub fn screen(&self) -> (r: FgScreen)
        requires
            self.wf(),
        ensures
            r@ == self@.screen(),
    {
        FgScreen {
            application_cursor: self.terminal.application_cursor(),
            bracketed_paste: self.terminal.bracketed_paste(),
            alternate_screen: self.terminal.alternate_screen(),
            contents: self.terminal.contents(),
            formatted: self.terminal.contents_formatted(),
        }
    }
}

} // verus!
