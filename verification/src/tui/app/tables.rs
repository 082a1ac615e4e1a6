//! Which cards belong to which jobs and chains, and what waits for an answer.

use vstd::prelude::*;
use vstd::string::*;

use crate::text;
use crate::text::Text;
use crate::tui::submission::{PendingModel, PendingSubmission};

verus! {

// ── Cards by key ──

/// Cards by the ID that they belong to; each ID occurs once.
#[derive(Debug)]
pub struct CardTable {
    entries: Vec<(String, usize)>,
}

pub open spec fn entry_models(v: Seq<(String, usize)>) -> Seq<(Text, usize)> {
    v.map_values(|e: (String, usize)| (e.0@, e.1))
}

impl View for CardTable {
    type V = Seq<(Text, usize)>;

    closed spec fn view(&self) -> Seq<(Text, usize)> {
        entry_models(self.entries@)
    }
}

/// The first entry from `i` on with this key.
pub open spec fn entry_from(t: Seq<(Text, usize)>, key: Text, i: int) -> Option<int>
    decreases t.len() - i,
{
    if !(0 <= i < t.len()) {
        None
    } else if t[i].0 == key {
        Some(i)
    } else {
        entry_from(t, key, i + 1)
    }
}

proof fn lemma_entry_from(t: Seq<(Text, usize)>, key: Text, i: int)
    ensures
        entry_from(t, key, i) matches Some(k) ==> 0 <= k < t.len() && t[k].0 == key,
    decreases t.len() - i,
{
    if 0 <= i < t.len() && t[i].0 != key {
        lemma_entry_from(t, key, i + 1);
    }
}

pub open spec fn card_of(t: Seq<(Text, usize)>, key: Text) -> Option<usize> {
    match entry_from(t, key, 0) {
        Some(i) => Some(t[i].1),
        None => None,
    }
}

pub open spec fn with_card_of(t: Seq<(Text, usize)>, key: Text, card: usize) -> Seq<(Text, usize)> {
    match entry_from(t, key, 0) {
        Some(i) => t.update(i, (key, card)),
        None => t.push((key, card)),
    }
}

pub open spec fn without_card_of(t: Seq<(Text, usize)>, key: Text) -> Seq<(Text, usize)> {
    match entry_from(t, key, 0) {
        Some(i) => t.remove(i),
        None => t,
    }
}

/// The first key from `i` on to which a card belongs.
pub open spec fn key_from(t: Seq<(Text, usize)>, card: usize, i: int) -> Option<Text>
    decreases t.len() - i,
{
    if !(0 <= i < t.len()) {
        None
    } else if t[i].1 == card {
        Some(t[i].0)
    } else {
        key_from(t, card, i + 1)
    }
}

impl CardTable {
    pub fn new() -> (r: CardTable)
        ensures
            r@ == Seq::<(Text, usize)>::empty(),
    {
        let r = CardTable { entries: Vec::new() };
        assert(entry_models(r.entries@) =~= Seq::<(Text, usize)>::empty());
        r
    }

    fn position(&self, key: &str) -> (r: Option<usize>)
        ensures
            match r {
                Some(i) => i < self.entries@.len() && entry_from(self@, key@, 0) == Some(i as int),
                None => entry_from(self@, key@, 0) is None,
            },
    {
        let mut i: usize = 0;
        while i < self.entries.len()
            invariant
                i <= self.entries@.len(),
                entry_from(self@, key@, 0) == entry_from(self@, key@, i as int),
            decreases self.entries@.len() - i,
        {
            assert(self@[i as int].0 == self.entries@[i as int].0@);
            if text::str_eq(self.entries[i].0.as_str(), key) {
                return Some(i);
            }
            i = i + 1;
        }
        None
    }

    /// The card of a key.
    pub fn get(&self, key: &str) -> (r: Option<usize>)
        ensures
            r == card_of(self@, key@),
    {
        match self.position(key) {
            Some(i) => Some(self.entries[i].1),
            None => None,
        }
    }

    pub fn insert(&mut self, key: String, card: usize)
        ensures
            final(self)@ == with_card_of(old(self)@, key@, card),
    {
        let ghost before = self.entries@;
        match self.position(key.as_str()) {
            Some(i) => {
                let ghost k = key@;
                self.entries.set(i, (key, card));
                assert(self@ =~= entry_models(before).update(i as int, (k, card)));
            },
            None => {
                let ghost k = key@;
                self.entries.push((key, card));
                assert(self@ =~= entry_models(before).push((k, card)));
            },
        }
    }

    pub fn remove(&mut self, key: &str)
        ensures
            final(self)@ == without_card_of(old(self)@, key@),
    {
        let ghost before = self.entries@;
        if let Some(i) = self.position(key) {
            self.entries.remove(i);
            assert(self@ =~= entry_models(before).remove(i as int));
        }
    }

    pub fn clear(&mut self)
        ensures
            final(self)@ == Seq::<(Text, usize)>::empty(),
    {
        self.entries.clear();
        assert(self@ =~= Seq::<(Text, usize)>::empty());
    }

    /// The key to which a card belongs.
    pub fn key_of(&self, card: usize) -> (r: Option<String>)
        ensures
            text::opt_text(r) == key_from(self@, card, 0),
    {
        let mut i: usize = 0;
        while i < self.entries.len()
            invariant
                i <= self.entries@.len(),
                key_from(self@, card, 0) == key_from(self@, card, i as int),
            decreases self.entries@.len() - i,
        {
            assert(self@[i as int] == (self.entries@[i as int].0@, self.entries@[i as int].1));
            if self.entries[i].1 == card {
                return Some(self.entries[i].0.clone());
            }
            i = i + 1;
        }
        None
    }
}

/// What was put in is found, and other keys keep their cards.
pub proof fn lemma_card_found(t: Seq<(Text, usize)>, key: Text, card: usize, other: Text)
    ensures
        card_of(with_card_of(t, key, card), key) == Some(card),
        other != key ==> card_of(with_card_of(t, key, card), other) == card_of(t, other),
{
    lemma_entry_from(t, key, 0);
    lemma_entry_after(t, key, card, key, 0);
    lemma_entry_after(t, key, card, other, 0);
    lemma_entry_from(t, other, 0);
}

proof fn lemma_entry_after(t: Seq<(Text, usize)>, key: Text, card: usize, other: Text, i: int)
    requires
        0 <= i,
    ensures
        entry_from(with_card_of(t, key, card), other, i) == match entry_from(t, other, i) {
            Some(k) => Some(k),
            None => if other == key && entry_from(t, key, 0) is None && i <= t.len() {
                Some(t.len() as int)
            } else {
                None
            },
        },
    decreases t.len() + 1 - i,
{
    lemma_entry_from(t, key, 0);
    let after = with_card_of(t, key, card);
    if i < after.len() {
        if i < t.len() {
            assert(after[i].0 == t[i].0);
        }
        lemma_entry_after(t, key, card, other, i + 1);
    }
}

// ── Cards of cron triggers ──

/// The card for a job that a cron started.
#[derive(Debug)]
pub struct CronCard {
    pub job_id: String,
    pub cron_id: String,
    pub card: usize,
}

/// A cron card over character sequences.
pub struct CronCardModel {
    pub job_id: Text,
    pub cron_id: Text,
    pub card: usize,
}

impl View for CronCard {
    type V = CronCardModel;

    open spec fn view(&self) -> CronCardModel {
        CronCardModel { job_id: self.job_id@, cron_id: self.cron_id@, card: self.card }
    }
}

pub open spec fn cron_card_models(v: Seq<CronCard>) -> Seq<CronCardModel> {
    v.map_values(|c: CronCard| c@)
}

/// The first cron card from `i` on for this job.
pub open spec fn cron_card_from(t: Seq<CronCardModel>, job_id: Text, i: int) -> Option<int>
    decreases t.len() - i,
{
    if !(0 <= i < t.len()) {
        None
    } else if t[i].job_id == job_id {
        Some(i)
    } else {
        cron_card_from(t, job_id, i + 1)
    }
}

pub open spec fn with_cron_card(t: Seq<CronCardModel>, c: CronCardModel) -> Seq<CronCardModel> {
    match cron_card_from(t, c.job_id, 0) {
        Some(i) => t.update(i, c),
        None => t.push(c),
    }
}

pub open spec fn without_cron_card(t: Seq<CronCardModel>, job_id: Text) -> Seq<CronCardModel> {
    match cron_card_from(t, job_id, 0) {
        Some(i) => t.remove(i),
        None => t,
    }
}

pub fn find_cron_card(t: &Vec<CronCard>, job_id: &str) -> (r: Option<usize>)
    ensures
        match r {
            Some(i) => i < t@.len() && cron_card_from(cron_card_models(t@), job_id@, 0) == Some(
                i as int,
            ),
            None => cron_card_from(cron_card_models(t@), job_id@, 0) is None,
        },
{
    let mut i: usize = 0;
    while i < t.len()
        invariant
            i <= t@.len(),
            cron_card_from(cron_card_models(t@), job_id@, 0) == cron_card_from(
                cron_card_models(t@),
                job_id@,
                i as int,
            ),
        decreases t@.len() - i,
    {
        assert(cron_card_models(t@)[i as int] == t@[i as int]@);
        if text::str_eq(t[i].job_id.as_str(), job_id) {
            return Some(i);
        }
        i = i + 1;
    }
    None
}

pub fn put_cron_card(t: &mut Vec<CronCard>, c: CronCard)
    ensures
        cron_card_models(final(t)@) == with_cron_card(cron_card_models(old(t)@), c@),
{
    let ghost before = t@;
    match find_cron_card(t, c.job_id.as_str()) {
        Some(i) => {
            t.set(i, c);
            assert(cron_card_models(t@) =~= cron_card_models(before).update(i as int, c@));
        },
        None => {
            t.push(c);
            assert(cron_card_models(t@) =~= cron_card_models(before).push(c@));
        },
    }
}

pub fn remove_cron_card(t: &mut Vec<CronCard>, job_id: &str)
    ensures
        cron_card_models(final(t)@) == without_cron_card(cron_card_models(old(t)@), job_id@),
{
    let ghost before = t@;
    if let Some(i) = find_cron_card(t, job_id) {
        t.remove(i);
        assert(cron_card_models(t@) =~= cron_card_models(before).remove(i as int));
    }
}

// ── Requests that wait ──

/// Requests that wait for an answer, by ascending number.
#[derive(Debug)]
pub struct PendingTable {
    entries: Vec<(u32, PendingSubmission)>,
}

pub open spec fn pending_entry_models(v: Seq<(u32, PendingSubmission)>) -> Seq<(u32, PendingModel)> {
    v.map_values(|e: (u32, PendingSubmission)| (e.0, e.1@))
}

impl View for PendingTable {
    type V = Seq<(u32, PendingModel)>;

    closed spec fn view(&self) -> Seq<(u32, PendingModel)> {
        pending_entry_models(self.entries@)
    }
}

/// A request put in its place, or in place of the one with its number.
pub open spec fn pending_inserted(s: Seq<(u32, PendingModel)>, id: u32, p: PendingModel) -> Seq<
    (u32, PendingModel),
>
    decreases s.len(),
{
    if s.len() == 0 || s.last().0 < id {
        s.push((id, p))
    } else if s.last().0 == id {
        s.drop_last().push((id, p))
    } else {
        pending_inserted(s.drop_last(), id, p).push(s.last())
    }
}

/// The first request from `i` on with this number.
pub open spec fn pending_from(s: Seq<(u32, PendingModel)>, id: u32, i: int) -> Option<int>
    decreases s.len() - i,
{
    if !(0 <= i < s.len()) {
        None
    } else if s[i].0 == id {
        Some(i)
    } else {
        pending_from(s, id, i + 1)
    }
}

pub open spec fn pending_with(s: Seq<(u32, PendingModel)>, id: u32) -> Option<PendingModel> {
    match pending_from(s, id, 0) {
        Some(i) => Some(s[i].1),
        None => None,
    }
}

pub open spec fn pending_without(s: Seq<(u32, PendingModel)>, id: u32) -> Seq<(u32, PendingModel)> {
    match pending_from(s, id, 0) {
        Some(i) => s.remove(i),
        None => s,
    }
}

/// The numbers ascend.
pub open spec fn pending_ascend(s: Seq<(u32, PendingModel)>) -> bool {
    forall|i: int, j: int| 0 <= i < j < s.len() ==> (#[trigger] s[i]).0 < (#[trigger] s[j]).0
}

impl PendingTable {
    pub fn new() -> (r: PendingTable)
        ensures
            r@ == Seq::<(u32, PendingModel)>::empty(),
    {
        let r = PendingTable { entries: Vec::new() };
        assert(r@ =~= Seq::<(u32, PendingModel)>::empty());
        r
    }

    pub fn len(&self) -> (r: usize)
        ensures
            r == self@.len(),
    {
        self.entries.len()
    }

    pub fn insert(&mut self, id: u32, p: PendingSubmission)
        ensures
            final(self)@ == pending_inserted(old(self)@, id, p@),
    {
        let ghost before = self@;
        let ghost held = self.entries@;
        let ghost shown = p@;
        let mut at: usize = self.entries.len();
        proof {
            assert(before.take(at as int) =~= before);
            assert(pending_inserted(before, id, shown) =~= pending_inserted(
                before.take(at as int),
                id,
                shown,
            ) + before.skip(at as int));
        }
        while at > 0 && self.entries[at - 1].0 > id
            invariant
                at <= self.entries@.len(),
                self.entries@ == held,
                before == pending_entry_models(held),
                pending_inserted(before, id, shown) == pending_inserted(
                    before.take(at as int),
                    id,
                    shown,
                ) + before.skip(at as int),
            decreases at,
        {
            proof {
                let t = before.take(at as int);
                assert(t.last() == before[at - 1]);
                assert(t.drop_last() =~= before.take(at - 1));
                assert(pending_inserted(before.take(at - 1), id, shown).push(before[at - 1])
                    + before.skip(at as int) =~= pending_inserted(before.take(at - 1), id, shown)
                    + before.skip(at - 1));
            }
            at = at - 1;
        }
        proof {
            if at > 0 {
                assert(before.take(at as int).last() == before[at - 1]);
                assert(before[at - 1].0 == held[at - 1].0);
            }
        }
        if at > 0 && self.entries[at - 1].0 == id {
            self.entries.set(at - 1, (id, p));
            proof {
                let t = before.take(at as int);
                assert(self@ =~= t.drop_last().push((id, shown)) + before.skip(at as int));
            }
        } else {
            self.entries.insert(at, (id, p));
            assert(self@ =~= before.take(at as int).push((id, shown)) + before.skip(at as int));
        }
    }

    /// Takes out the request with this number.
    pub fn take(&mut self, id: u32) -> (r: Option<PendingSubmission>)
        ensures
            final(self)@ == pending_without(old(self)@, id),
            match r {
                Some(p) => pending_with(old(self)@, id) == Some(p@),
                None => pending_with(old(self)@, id) is None,
            },
    {
        let ghost before = self.entries@;
        let mut i: usize = 0;
        while i < self.entries.len()
            invariant
                i <= self.entries@.len(),
                self.entries@ == before,
                self@ == old(self)@,
                pending_from(self@, id, 0) == pending_from(self@, id, i as int),
            decreases self.entries@.len() - i,
        {
            assert(self@[i as int].0 == self.entries@[i as int].0);
            if self.entries[i].0 == id {
                let e = self.entries.remove(i);
                assert(self@ =~= pending_entry_models(before).remove(i as int));
                return Some(e.1);
            }
            i = i + 1;
        }
        None
    }

    /// Takes out the first request.
    pub fn take_first(&mut self) -> (r: Option<PendingSubmission>)
        ensures
            match r {
                Some(p) => old(self)@.len() > 0 && p@ == old(self)@[0].1 && final(self)@ == old(
                    self,
                )@.skip(1),
                None => old(self)@.len() == 0 && final(self)@ == old(self)@,
            },
    {
        if self.entries.len() == 0 {
            return None;
        }
        let ghost before = self.entries@;
        let e = self.entries.remove(0);
        assert(self@ =~= pending_entry_models(before).skip(1));
        Some(e.1)
    }
}

/// Putting a request in keeps the numbers ascending.
pub proof fn lemma_pending_ascend(s: Seq<(u32, PendingModel)>, id: u32, p: PendingModel)
    requires
        pending_ascend(s),
    ensures
        pending_ascend(pending_inserted(s, id, p)),
        forall|k: int|
            0 <= k < pending_inserted(s, id, p).len() ==> ((#[trigger] pending_inserted(s, id, p)[k]).0
                == id || exists|m: int| 0 <= m < s.len() && s[m].0 == pending_inserted(s, id, p)[k].0),
    decreases s.len(),
{
    let r = pending_inserted(s, id, p);
    if s.len() == 0 || s.last().0 < id {
        assert forall|k: int| 0 <= k < r.len() implies ((#[trigger] r[k]).0 == id || exists|m: int|
            0 <= m < s.len() && s[m].0 == r[k].0) by {
            if k < s.len() {
                assert(s[k].0 == r[k].0);
            }
        }
    } else if s.last().0 == id {
        assert forall|k: int| 0 <= k < r.len() implies ((#[trigger] r[k]).0 == id || exists|m: int|
            0 <= m < s.len() && s[m].0 == r[k].0) by {
            if k < s.len() - 1 {
                assert(s[k].0 == r[k].0);
            }
        }
    } else {
        let d = s.drop_last();
        assert(pending_ascend(d)) by {
            assert forall|i: int, j: int| 0 <= i < j < d.len() implies (#[trigger] d[i]).0 < (
            #[trigger] d[j]).0 by {
                assert(s[i].0 < s[j].0);
            }
        }
        lemma_pending_ascend(d, id, p);
        let q = pending_inserted(d, id, p);
        assert forall|i: int, j: int| 0 <= i < j < r.len() implies (#[trigger] r[i]).0 < (
        #[trigger] r[j]).0 by {
            if j < q.len() {
                assert(q[i].0 < q[j].0);
            } else if q[i].0 != id {
                let m = choose|m: int| 0 <= m < d.len() && d[m].0 == q[i].0;
                assert(s[m].0 < s[s.len() - 1].0);
            }
        }
        assert forall|k: int| 0 <= k < r.len() implies ((#[trigger] r[k]).0 == id || exists|m: int|
            0 <= m < s.len() && s[m].0 == r[k].0) by {
            if k < q.len() {
                assert(r[k] == q[k]);
                if q[k].0 != id {
                    let m = choose|m: int| 0 <= m < d.len() && d[m].0 == q[k].0;
                    assert(s[m].0 == r[k].0);
                }
            } else {
                assert(s[s.len() - 1].0 == r[k].0);
            }
        }
    }
}

} // verus!
