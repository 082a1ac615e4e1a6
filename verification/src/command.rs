//! Parameters that a command carries to its execution.

use vstd::prelude::*;

use crate::parser::token::{Value, ValueModel};
use crate::text;
use crate::text::Text;

verus! {

/// Named parameters; a later value for a name replaces an earlier one.
#[derive(Debug, PartialEq)]
pub struct ModeParams {
    entries: Vec<(String, Value)>,
}

/// The parameters as a mapping from names to values.
pub open spec fn params_map(v: Seq<(Text, ValueModel)>) -> Map<Text, ValueModel>
    decreases v.len(),
{
    if v.len() == 0 {
        Map::empty()
    } else {
        params_map(v.drop_last()).insert(v.last().0, v.last().1)
    }
}

impl View for ModeParams {
    type V = Map<Text, ValueModel>;

    closed spec fn view(&self) -> Map<Text, ValueModel> {
        params_map(crate::parser::ast::param_models(self.entries@))
    }
}

proof fn lemma_last_wins(v: Seq<(Text, ValueModel)>, key: Text, n: int)
    requires
        0 <= n < v.len(),
        v[n].0 == key,
        forall|i: int| n < i < v.len() ==> (#[trigger] v[i]).0 != key,
    ensures
        params_map(v).dom().contains(key),
        params_map(v)[key] == v[n].1,
    decreases v.len(),
{
    if n < v.len() - 1 {
        lemma_last_wins(v.drop_last(), key, n);
    }
}

proof fn lemma_absent(v: Seq<(Text, ValueModel)>, key: Text)
    requires
        forall|i: int| 0 <= i < v.len() ==> (#[trigger] v[i]).0 != key,
    ensures
        !params_map(v).dom().contains(key),
    decreases v.len(),
{
    if v.len() > 0 {
        lemma_absent(v.drop_last(), key);
    }
}

impl ModeParams {
    pub fn new() -> (r: ModeParams)
        ensures
            r@ == Map::<Text, ValueModel>::empty(),
    {
        let entries: Vec<(String, Value)> = Vec::new();
        ModeParams { entries }
    }

    /// The parameters of a parsed command.
    pub fn from_pairs(pairs: Vec<(String, Value)>) -> (r: ModeParams)
        ensures
            r@ == params_map(crate::parser::ast::param_models(pairs@)),
    {
        ModeParams { entries: pairs }
    }

    /// Sets a parameter.
    pub fn insert(&mut self, key: String, value: Value)
        ensures
            final(self)@ == old(self)@.insert(key@, value@),
    {
        proof {
            let before = crate::parser::ast::param_models(self.entries@);
            let after = crate::parser::ast::param_models(self.entries@.push((key, value)));
            assert(after.drop_last() =~= before);
        }
        self.entries.push((key, value));
    }

    pub fn is_empty(&self) -> (r: bool)
        ensures
            r == (self@ == Map::<Text, ValueModel>::empty()),
    {
        proof {
            let m = crate::parser::ast::param_models(self.entries@);
            if m.len() > 0 {
                assert(self@.dom().contains(m.last().0));
            }
        }
        self.entries.len() == 0
    }

    /// The value of a parameter.
    pub fn get(&self, key: &str) -> (r: Option<&Value>)
        ensures
            match r {
                Some(v) => self@.dom().contains(key@) && self@[key@] == v@,
                None => !self@.dom().contains(key@),
            },
    {
        let ghost m = crate::parser::ast::param_models(self.entries@);
        let mut i: usize = self.entries.len();
        while i > 0
            invariant
                i <= self.entries@.len(),
                m == crate::parser::ast::param_models(self.entries@),
                forall|j: int| i <= j < m.len() ==> (#[trigger] m[j]).0 != key@,
            decreases i,
        {
            i = i - 1;
            if text::str_eq(self.entries[i].0.as_str(), key) {
                proof {
                    lemma_last_wins(m, key@, i as int);
                }
                return Some(&self.entries[i].1);
            }
        }
        proof {
            lemma_absent(m, key@);
        }
        None
    }

    /// Whether the job gets a terminal: yes, unless `pty=false` says otherwise.
    pub fn pty_enabled(&self) -> (r: bool)
        ensures
            r == !(self@.dom().contains("pty"@) && self@["pty"@] == ValueModel::Bool(false)),
    {
        match self.get("pty") {
            Some(Value::Bool(b)) => *b,
            _ => true,
        }
    }
}

} // verus!
