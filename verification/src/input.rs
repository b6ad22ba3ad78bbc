//! A single-line text input (search, new note, rename, …). `masked`
//! changes only how the value is drawn (as `*`s, for a passphrase), never
//! how it is stored or edited.
use vstd::prelude::*;
use crate::text::{chars_of, string_of};

verus! {

broadcast use vstd::string::group_string_axioms;

#[derive(Debug, Clone)]
pub struct InputBox {
    pub value: String,
    pub masked: bool,
}

/// The value after a backspace: its last character gone, if it has one.
pub open spec fn spec_backspace(v: Seq<char>) -> Seq<char> {
    if v.len() > 0 {
        v.drop_last()
    } else {
        v
    }
}

impl InputBox {
    /// Types `c` at the end of the value.
    pub fn push(&mut self, c: char)
        ensures
            final(self).value@ == old(self).value@.push(c),
            final(self).masked == old(self).masked,
    {
        let mut v = chars_of(self.value.as_str());
        v.push(c);
        self.value = string_of(&v);
    }

    /// Deletes the last character of the value, if there is one.
    pub fn backspace(&mut self)
        ensures
            final(self).value@ == spec_backspace(old(self).value@),
            final(self).masked == old(self).masked,
    {
        let mut v = chars_of(self.value.as_str());
        if v.len() > 0 {
            v.pop();
        }
        self.value = string_of(&v);
    }

    /// Empties the value.
    pub fn clear(&mut self)
        ensures
            final(self).value@ == Seq::<char>::empty(),
            final(self).masked == old(self).masked,
    {
        self.value = String::new();
    }
}

impl Default for InputBox {
    fn default() -> (r: Self)
        ensures
            r.value@ == Seq::<char>::empty(),
            !r.masked,
    {
        InputBox { value: String::new(), masked: false }
    }
}

/// A backspace takes back exactly the character just typed.
pub proof fn lemma_backspace_undoes_push(v: Seq<char>, c: char)
    ensures
        spec_backspace(v.push(c)) == v,
{
    assert(v.push(c).drop_last() =~= v);
}

} // verus!
