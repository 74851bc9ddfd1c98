//! The search box model: the text the user is composing, edited one key at a
//! time by the interactive loop.

use vstd::prelude::*;

verus! {

/// Relies on `String::pop`: removes and returns the last character; on an
/// empty string it returns `None` and changes nothing.
pub assume_specification[ String::pop ](s: &mut String) -> (r: Option<char>)
    ensures
        old(s)@.len() == 0 ==> final(s)@ == old(s)@ && r is None,
        old(s)@.len() > 0 ==> final(s)@ == old(s)@.drop_last() && r == Some(old(s)@.last()),
;

/// A line of text under composition.
pub struct Input {
    pub value: String,
}

impl Input {
    /// An empty line.
    pub fn new() -> (r: Self)
        ensures
            r.value@ == Seq::<char>::empty(),
    {
        Self { value: String::new() }
    }

    /// A typed character goes to the end of the line.
    pub fn push_char(&mut self, c: char)
        ensures
            final(self).value@ == old(self).value@.push(c),
    {
        self.value.push(c);
    }

    /// Backspace removes the last character; on an empty line it does
    /// nothing.
    pub fn backspace(&mut self)
        ensures
            old(self).value@.len() == 0 ==> final(self).value@ == old(self).value@,
            old(self).value@.len() > 0 ==> final(self).value@ == old(self).value@.drop_last(),
    {
        let _ = self.value.pop();
    }
}

} // verus!
