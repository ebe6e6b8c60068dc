//! The device-name filter box: a line of typed text that narrows the
//! discovered-device table.

use vstd::prelude::*;

use crate::strings::{pop_char, push_char};

verus! {

/// The filter's state: the typed text, and the filter currently applied
/// (absent until the first edit).
#[derive(Debug)]
pub struct AliasFilter {
    pub filter: Option<String>,
    pub input: String,
}

impl AliasFilter {
    pub fn new() -> (r: Self)
        ensures
            r.filter is None,
            r.input@ == Seq::<char>::empty(),
    {
        AliasFilter { filter: None, input: String::new() }
    }

    /// Types one character and reapplies the filter.
    pub fn insert_char(&mut self, c: char)
        ensures
            final(self).input@ == old(self).input@.push(c),
            final(self).filter matches Some(f) && f@ == final(self).input@,
    {
        push_char(&mut self.input, c);
        self.filter = Some(self.input.clone());
    }

    /// Erases the last character and reapplies the filter.
    pub fn delete_char(&mut self)
        ensures
            final(self).input@ == (if old(self).input@.len() == 0 {
                old(self).input@
            } else {
                old(self).input@.drop_last()
            }),
            final(self).filter matches Some(f) && f@ == final(self).input@,
    {
        let _ = pop_char(&mut self.input);
        self.filter = Some(self.input.clone());
    }
}

} // verus!
