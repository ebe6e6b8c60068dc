//! A string that is either owned or borrowed from static text, so notices
//! can mix literals and built messages without copying.

use vstd::prelude::*;

verus! {

#[derive(Debug, Clone)]
pub enum StringRef {
    Owned(String),
    Static(&'static str),
}

impl StringRef {
    /// The characters, wherever they live.
    pub open spec fn chars(self) -> Seq<char> {
        match self {
            StringRef::Owned(s) => s@,
            StringRef::Static(s) => s@,
        }
    }

    pub fn as_str(&self) -> (r: &str)
        ensures
            r@ == self.chars(),
    {
        match self {
            StringRef::Owned(s) => s.as_str(),
            StringRef::Static(s) => s,
        }
    }
}

impl From<String> for StringRef {
    fn from(s: String) -> (r: Self) {
        StringRef::Owned(s)
    }
}

impl vstd::std_specs::convert::FromSpecImpl<String> for StringRef {
    open spec fn obeys_from_spec() -> bool {
        true
    }

    open spec fn from_spec(s: String) -> Self {
        StringRef::Owned(s)
    }
}

impl From<&'static str> for StringRef {
    fn from(s: &'static str) -> (r: Self) {
        StringRef::Static(s)
    }
}

impl vstd::std_specs::convert::FromSpecImpl<&'static str> for StringRef {
    open spec fn obeys_from_spec() -> bool {
        true
    }

    open spec fn from_spec(s: &'static str) -> Self {
        StringRef::Static(s)
    }
}

} // verus!
