//! Scope names of the compiled form.

use vstd::prelude::*;
use vstd::std_specs::convert::FromSpecImpl;
use crate::parse;

verus! {

/// A scope name, or the name of a rule in a repository.
#[derive(Debug, Clone)]
pub struct ScopeName(pub String);

impl View for ScopeName {
    type V = Seq<char>;

    open spec fn view(&self) -> Seq<char> {
        self.0@
    }
}

impl DeepView for ScopeName {
    type V = Seq<char>;

    open spec fn deep_view(&self) -> Seq<char> {
        self@
    }
}

impl From<parse::ScopeName> for ScopeName {
    fn from(value: parse::ScopeName) -> (name: Self) {
        ScopeName(value.0)
    }
}

impl FromSpecImpl<parse::ScopeName> for ScopeName {
    open spec fn obeys_from_spec() -> bool {
        true
    }

    open spec fn from_spec(value: parse::ScopeName) -> Self {
        ScopeName(value.0)
    }
}

} // verus!
