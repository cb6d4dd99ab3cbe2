//! What stops a compilation.

use vstd::prelude::*;
use std::num::ParseIntError;

verus! {

/// A fault of the grammar that is being compiled.
#[derive(Debug)]
pub enum Error {
    /// A rule lies below more than four nested repositories.
    RepositoryStackOverflow,
    /// The key `index` of a captures map does not spell a capture index;
    /// `source` is what `str::parse::<usize>` reported of it.
    UnparseableCaptureIndex { index: String, source: ParseIntError },
}

/// An [`Error`] without its source, which is what std reported of the key.
pub ghost enum Fault {
    RepositoryStackOverflow,
    UnparseableCaptureIndex { index: Seq<char> },
}

impl View for Error {
    type V = Fault;

    open spec fn view(&self) -> Fault {
        match self {
            Error::RepositoryStackOverflow => Fault::RepositoryStackOverflow,
            Error::UnparseableCaptureIndex { index, .. } => Fault::UnparseableCaptureIndex {
                index: index@,
            },
        }
    }
}

/// Why a compilation came to no result.
#[derive(Debug)]
pub enum Halt {
    /// The grammar is at fault.
    Error(Error),
    /// The grammar needs more slots than the ids of an arena can name, or a
    /// captures sequence longer than `usize::MAX`.
    Exhausted,
}

} // verus!
