//! Dense 1-based identifiers of the four arenas.
//!
//! The value 0 is never an id, so that an absent id needs no extra bit.

use vstd::prelude::*;

verus! {

/// The largest number of slots an arena addressed by 16-bit ids can hold.
pub const MAX_WIDE_SLOTS: usize = 0xFFFF;

/// The largest number of slots an arena addressed by 8-bit ids can hold.
pub const MAX_NARROW_SLOTS: usize = 0xFF;

/// Identifies a slot of the rules arena.
#[derive(Debug, Clone, Copy, PartialEq, Eq, Structural)]
pub struct RuleId(u16);

/// Identifies a slot of the regexes arena.
#[derive(Debug, Clone, Copy)]
pub struct RegexId(u16);

/// Identifies a slot of the partial regexes arena.
#[derive(Debug, Clone, Copy)]
pub struct PartialRegexId(u16);

/// Identifies a slot of the repositories arena.
#[derive(Debug, Clone, Copy)]
pub struct RepositoryId(u8);

impl View for RuleId {
    type V = nat;

    /// The id as a number, which is at least 1.
    closed spec fn view(&self) -> nat {
        self.0 as nat
    }
}

impl DeepView for RuleId {
    type V = nat;

    open spec fn deep_view(&self) -> nat {
        self@
    }
}

impl RuleId {
    #[verifier::type_invariant]
    spec fn nonzero(self) -> bool {
        self.0 >= 1
    }

    /// The index of the slot that this id names.
    pub fn to_idx(self) -> (idx: usize)
        ensures
            idx + 1 == self@,
            idx < MAX_WIDE_SLOTS,
    {
        proof {
            use_type_invariant(self);
        }
        (self.0 - 1) as usize
    }

    /// The id of the slot at `idx`.
    pub fn from_idx(idx: usize) -> (id: Self)
        requires
            idx < MAX_WIDE_SLOTS,
        ensures
            id@ == idx + 1,
    {
        RuleId((idx + 1) as u16)
    }

    /// The id as a number.
    pub fn get(self) -> (n: u16)
        ensures
            n == self@,
            n >= 1,
    {
        proof {
            use_type_invariant(self);
        }
        self.0
    }
}

impl View for RegexId {
    type V = nat;

    /// The id as a number, which is at least 1.
    closed spec fn view(&self) -> nat {
        self.0 as nat
    }
}

impl DeepView for RegexId {
    type V = nat;

    open spec fn deep_view(&self) -> nat {
        self@
    }
}

impl RegexId {
    #[verifier::type_invariant]
    spec fn nonzero(self) -> bool {
        self.0 >= 1
    }

    /// The index of the slot that this id names.
    pub fn to_idx(self) -> (idx: usize)
        ensures
            idx + 1 == self@,
            idx < MAX_WIDE_SLOTS,
    {
        proof {
            use_type_invariant(self);
        }
        (self.0 - 1) as usize
    }

    /// The id of the slot at `idx`.
    pub fn from_idx(idx: usize) -> (id: Self)
        requires
            idx < MAX_WIDE_SLOTS,
        ensures
            id@ == idx + 1,
    {
        RegexId((idx + 1) as u16)
    }

    /// The id as a number.
    pub fn get(self) -> (n: u16)
        ensures
            n == self@,
            n >= 1,
    {
        proof {
            use_type_invariant(self);
        }
        self.0
    }
}

impl View for PartialRegexId {
    type V = nat;

    /// The id as a number, which is at least 1.
    closed spec fn view(&self) -> nat {
        self.0 as nat
    }
}

impl DeepView for PartialRegexId {
    type V = nat;

    open spec fn deep_view(&self) -> nat {
        self@
    }
}

impl PartialRegexId {
    #[verifier::type_invariant]
    spec fn nonzero(self) -> bool {
        self.0 >= 1
    }

    /// The index of the slot that this id names.
    pub fn to_idx(self) -> (idx: usize)
        ensures
            idx + 1 == self@,
            idx < MAX_WIDE_SLOTS,
    {
        proof {
            use_type_invariant(self);
        }
        (self.0 - 1) as usize
    }

    /// The id of the slot at `idx`.
    pub fn from_idx(idx: usize) -> (id: Self)
        requires
            idx < MAX_WIDE_SLOTS,
        ensures
            id@ == idx + 1,
    {
        PartialRegexId((idx + 1) as u16)
    }

    /// The id as a number.
    pub fn get(self) -> (n: u16)
        ensures
            n == self@,
            n >= 1,
    {
        proof {
            use_type_invariant(self);
        }
        self.0
    }
}

impl View for RepositoryId {
    type V = nat;

    /// The id as a number, which is at least 1.
    closed spec fn view(&self) -> nat {
        self.0 as nat
    }
}

impl DeepView for RepositoryId {
    type V = nat;

    open spec fn deep_view(&self) -> nat {
        self@
    }
}

impl RepositoryId {
    #[verifier::type_invariant]
    spec fn nonzero(self) -> bool {
        self.0 >= 1
    }

    /// The index of the slot that this id names.
    pub fn to_idx(self) -> (idx: usize)
        ensures
            idx + 1 == self@,
            idx < MAX_NARROW_SLOTS,
    {
        proof {
            use_type_invariant(self);
        }
        (self.0 - 1) as usize
    }

    /// The id of the slot at `idx`.
    pub fn from_idx(idx: usize) -> (id: Self)
        requires
            idx < MAX_NARROW_SLOTS,
        ensures
            id@ == idx + 1,
    {
        RepositoryId((idx + 1) as u8)
    }

    /// The id as a number.
    pub fn get(self) -> (n: u8)
        ensures
            n == self@,
            n >= 1,
    {
        proof {
            use_type_invariant(self);
        }
        self.0
    }
}

} // verus!
