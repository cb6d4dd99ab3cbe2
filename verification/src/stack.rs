//! The repositories that a rule can see.

use vstd::prelude::*;
use crate::error::Error;
use crate::ids::RepositoryId;

verus! {

/// How many repositories may be nested around one rule.
pub const MAX_REPOSITORY_STACK_DEPTH: usize = 4;

/// The chain of repositories that are visible from a rule, outermost first.
///
/// It holds at most [`MAX_REPOSITORY_STACK_DEPTH`] entries in place and is
/// copied whenever the compiler descends into a rule.
#[derive(Debug, Clone, Copy)]
pub struct RepositoryStack {
    stack: [Option<RepositoryId>; 4],
    capacity: u8,
}

impl View for RepositoryStack {
    type V = Seq<nat>;

    /// The ids on the stack, outermost first.
    closed spec fn view(&self) -> Seq<nat> {
        Seq::new(
            self.capacity as nat,
            |i: int|
                match self.stack@[i] {
                    Some(id) => id@,
                    None => 0,
                },
        )
    }
}

impl DeepView for RepositoryStack {
    type V = Seq<nat>;

    open spec fn deep_view(&self) -> Seq<nat> {
        self@
    }
}

impl RepositoryStack {
    #[verifier::type_invariant]
    spec fn well_formed(self) -> bool {
        &&& self.capacity <= MAX_REPOSITORY_STACK_DEPTH
        &&& forall|i: int| 0 <= i < self.capacity ==> self.stack@[i] is Some
        &&& forall|i: int| self.capacity <= i < MAX_REPOSITORY_STACK_DEPTH ==> self.stack@[i] is None
    }

    /// The stack of a rule that no repository surrounds.
    pub fn empty() -> (stack: Self)
        ensures
            stack@ == Seq::<nat>::empty(),
    {
        let stack = RepositoryStack { stack: [None, None, None, None], capacity: 0 };
        assert(stack@ =~= Seq::<nat>::empty());
        stack
    }

    /// The number of entries.
    pub fn len(&self) -> (len: usize)
        ensures
            len == self@.len(),
            len <= MAX_REPOSITORY_STACK_DEPTH,
    {
        proof {
            use_type_invariant(self);
        }
        self.capacity as usize
    }

    /// The entry at `position`, counted from the outermost.
    pub fn get(&self, position: usize) -> (id: Option<RepositoryId>)
        ensures
            match id {
                Some(id) => position < self@.len() && id@ == self@[position as int],
                None => position >= self@.len(),
            },
    {
        proof {
            use_type_invariant(self);
        }
        if position < self.capacity as usize {
            self.stack[position]
        } else {
            None
        }
    }

    /// The stack with `repository_id` on top. A full stack takes no more.
    pub fn push(self, repository_id: RepositoryId) -> (pushed: Result<Self, Error>)
        ensures
            match pushed {
                Ok(stack) => self@.len() < MAX_REPOSITORY_STACK_DEPTH && stack@ == self@.push(
                    repository_id@,
                ),
                Err(error) => self@.len() >= MAX_REPOSITORY_STACK_DEPTH
                    && error@ == crate::error::Fault::RepositoryStackOverflow,
            },
    {
        proof {
            use_type_invariant(self);
        }
        let ghost before = self@;
        if self.capacity as usize >= MAX_REPOSITORY_STACK_DEPTH {
            return Err(Error::RepositoryStackOverflow);
        }
        let top: usize = self.capacity as usize;
        let mut entries = self.stack;
        entries[top] = Some(repository_id);
        let stack = RepositoryStack { stack: entries, capacity: self.capacity + 1 };
        assert(stack@ =~= before.push(repository_id@));
        Ok(stack)
    }

    /// The stack without its top entry, and that entry.
    pub fn pop(self) -> (popped: Result<(Self, RepositoryId), Error>)
        requires
            self@.len() > 0,
        ensures
            popped matches Ok((stack, id)) && stack@ == self@.drop_last() && id@ == self@.last(),
    {
        proof {
            use_type_invariant(self);
        }
        let ghost before = self@;
        let top: usize = self.capacity as usize - 1;
        let id = match self.stack[top] {
            Some(id) => id,
            None => {
                proof {
                    assert(false);
                }
                vstd::pervasive::unreached()
            },
        };
        let mut entries = self.stack;
        entries[top] = None;
        let stack = RepositoryStack { stack: entries, capacity: self.capacity - 1 };
        assert(stack@ =~= before.drop_last());
        Ok((stack, id))
    }
}

impl Default for RepositoryStack {
    fn default() -> (stack: Self)
        ensures
            stack@ == Seq::<nat>::empty(),
    {
        RepositoryStack::empty()
    }
}

} // verus!
