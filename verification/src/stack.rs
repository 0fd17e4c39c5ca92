//! The call stack: the return addresses of the subroutine calls in progress.

use vstd::prelude::*;
use crate::state::STACK_DEPTH;

verus! {

/// Number of slots in the stack's storage. Only the first `STACK_DEPTH` are ever used.
pub const STACK_SLOTS: usize = 24;

/// What the storage of a stack holds: the return addresses, then zeros up to `STACK_SLOTS`.
pub open spec fn padded(stack: Seq<u16>) -> Seq<u16> {
    Seq::new(
        STACK_SLOTS as nat,
        |k: int|
            if k < stack.len() {
                stack[k]
            } else {
                0u16
            },
    )
}

/// A stack of at most `STACK_DEPTH` return addresses.
pub struct CallStack {
    slots: [u16; 24],
    pointer: u8,
}

impl View for CallStack {
    type V = Seq<u16>;

    /// The return addresses on the stack, the innermost call last.
    closed spec fn view(&self) -> Seq<u16> {
        // The pointer never exceeds `STACK_DEPTH`; taking the smaller of the two shows the
        // bound to proofs that have only a ghost copy of the stack.
        self.slots@.take(
            if self.pointer <= STACK_DEPTH {
                self.pointer as int
            } else {
                STACK_DEPTH as int
            },
        )
    }
}

impl CallStack {
    #[verifier::type_invariant]
    spec fn unused_slots_are_zero(&self) -> bool {
        &&& self.pointer <= STACK_DEPTH
        &&& forall|k: int| self.pointer <= k < STACK_SLOTS ==> self.slots[k] == 0
    }

    /// A stack never holds more than `STACK_DEPTH` return addresses.
    pub proof fn lemma_bounded(&self)
        ensures
            self@.len() <= STACK_DEPTH,
    {
    }

    /// An empty stack.
    pub fn new() -> (r: CallStack)
        ensures
            r@ == Seq::<u16>::empty(),
    {
        CallStack { slots: [0; 24], pointer: 0 }
    }

    /// Number of return addresses on the stack.
    pub fn depth(&self) -> (r: u8)
        ensures
            r == self@.len(),
            r <= STACK_DEPTH,
    {
        proof {
            use_type_invariant(&*self);
        }
        self.pointer
    }

    /// Pushes a return address, unless the stack is full.
    pub fn push(&mut self, address: u16) -> (pushed: bool)
        ensures
            pushed == (old(self)@.len() < STACK_DEPTH),
            final(self)@ == if pushed {
                old(self)@.push(address)
            } else {
                old(self)@
            },
    {
        proof {
            use_type_invariant(&*self);
        }
        if self.pointer as usize >= STACK_DEPTH {
            return false;
        }
        self.pointer += 1;
        self.slots[self.pointer as usize - 1] = address;
        assert(self@ =~= old(self)@.push(address));
        true
    }

    /// Pops the innermost return address, if there is one.
    pub fn pop(&mut self) -> (r: Option<u16>)
        ensures
            r == if old(self)@.len() > 0 {
                Some(old(self)@.last())
            } else {
                None
            },
            final(self)@ == if old(self)@.len() > 0 {
                old(self)@.drop_last()
            } else {
                old(self)@
            },
    {
        proof {
            use_type_invariant(&*self);
        }
        if self.pointer == 0 {
            return None;
        }
        let top = self.pointer as usize - 1;
        let address = self.slots[top];
        self.slots[top] = 0;
        self.pointer -= 1;
        assert(self@ =~= old(self)@.drop_last());
        Some(address)
    }

    /// The storage: the return addresses on the stack, then zeros.
    pub fn slots(&self) -> (r: &[u16; 24])
        ensures
            r@ == padded(self@),
    {
        proof {
            use_type_invariant(&*self);
            assert(self.slots@ =~= padded(self@));
        }
        &self.slots
    }
}

} // verus!
