//! The stimulus at the boundary of the graph: a source that hands out a fixed
//! number of tokens and then closes.

use crate::nodes::DoNotCare;
use vstd::prelude::*;

verus! {

/// A source of tokens for one entry node.
#[derive(Clone, Copy, Debug, PartialEq, Eq, Structural)]
pub struct Stimulus {
    remaining: usize,
}

impl View for Stimulus {
    type V = nat;

    /// The number of tokens still to come.
    closed spec fn view(&self) -> nat {
        self.remaining as nat
    }
}

/// One request to a source with `remaining` tokens left: what is left after
/// it, and whether it gave a token.
pub open spec fn emit_spec(remaining: nat) -> (nat, Option<DoNotCare>) {
    if remaining > 0 {
        ((remaining - 1) as nat, Some(DoNotCare {  }))
    } else {
        (0, None)
    }
}

/// What a source made for `repeats` tokens has left after `requests` requests.
pub open spec fn remaining_after(repeats: nat, requests: nat) -> nat
    decreases requests,
{
    if requests == 0 {
        repeats
    } else {
        emit_spec(remaining_after(repeats, (requests - 1) as nat)).0
    }
}

/// How many tokens a source made for `repeats` tokens has given in its first
/// `requests` requests.
pub open spec fn emitted_after(repeats: nat, requests: nat) -> nat
    decreases requests,
{
    if requests == 0 {
        0
    } else {
        let before = (requests - 1) as nat;
        if emit_spec(remaining_after(repeats, before)).1 is Some {
            emitted_after(repeats, before) + 1
        } else {
            emitted_after(repeats, before)
        }
    }
}

impl Stimulus {
    /// A source that will give `repeats` tokens.
    pub fn new(repeats: usize) -> (source: Self)
        ensures
            source@ == repeats,
    {
        Stimulus { remaining: repeats }
    }

    /// The number of tokens still to come.
    pub fn remaining(&self) -> (left: usize)
        ensures
            left == self@,
    {
        self.remaining
    }

    /// The next token, or `None` once all have been given: the channel is
    /// then to be closed.
    pub fn emit(&mut self) -> (token: Option<DoNotCare>)
        ensures
            (final(self)@, token) == emit_spec(old(self)@),
    {
        if self.remaining > 0 {
            self.remaining = self.remaining - 1;
            Some(DoNotCare {  })
        } else {
            None
        }
    }
}

/// Stimulus exactness. A source made for `repeats` tokens gives a token at
/// each of its first `repeats` requests and at no later one: after any number
/// of requests it has given `repeats` tokens or as many as there were
/// requests, whichever is less. With `repeats` zero the first request already
/// finds it closed.
pub proof fn lemma_stimulus_exact(repeats: nat, requests: nat)
    ensures
        emitted_after(repeats, requests) == if requests <= repeats {
            requests
        } else {
            repeats
        },
        remaining_after(repeats, requests) == repeats - emitted_after(repeats, requests),
        emit_spec(remaining_after(repeats, requests)).1 is Some <==> requests < repeats,
    decreases requests,
{
    if requests > 0 {
        lemma_stimulus_exact(repeats, (requests - 1) as nat);
    }
}

} // verus!
