//! A finite state machine over token types, given by a table of transitions.

use vstd::prelude::*;
use super::token::{Token, TokenType};

verus! {

/// In state `from`, a token of type `token_type` leads to state `to`.
#[derive(Debug, Clone, Copy, PartialEq, Eq, Structural)]
pub struct Transition {
    pub from: u32,
    pub token_type: TokenType,
    pub to: u32,
}

/// The state that the first matching transition of the table leads to, or 0
/// (no next state) when none matches.
pub open spec fn table_next(table: Seq<Transition>, state: u32, token_type: TokenType) -> u32
    decreases table.len(),
{
    if table.len() == 0 {
        0
    } else if table[0].from == state && table[0].token_type == token_type {
        table[0].to
    } else {
        table_next(table.drop_first(), state, token_type)
    }
}

/// Walking a machine through token types from `state`: the state at the end,
/// or the state and the index of the first token without a next state.
pub open spec fn walk(next: spec_fn(u32, TokenType) -> u32, state: u32, types: Seq<TokenType>) -> Result<
    u32,
    (u32, nat),
>
    decreases types.len(),
{
    if types.len() == 0 {
        Ok(state)
    } else {
        let n = next(state, types[0]);
        if n == 0 {
            Err((state, 0))
        } else {
            match walk(next, n, types.drop_first()) {
                Ok(s) => Ok(s),
                Err((s, i)) => Err((s, i + 1)),
            }
        }
    }
}

/// Running a machine: success when the walk ends in an accepting state; the
/// state and token where it stopped, or the final state and the last token
/// when that state does not accept.
pub open spec fn machine_result(
    next: spec_fn(u32, TokenType) -> u32,
    initial: u32,
    accepting: Seq<u32>,
    types: Seq<TokenType>,
) -> Result<(), (u32, nat)> {
    match walk(next, initial, types) {
        Err(e) => Err(e),
        Ok(s) => if accepting.contains(s) {
            Ok(())
        } else {
            Err((s, (types.len() - 1) as nat))
        },
    }
}

/// The types of a sequence of tokens.
pub open spec fn token_types(tokens: Seq<Token>) -> Seq<TokenType> {
    tokens.map_values(|t: Token| t.token_type)
}

pub open spec fn shift_error(r: Result<u32, (u32, nat)>, by: nat) -> Result<u32, (u32, nat)> {
    match r {
        Ok(s) => Ok(s),
        Err((s, i)) => Err((s, i + by)),
    }
}

/// Finite state machine recognising the token sequence of a script line.
pub struct FiniteStateMachine {
    initial_state: u32,
    accepting_states: Vec<u32>,
    transitions: Vec<Transition>,
}

impl FiniteStateMachine {
    pub closed spec fn initial(&self) -> u32 {
        self.initial_state
    }

    pub closed spec fn accepting(&self) -> Seq<u32> {
        self.accepting_states@
    }

    pub closed spec fn table(&self) -> Seq<Transition> {
        self.transitions@
    }

    /// The transition function of the machine.
    pub open spec fn next_fn(&self) -> spec_fn(u32, TokenType) -> u32 {
        |s: u32, t: TokenType| table_next(self.table(), s, t)
    }

    /// A machine with its initial state, accepting states and transitions.
    pub fn new(initial_state: u32, accepting_states: Vec<u32>, transitions: Vec<Transition>) -> (m:
        FiniteStateMachine)
        ensures
            m.initial() == initial_state,
            m.accepting() == accepting_states@,
            m.table() == transitions@,
    {
        FiniteStateMachine { initial_state, accepting_states, transitions }
    }

    fn next_state(&self, state: u32, token_type: TokenType) -> (n: u32)
        ensures
            n == table_next(self.table(), state, token_type),
    {
        let mut i: usize = 0;
        assert(self.transitions@.skip(0) =~= self.transitions@);
        while i < self.transitions.len()
            invariant
                i <= self.transitions.len(),
                table_next(self.transitions@, state, token_type) == table_next(
                    self.transitions@.skip(i as int),
                    state,
                    token_type,
                ),
            decreases self.transitions.len() - i,
        {
            let t = self.transitions[i];
            assert(self.transitions@.skip(i as int).drop_first() =~= self.transitions@.skip(
                i + 1,
            ));
            if t.from == state && t.token_type == token_type {
                return t.to;
            }
            i = i + 1;
        }
        0
    }

    fn is_accepting(&self, state: u32) -> (r: bool)
        ensures
            r == self.accepting().contains(state),
    {
        let mut i: usize = 0;
        while i < self.accepting_states.len()
            invariant
                i <= self.accepting_states.len(),
                forall|k: int| 0 <= k < i ==> self.accepting_states@[k] != state,
            decreases self.accepting_states.len() - i,
        {
            if self.accepting_states[i] == state {
                assert(self.accepting_states@[i as int] == state);
                return true;
            }
            i = i + 1;
        }
        false
    }

    /// Run the machine over tokens. On failure the state where it stopped and
    /// the token that led nowhere (or the last token, when the final state
    /// does not accept) are returned.
    pub fn run<'a>(&self, tokens: &'a [Token]) -> (r: Result<(), (u32, &'a Token)>)
        requires
            tokens.len() > 0 || self.accepting().contains(self.initial()),
        ensures
            match machine_result(
                self.next_fn(),
                self.initial(),
                self.accepting(),
                token_types(tokens@),
            ) {
                Ok(()) => r is Ok,
                Err((s, i)) => r matches Err((s2, t)) && s2 == s && i < tokens.len() && *t
                    == tokens@[i as int],
            },
    {
        let ghost types = token_types(tokens@);
        let mut state = self.initial_state;
        let mut i: usize = 0;
        assert(types.skip(0) =~= types);
        while i < tokens.len()
            invariant
                types == token_types(tokens@),
                i <= tokens.len(),
                walk(self.next_fn(), self.initial(), types) == shift_error(
                    walk(self.next_fn(), state, types.skip(i as int)),
                    i as nat,
                ),
            decreases tokens.len() - i,
        {
            let token = &tokens[i];
            let next_state = self.next_state(state, token.token_type);
            assert(types.skip(i as int)[0] == token.token_type);
            assert(types.skip(i as int).drop_first() =~= types.skip(i + 1));
            if next_state == 0 {
                return Err((state, token));
            }
            state = next_state;
            i = i + 1;
        }
        assert(types.skip(i as int) =~= Seq::<TokenType>::empty());
        if !self.is_accepting(state) {
            return Err((state, &tokens[tokens.len() - 1]));
        }
        Ok(())
    }
}

} // verus!
