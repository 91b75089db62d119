//! The grammar of the token stream, and the proof that the parser keeps to
//! it.
//!
//! ```text
//! Root   = RootBegin Field* RootEnd
//! Struct = StructBegin Field* StructEnd
//! Item   = ItemBegin Field* ItemEnd
//! Field  = Label (Value | Struct | List)
//! List   = ListBegin Item* ListEnd
//! ```
//!
//! The grammar is given as an automaton with a stack. The stack holds what
//! is open; its last entry says which tokens may come next.

use crate::header::Header;
use crate::parser::states::State;
use crate::parser::Token;
use vstd::prelude::*;

verus! {

/// What a reader of a token stream is in the middle of.
#[derive(Debug, Clone, Copy, PartialEq, Eq)]
pub enum Pending {
    /// The stream has not begun: `RootBegin` comes next.
    Document,
    /// The struct at the top is open: a `Label` or `RootEnd` comes next.
    Root,
    /// A struct that is the value of a field is open: a `Label` or
    /// `StructEnd` comes next.
    Struct,
    /// An item of a list is open: a `Label` or `ItemEnd` comes next.
    Item,
    /// A list is open: `ItemBegin` or `ListEnd` comes next.
    List,
    /// A label was read: the value of the field comes next, which is a
    /// `Value`, a `StructBegin` or a `ListBegin`.
    Field,
}

/// The stack after `token` was read with the stack `stack`, where the
/// grammar allows that token there.
pub open spec fn accept(stack: Seq<Pending>, token: Token) -> Option<Seq<Pending>> {
    if stack.len() == 0 {
        None
    } else {
        let rest = stack.drop_last();
        match (stack.last(), token) {
            (Pending::Document, Token::RootBegin { .. }) => Some(rest.push(Pending::Root)),
            (Pending::Root, Token::Label(_)) => Some(stack.push(Pending::Field)),
            (Pending::Root, Token::RootEnd) => Some(rest),
            (Pending::Struct, Token::Label(_)) => Some(stack.push(Pending::Field)),
            (Pending::Struct, Token::StructEnd) => Some(rest),
            (Pending::Item, Token::Label(_)) => Some(stack.push(Pending::Field)),
            (Pending::Item, Token::ItemEnd) => Some(rest),
            (Pending::Field, Token::Value(_)) => Some(rest),
            (Pending::Field, Token::StructBegin { .. }) => Some(rest.push(Pending::Struct)),
            (Pending::Field, Token::ListBegin(_)) => Some(rest.push(Pending::List)),
            (Pending::List, Token::ItemBegin { .. }) => Some(stack.push(Pending::Item)),
            (Pending::List, Token::ListEnd) => Some(rest),
            _ => None,
        }
    }
}

/// The stack after all of `tokens` were read, one after the other, starting
/// with the stack `stack`, where the grammar allows each token in its place.
pub open spec fn accept_all(stack: Seq<Pending>, tokens: Seq<Token>) -> Option<Seq<Pending>>
    decreases tokens.len(),
{
    if tokens.len() == 0 {
        Some(stack)
    } else {
        match accept(stack, tokens[0]) {
            Some(next) => accept_all(next, tokens.drop_first()),
            None => None,
        }
    }
}

/// What is open in the state `state` of the parser.
pub open spec fn pending(state: State) -> Seq<Pending>
    decreases state,
{
    match state {
        State::Start(_) => seq![Pending::Document],
        State::ReadLabel(s) => pending(*s.state),
        State::ReadField(s) => pending(*s.state).push(Pending::Field),
        State::ReadFields(s) => pending(*s.state),
        State::ReadItems(s) => pending(*s.state).push(Pending::List),
        State::EndRoot(s) => pending(*s.state).push(Pending::Root),
        State::EndItem(s) => pending(*s.state).push(Pending::Item),
        State::EndStruct(s) => pending(*s.state).push(Pending::Struct),
        State::Finish => Seq::empty(),
    }
}

/// The tokens that the parser gives in `n` steps from the state `state` on
/// the file `data`, and the state that it is in then; nothing where one of
/// the steps fails.
pub open spec fn run(state: State, data: Seq<u8>, header: Header, n: nat) -> Option<
    (Seq<Token>, State),
>
    decreases n,
{
    if n == 0 {
        Some((Seq::empty(), state))
    } else {
        match state.step(data, header) {
            Ok((token, next)) => match run(next, data, header, (n - 1) as nat) {
                Some((tokens, last)) => Some((seq![token] + tokens, last)),
                None => None,
            },
            Err(_) => None,
        }
    }
}

/// In a state between two fields of a struct, that struct is what is open
/// innermost.
pub proof fn lemma_pending_between_fields(state: State)
    requires
        state.wf(),
        state.is_between_fields(),
    ensures
        pending(state).len() > 0,
        pending(state).last() is Root || pending(state).last() is Struct || pending(
            state,
        ).last() is Item,
        state is ReadFields ==> pending(state) == pending(*state->ReadFields_0.state),
{
    reveal_with_fuel(pending, 2);
}

/// Each step of the parser gives a token that the grammar allows where it
/// stands, and leads to a state that the parser can be in.
pub proof fn lemma_step_follows_grammar(state: State, data: Seq<u8>, header: Header)
    requires
        state.wf(),
    ensures
        state.step(data, header) matches Ok((token, next)) ==> next.wf() && accept(
            pending(state),
            token,
        ) == Some(pending(next)),
    decreases state,
{
    reveal_with_fuel(pending, 3);
    reveal_with_fuel(State::wf, 3);
    match state {
        State::Start(s) => {
            assert(pending(*s.state) =~= Seq::empty());
            assert(seq![Pending::Document].drop_last().push(Pending::Root) =~= Seq::<
                Pending,
            >::empty().push(Pending::Root));
        },
        State::ReadLabel(s) => {
            lemma_pending_between_fields(*s.state);
        },
        State::ReadField(s) => {
            let below = pending(*s.state);
            assert(below.push(Pending::Field).drop_last() =~= below);
        },
        State::ReadFields(s) => {
            if s.count == 0 {
                lemma_step_follows_grammar(*s.state, data, header);
            } else {
                lemma_pending_between_fields(*s.state);
            }
        },
        State::ReadItems(s) => {
            let below = pending(*s.state);
            assert(below.push(Pending::List).drop_last() =~= below);
        },
        State::EndRoot(s) => {
            let below = pending(*s.state);
            assert(below.push(Pending::Root).drop_last() =~= below);
        },
        State::EndItem(s) => {
            let below = pending(*s.state);
            assert(below.push(Pending::Item).drop_last() =~= below);
        },
        State::EndStruct(s) => {
            let below = pending(*s.state);
            assert(below.push(Pending::Struct).drop_last() =~= below);
        },
        State::Finish => {},
    }
}

/// The tokens that the parser gives, however many, are a beginning of a
/// sentence of the grammar: each token is allowed where it stands, and what
/// the tokens leave open is what is open in the state of the parser.
pub proof fn lemma_run_follows_grammar(state: State, data: Seq<u8>, header: Header, n: nat)
    requires
        state.wf(),
    ensures
        run(state, data, header, n) matches Some((tokens, last)) ==> last.wf() && tokens.len()
            == n && accept_all(pending(state), tokens) == Some(pending(last)),
    decreases n,
{
    if n > 0 {
        lemma_step_follows_grammar(state, data, header);
        match state.step(data, header) {
            Ok((token, next)) => {
                lemma_run_follows_grammar(next, data, header, (n - 1) as nat);
                match run(next, data, header, (n - 1) as nat) {
                    Some((tokens, last)) => {
                        let all = seq![token] + tokens;
                        assert(all[0] == token);
                        assert(all.drop_first() =~= tokens);
                    },
                    None => {},
                }
            },
            Err(_) => {},
        }
    }
}

/// Nothing is open in a state of the parser exactly where the file was read
/// to its end: each token that opened a struct or a list has met the token
/// that closes it, the last one opened first.
pub proof fn lemma_nothing_pending(state: State)
    requires
        state.wf(),
    ensures
        pending(state).len() == 0 <==> state is Finish,
    decreases state,
{
    match state {
        State::ReadLabel(s) => {
            lemma_pending_between_fields(*s.state);
        },
        State::ReadFields(s) => {
            lemma_pending_between_fields(*s.state);
        },
        _ => {},
    }
}

/// The tokens that the parser gives from its first state to its last one
/// are a whole sentence of the grammar: they leave nothing open.
pub proof fn lemma_whole_stream(data: Seq<u8>, header: Header, n: nat, start: State)
    requires
        start is Start,
        start.wf(),
    ensures
        run(start, data, header, n) matches Some((tokens, State::Finish)) ==> accept_all(
            seq![Pending::Document],
            tokens,
        ) == Some(Seq::<Pending>::empty()),
{
    lemma_run_follows_grammar(start, data, header, n);
}

/// Passing over what is open leads to a state that the parser can be in,
/// and in it the innermost struct or list that was open is closed, with any
/// field that was awaited in it.
pub proof fn lemma_close(state: State)
    requires
        state.wf(),
    ensures
        state.spec_close().wf(),
        !(state is Start) && !(state is Finish) ==> pending(state).len() > 0 && pending(
            state.spec_close(),
        ) == if state is ReadField {
            pending(state).drop_last().drop_last()
        } else {
            pending(state).drop_last()
        },
    decreases state,
{
    match state {
        State::ReadLabel(s) => {
            lemma_close(*s.state);
        },
        State::ReadField(s) => {
            lemma_close(*s.state);
            let below = pending(*s.state);
            assert(below.push(Pending::Field).drop_last() =~= below);
        },
        State::ReadFields(s) => {
            lemma_close(*s.state);
        },
        State::ReadItems(s) => {
            let below = pending(*s.state);
            assert(below.push(Pending::List).drop_last() =~= below);
        },
        State::EndRoot(s) => {
            let below = pending(*s.state);
            assert(below.push(Pending::Root).drop_last() =~= below);
        },
        State::EndItem(s) => {
            let below = pending(*s.state);
            assert(below.push(Pending::Item).drop_last() =~= below);
        },
        State::EndStruct(s) => {
            let below = pending(*s.state);
            assert(below.push(Pending::Struct).drop_last() =~= below);
        },
        _ => {},
    }
}

/// The state, among this state and those that it comes back to, in which at
/// most `depth` things are open: the state that the parser is in when all
/// that is open beyond that depth has ended.
pub open spec fn outer(state: State, depth: nat) -> State
    decreases state,
{
    if pending(state).len() <= depth {
        state
    } else {
        match state {
            State::Start(s) => outer(*s.state, depth),
            State::ReadLabel(s) => outer(*s.state, depth),
            State::ReadField(s) => outer(*s.state, depth),
            State::ReadFields(s) => outer(*s.state, depth),
            State::ReadItems(s) => outer(*s.state, depth),
            State::EndRoot(s) => outer(*s.state, depth),
            State::EndItem(s) => outer(*s.state, depth),
            State::EndStruct(s) => outer(*s.state, depth),
            State::Finish => state,
        }
    }
}

/// Whether more than `depth` things are open in the state `state` and in
/// each state that the parser is in after fewer than `n` steps from there.
pub open spec fn stays_inside(state: State, data: Seq<u8>, header: Header, n: nat, depth: nat)
    -> bool
    decreases n,
{
    if n == 0 {
        true
    } else {
        pending(state).len() > depth && match state.step(data, header) {
            Ok((_, next)) => stays_inside(next, data, header, (n - 1) as nat, depth),
            Err(_) => true,
        }
    }
}

/// A step of the parser in a state in which more than `depth` things are
/// open leaves the state in which at most `depth` things are open as it is.
pub proof fn lemma_step_keeps_outer(state: State, data: Seq<u8>, header: Header, depth: nat)
    requires
        state.wf(),
        pending(state).len() > depth,
    ensures
        state.step(data, header) matches Ok((_, next)) ==> outer(next, depth) == outer(
            state,
            depth,
        ),
    decreases state,
{
    reveal_with_fuel(pending, 4);
    reveal_with_fuel(outer, 4);
    reveal_with_fuel(State::wf, 3);
    match state {
        State::ReadFields(s) => {
            if s.count == 0 {
                lemma_pending_between_fields(*s.state);
                lemma_step_keeps_outer(*s.state, data, header, depth);
            }
        },
        _ => {},
    }
}

/// As long as more than `depth` things are open, the steps of the parser
/// leave the state in which at most `depth` things are open as it is; and
/// that is the state that the parser is in as soon as no more than `depth`
/// things are open.
pub proof fn lemma_run_keeps_outer(
    state: State,
    data: Seq<u8>,
    header: Header,
    n: nat,
    depth: nat,
)
    requires
        state.wf(),
        stays_inside(state, data, header, n, depth),
    ensures
        run(state, data, header, n) matches Some((_, last)) ==> outer(last, depth) == outer(
            state,
            depth,
        ) && (pending(last).len() <= depth ==> last == outer(state, depth)),
    decreases n,
{
    if n > 0 {
        lemma_step_follows_grammar(state, data, header);
        lemma_step_keeps_outer(state, data, header, depth);
        match state.step(data, header) {
            Ok((_, next)) => {
                lemma_run_keeps_outer(next, data, header, (n - 1) as nat, depth);
            },
            Err(_) => {},
        }
    }
}

/// Passing over what is open innermost leads to the state in which one
/// thing less is open; a field that was awaited counts as open, too.
pub proof fn lemma_close_is_outer(state: State)
    requires
        state.wf(),
        !(state is Start),
        !(state is Finish),
    ensures
        pending(state).len() > 0,
        state.spec_close() == outer(
            state,
            if state is ReadField {
                (pending(state).len() - 2) as nat
            } else {
                (pending(state).len() - 1) as nat
            },
        ),
    decreases state,
{
    reveal_with_fuel(pending, 3);
    reveal_with_fuel(outer, 3);
    match state {
        State::ReadLabel(s) => {
            lemma_pending_between_fields(*s.state);
            lemma_close_is_outer(*s.state);
        },
        State::ReadField(s) => {
            lemma_pending_between_fields(*s.state);
            lemma_close_is_outer(*s.state);
        },
        State::ReadFields(s) => {
            lemma_pending_between_fields(*s.state);
            lemma_close_is_outer(*s.state);
        },
        _ => {},
    }
}

/// Passing over a struct or a list leads to the state that reading on
/// leads to: where the parser has just given the token that opens it, and
/// then gives token after token until what was opened is closed again, it
/// is in the state that `spec_close` gives for the state behind the
/// opening token.
pub proof fn lemma_skip_is_reading_on(state: State, data: Seq<u8>, header: Header, n: nat)
    requires
        state.wf(),
        !(state is Start),
        !(state is Finish),
        !(state is ReadField),
        stays_inside(state, data, header, n, (pending(state).len() - 1) as nat),
    ensures
        run(state, data, header, n) matches Some((_, last)) ==> (pending(last).len() < pending(
            state,
        ).len() ==> last == state.spec_close()),
{
    lemma_close_is_outer(state);
    lemma_run_keeps_outer(state, data, header, n, (pending(state).len() - 1) as nat);
}

/// How many of `tokens` open a struct or a list.
pub open spec fn opened(tokens: Seq<Token>) -> nat
    decreases tokens.len(),
{
    if tokens.len() == 0 {
        0
    } else {
        opened(tokens.drop_first()) + if tokens[0].spec_is_begin() {
            1nat
        } else {
            0nat
        }
    }
}

/// How many of `tokens` close a struct or a list.
pub open spec fn closed(tokens: Seq<Token>) -> nat
    decreases tokens.len(),
{
    if tokens.len() == 0 {
        0
    } else {
        closed(tokens.drop_first()) + if tokens[0].spec_is_end() {
            1nat
        } else {
            0nat
        }
    }
}

/// How many of `tokens` are labels: how many fields the tokens tell of.
pub open spec fn labels(tokens: Seq<Token>) -> nat
    decreases tokens.len(),
{
    if tokens.len() == 0 {
        0
    } else {
        labels(tokens.drop_first()) + if tokens[0] is Label {
            1nat
        } else {
            0nat
        }
    }
}

/// How many structs and lists are open in `stack`.
pub open spec fn open_in(stack: Seq<Pending>) -> nat
    decreases stack.len(),
{
    if stack.len() == 0 {
        0
    } else {
        open_in(stack.drop_last()) + if stack.last() is Document || stack.last() is Field {
            0nat
        } else {
            1nat
        }
    }
}

/// Tokens that the grammar allows open as many structs and lists as they
/// close and leave open; and they are at least as many as those that open
/// something, those that close something, and the labels, taken together.
pub proof fn lemma_opened_and_closed(stack: Seq<Pending>, tokens: Seq<Token>)
    ensures
        accept_all(stack, tokens) matches Some(left) ==> open_in(stack) + opened(tokens)
            == closed(tokens) + open_in(left),
        opened(tokens) + closed(tokens) + labels(tokens) <= tokens.len(),
    decreases tokens.len(),
{
    if tokens.len() > 0 {
        lemma_opened_and_closed(stack, tokens.drop_first());
        match accept(stack, tokens[0]) {
            Some(next) => {
                lemma_opened_and_closed(next, tokens.drop_first());
                let rest = stack.drop_last();
                assert(rest.push(Pending::Root).drop_last() =~= rest);
                assert(rest.push(Pending::Struct).drop_last() =~= rest);
                assert(rest.push(Pending::List).drop_last() =~= rest);
                assert(stack.push(Pending::Field).drop_last() =~= stack);
                assert(stack.push(Pending::Item).drop_last() =~= stack);
            },
            None => {},
        }
    }
}

/// The tokens of a whole file are at least twice as many as the structs and
/// lists that they open, and at least as many as the fields that they tell
/// of. So where the file holds each of its structs, lists and fields in one
/// place, its tokens are at least twice as many as its structs and lists,
/// and at least as many as its fields.
pub proof fn lemma_token_count(data: Seq<u8>, header: Header, n: nat, start: State)
    requires
        start is Start,
        start.wf(),
    ensures
        run(start, data, header, n) matches Some((tokens, State::Finish)) ==> tokens.len() >= 2
            * opened(tokens) && tokens.len() >= labels(tokens),
{
    lemma_whole_stream(data, header, n, start);
    match run(start, data, header, n) {
        Some((tokens, State::Finish)) => {
            lemma_opened_and_closed(seq![Pending::Document], tokens);
            assert(open_in(seq![Pending::Document]) == 0) by {
                assert(seq![Pending::Document].drop_last() =~= Seq::<Pending>::empty());
            }
        },
        _ => {},
    }
}

} // verus!
