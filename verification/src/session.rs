//! The state of one parse: a cursor, the offset reached, the errors raised so
//! far, the user's state and a context value.

use vstd::prelude::*;
use std::ops::Range;
use crate::memo::Memo;
use crate::input::{offset_after, token_after, BorrowInput, Input, SliceInput, StrInput};

verus! {

/// A snapshot of a session: the offset it had reached and how many errors it
/// held. Rewinding to it puts both back.
pub struct Marker<I: Input> {
    offset: I::Offset,
    err_count: usize,
}

impl<I: Input> Copy for Marker<I> {
}

impl<I: Input> Clone for Marker<I> {
    fn clone(&self) -> (copy: Self)
        ensures
            copy == *self,
    {
        *self
    }
}

impl<I: Input> Marker<I> {
    /// The offset the session had when the marker was taken.
    pub closed spec fn offset(&self) -> I::Offset {
        self.offset
    }

    /// The number of errors the session held when the marker was taken.
    pub closed spec fn err_count(&self) -> nat {
        self.err_count as nat
    }
}

/// A cursor together with everything a parse carries along.
///
/// The user state is either owned by the session or borrowed from the session
/// that opened this one, so that all sessions of one parse work on one state.
pub struct InputRef<'parse, I: Input, E, S, C> {
    input: I,
    offset: I::Offset,
    errors: Vec<E>,
    state: Result<&'parse mut S, S>,
    ctx: C,
    memos: Option<Memo<E>>,
}

impl<'parse, I: Input, E, S, C> InputRef<'parse, I, E, S, C> {
    /// The cursor the session reads from.
    pub closed spec fn input_spec(&self) -> I {
        self.input
    }

    /// The offset of the next token to read.
    pub closed spec fn offset_spec(&self) -> I::Offset {
        self.offset
    }

    /// The errors raised and not rewound, oldest first.
    pub closed spec fn errors_spec(&self) -> Seq<E> {
        self.errors@
    }

    /// The user state as it stands.
    pub closed spec fn state_spec(&self) -> S {
        match self.state {
            Ok(shared) => *shared,
            Err(owned) => owned,
        }
    }

    /// The context value of this session.
    pub closed spec fn ctx_spec(&self) -> C {
        self.ctx
    }

    /// Whether the session keeps a cache of failures.
    pub closed spec fn memoizing(&self) -> bool {
        self.memos is Some
    }

    /// What the cache holds under an offset's index and a parser's
    /// identity: `None` while that parser runs there, its error once it has
    /// failed there. Empty where the session keeps no cache.
    pub closed spec fn memos_spec(&self) -> Map<(usize, usize), Option<E>> {
        match self.memos {
            Some(memo) => memo@,
            None => Map::empty(),
        }
    }

    /// The cache, where there is one, is in order.
    pub closed spec fn memos_wf(&self) -> bool {
        match self.memos {
            Some(memo) => memo.wf(),
            None => true,
        }
    }

    /// The session's offset belongs to its cursor, and its cache is in order.
    pub open spec fn wf(&self) -> bool {
        &&& self.input_spec().valid(self.offset_spec())
        &&& self.memos_wf()
    }

    /// The key of the cache for `parser` at the current offset.
    pub open spec fn memo_key(&self, parser: usize) -> (usize, usize) {
        (I::index_of(self.offset_spec()) as usize, parser)
    }

    /// `self` and `other` have the same cache, or both none.
    pub open spec fn same_memos(&self, other: &Self) -> bool {
        &&& self.memoizing() == other.memoizing()
        &&& self.memos_spec() == other.memos_spec()
        &&& self.memos_wf() == other.memos_wf()
    }

    /// `self` and `other` have the same cursor, context, user state and cache.
    pub open spec fn same_setting(&self, other: &Self) -> bool {
        &&& self.input_spec() == other.input_spec()
        &&& self.ctx_spec() == other.ctx_spec()
        &&& self.state_spec() == other.state_spec()
        &&& self.same_memos(other)
    }

    /// `marker` is the snapshot that `save` takes of `self`.
    pub open spec fn marks(&self, marker: Marker<I>) -> bool {
        &&& marker.offset() == self.offset_spec()
        &&& marker.err_count() == self.errors_spec().len()
    }

    /// `self` reads the same cursor as `earlier` and holds the errors of
    /// `earlier` followed by any number of further ones.
    pub open spec fn extends(&self, earlier: &Self) -> bool {
        &&& self.input_spec() == earlier.input_spec()
        &&& earlier.errors_spec().is_prefix_of(self.errors_spec())
    }

    /// `self` is `before` rewound to `marker`: the marker's offset, and the
    /// first errors of `before`, as many as the marker counted (all of them
    /// where `before` holds fewer).
    pub open spec fn rewinds_to(&self, before: &Self, marker: Marker<I>) -> bool {
        &&& self.offset_spec() == marker.offset()
        &&& self.errors_spec() == if marker.err_count() <= before.errors_spec().len() {
            before.errors_spec().take(marker.err_count() as int)
        } else {
            before.errors_spec()
        }
        &&& self.same_setting(before)
    }

    /// `sub` is the session that `self` opens for a sub-parse under
    /// `new_ctx`: same cursor, offset and user state, the new context, no
    /// errors yet, and a cache of its own, empty, where `self` keeps one.
    pub open spec fn opens<CtxN>(&self, sub: &InputRef<'_, I, E, S, CtxN>, new_ctx: CtxN) -> bool {
        &&& sub.input_spec() == self.input_spec()
        &&& sub.offset_spec() == self.offset_spec()
        &&& sub.errors_spec() == Seq::<E>::empty()
        &&& sub.state_spec() == self.state_spec()
        &&& sub.ctx_spec() == new_ctx
        &&& sub.memoizing() == self.memoizing()
        &&& sub.memos_spec() == Map::<(usize, usize), Option<E>>::empty()
        &&& sub.memos_wf()
    }

    /// `self` is `before` after the sub-parse that ended as `sub`: the offset
    /// of `sub`, the errors of `before` followed by those of `sub`, and the
    /// cursor, context and cache of `before`.
    pub open spec fn closes<CtxN>(&self, before: &Self, sub: &InputRef<'_, I, E, S, CtxN>) -> bool {
        &&& self.input_spec() == before.input_spec()
        &&& self.ctx_spec() == before.ctx_spec()
        &&& self.offset_spec() == sub.offset_spec()
        &&& self.errors_spec() == before.errors_spec() + sub.errors_spec()
        &&& self.same_memos(before)
    }

    /// A session at the start of `input`, with no errors, the default context
    /// and no cache.
    pub fn new(input: I, state: Result<&'parse mut S, S>) -> (session: Self) where C: Default
        ensures
            session.input_spec() == input,
            session.offset_spec() == input.start_spec(),
            session.errors_spec() == Seq::<E>::empty(),
            session.state_spec() == match state {
                Ok(shared) => *shared,
                Err(owned) => owned,
            },
            call_ensures(C::default, (), session.ctx_spec()),
            !session.memoizing(),
            session.wf(),
    {
        let offset = input.start();
        InputRef { offset, input, state, ctx: C::default(), errors: Vec::new(), memos: None }
    }

    /// Gives the session a cache of failures, empty to begin with.
    pub fn enable_memoization(&mut self)
        ensures
            final(self).memoizing(),
            final(self).memos_spec() == Map::<(usize, usize), Option<E>>::empty(),
            final(self).memos_wf(),
            final(self).input_spec() == old(self).input_spec(),
            final(self).offset_spec() == old(self).offset_spec(),
            final(self).errors_spec() == old(self).errors_spec(),
            final(self).ctx_spec() == old(self).ctx_spec(),
            final(self).state_spec() == old(self).state_spec(),
    {
        self.memos = Some(Memo::new());
    }

    /// What the cache holds for `parser` at the current offset: `None` where
    /// nothing is cached or the session keeps no cache, `Some(None)` where
    /// the parser is running there, and its error where it has failed there.
    pub fn memo_lookup(&self, parser: usize) -> (found: Option<Option<&E>>)
        requires
            self.wf(),
        ensures
            found is Some == self.memos_spec().contains_key(self.memo_key(parser)),
            found is Some ==> (found->0 is Some
                == self.memos_spec()[self.memo_key(parser)] is Some),
            found is Some && found->0 is Some ==> *found->0->0 == self.memos_spec()[self.memo_key(
                parser,
            )]->0,
    {
        match &self.memos {
            Some(memo) => memo.lookup(I::index(self.offset), parser),
            None => None,
        }
    }

    /// Notes in the cache that `parser` has started at the current offset.
    /// Without a cache nothing happens.
    pub fn memo_begin(&mut self, parser: usize)
        requires
            old(self).wf(),
        ensures
            final(self).memos_spec() == if old(self).memoizing() {
                old(self).memos_spec().insert(old(self).memo_key(parser), None)
            } else {
                old(self).memos_spec()
            },
            final(self).memoizing() == old(self).memoizing(),
            final(self).input_spec() == old(self).input_spec(),
            final(self).offset_spec() == old(self).offset_spec(),
            final(self).errors_spec() == old(self).errors_spec(),
            final(self).ctx_spec() == old(self).ctx_spec(),
            final(self).state_spec() == old(self).state_spec(),
            final(self).wf(),
    {
        let key = I::index(self.offset);
        match &mut self.memos {
            Some(memo) => {
                memo.begin(key, parser);
            },
            None => {},
        }
    }

    /// Keeps `error` in the cache as the failure of `parser` at the current
    /// offset. Without a cache nothing happens.
    pub fn memo_fail(&mut self, parser: usize, error: E)
        requires
            old(self).wf(),
        ensures
            final(self).memos_spec() == if old(self).memoizing() {
                old(self).memos_spec().insert(old(self).memo_key(parser), Some(error))
            } else {
                old(self).memos_spec()
            },
            final(self).memoizing() == old(self).memoizing(),
            final(self).input_spec() == old(self).input_spec(),
            final(self).offset_spec() == old(self).offset_spec(),
            final(self).errors_spec() == old(self).errors_spec(),
            final(self).ctx_spec() == old(self).ctx_spec(),
            final(self).state_spec() == old(self).state_spec(),
            final(self).wf(),
    {
        let key = I::index(self.offset);
        match &mut self.memos {
            Some(memo) => {
                memo.fail(key, parser, error);
            },
            None => {},
        }
    }

    /// Runs `f` on a sub-session under the context `new_ctx`.
    ///
    /// The sub-session reads the same cursor from the current offset, works
    /// on the same user state and starts without errors. When `f` returns,
    /// this session takes over the offset the sub-session reached and appends
    /// its errors; the sub-session's context is dropped.
    pub fn with_ctx<'sub, CtxN, O, F>(&'sub mut self, new_ctx: CtxN, f: F) -> (out: O) where
        F: FnOnce(&mut InputRef<'sub, I, E, S, CtxN>) -> O,

        requires
            old(self).wf(),
            forall|sub: &mut InputRef<'sub, I, E, S, CtxN>|
                old(self).opens(&*sub, new_ctx) ==> call_requires(f, (sub,)),
            forall|sub: &mut InputRef<'sub, I, E, S, CtxN>, out: O|
                old(self).opens(&*sub, new_ctx) && call_ensures(f, (sub,), out) ==> final(sub).wf()
                    && final(sub).input_spec() == sub.input_spec(),
        ensures
            exists|sub: &mut InputRef<'sub, I, E, S, CtxN>|
                old(self).opens(&*sub, new_ctx) && #[trigger] call_ensures(f, (sub,), out)
                    && final(self).closes(old(self), final(sub)),
            final(self).wf(),
            final(self).extends(old(self)),
    {
        let mut sub = InputRef {
            input: self.input.reborrow(),
            offset: self.offset,
            state: match &mut self.state {
                Ok(shared) => Ok(&mut **shared),
                Err(owned) => Ok(owned),
            },
            ctx: new_ctx,
            errors: Vec::new(),
            memos: match &self.memos {
                Some(_) => Some(Memo::new()),
                None => None,
            },
        };
        assert(old(self).opens(&sub, new_ctx));
        let out = f(&mut sub);
        self.offset = sub.offset;
        self.errors.append(&mut sub.errors);
        out
    }

    /// Get the input offset that is currently being pointed to.
    pub fn offset(&self) -> (offset: I::Offset)
        ensures
            offset == self.offset_spec(),
    {
        self.offset
    }

    /// Save off a [`Marker`] to the current position in the input.
    pub fn save(&self) -> (marker: Marker<I>)
        ensures
            self.marks(marker),
    {
        Marker { offset: self.offset, err_count: self.errors.len() }
    }

    /// Reset the input state to the provided [`Marker`]: the offset goes back
    /// to the marker's, and the errors raised since it was taken are dropped.
    pub fn rewind(&mut self, marker: Marker<I>)
        requires
            old(self).input_spec().valid(marker.offset()),
        ensures
            final(self).rewinds_to(old(self), marker),
            final(self).input_spec().valid(final(self).offset_spec()),
            old(self).wf() ==> final(self).wf(),
    {
        self.errors.truncate(marker.err_count);
        self.offset = marker.offset;
    }

    /// The user state, to read and to change.
    pub fn state(&mut self) -> (state: &mut S)
        ensures
            *state == old(self).state_spec(),
            final(self).state_spec() == *final(state),
            final(self).input_spec() == old(self).input_spec(),
            final(self).offset_spec() == old(self).offset_spec(),
            final(self).errors_spec() == old(self).errors_spec(),
            final(self).ctx_spec() == old(self).ctx_spec(),
            final(self).same_memos(old(self)),
    {
        match &mut self.state {
            Ok(shared) => &mut **shared,
            Err(owned) => owned,
        }
    }

    /// The context value of this session.
    pub fn ctx(&self) -> (ctx: &C)
        ensures
            *ctx == self.ctx_spec(),
    {
        &self.ctx
    }

    /// Reads tokens for as long as `f` accepts them, and stops in front of
    /// the first token that `f` refuses, or at the end of the input.
    pub fn skip_while<F: Fn(&I::Token) -> bool>(&mut self, f: F)
        requires
            old(self).wf(),
            forall|token: &I::Token| call_requires(f, (token,)),
        ensures
            exists|n: nat| final(self).skipped(old(self), f, n),
            final(self).extends(old(self)),
            final(self).wf(),
    {
        let mut offs = self.offset;
        let ghost mut n: nat = 0;
        loop
            invariant_except_break
                *self == *old(self),
                old(self).wf(),
                self.input.valid(offs),
                offs == offset_after(self.input, self.offset, n),
                forall|k: nat|
                    k < n ==> accepts(f, #[trigger] token_after(self.input, self.offset, k)),
                forall|token: &I::Token| call_requires(f, (token,)),
            ensures
                self.skipped(old(self), f, n),
                self.extends(old(self)),
                self.wf(),
            decreases self.input.end_index() - I::index_of(offs),
        {
            let (offset, token) = self.input.next(offs);
            let keep = match &token {
                Some(token) => f(token),
                None => false,
            };
            if !keep {
                self.offset = offs;
                break ;
            } else {
                proof {
                    n = n + 1;
                }
                offs = offset;
            }
        }
    }

    /// Reads the next token and moves past it; at the end of the input the
    /// offset stays and there is no token.
    pub fn next(&mut self) -> (r: (I::Offset, Option<I::Token>))
        requires
            old(self).wf(),
        ensures
            r == old(self).input_spec().next_spec(old(self).offset_spec()),
            final(self).offset_spec() == r.0,
            final(self).errors_spec() == old(self).errors_spec(),
            final(self).same_setting(old(self)),
            final(self).extends(old(self)),
            final(self).wf(),
    {
        let (offset, token) = self.input.next(self.offset);
        self.offset = offset;
        (self.offset, token)
    }

    /// As `next`, lending the token instead of copying it.
    pub fn next_ref<'a>(&mut self) -> (r: (I::Offset, Option<&'a I::Token>)) where
        I: BorrowInput<'a>,
        I::Token: 'a,

        requires
            old(self).wf(),
        ensures
            r.0 == old(self).input_spec().next_spec(old(self).offset_spec()).0,
            r.1 is Some == old(self).input_spec().next_spec(old(self).offset_spec()).1 is Some,
            r.1 is Some ==> *r.1->0 == old(self).input_spec().next_spec(
                old(self).offset_spec(),
            ).1->0,
            final(self).offset_spec() == r.0,
            final(self).errors_spec() == old(self).errors_spec(),
            final(self).same_setting(old(self)),
            final(self).extends(old(self)),
            final(self).wf(),
    {
        let (offset, token) = self.input.next_ref(self.offset);
        self.offset = offset;
        (self.offset, token)
    }

    /// Get the next token in the input. Returns `None` for EOI.
    pub fn next_token(&mut self) -> (token: Option<I::Token>)
        requires
            old(self).wf(),
        ensures
            token == old(self).input_spec().next_spec(old(self).offset_spec()).1,
            final(self).offset_spec() == old(self).input_spec().next_spec(
                old(self).offset_spec(),
            ).0,
            final(self).errors_spec() == old(self).errors_spec(),
            final(self).same_setting(old(self)),
            final(self).extends(old(self)),
            final(self).wf(),
    {
        self.next().1
    }

    /// Peek the next token in the input. Returns `None` for EOI.
    pub fn peek(&self) -> (token: Option<I::Token>)
        requires
            self.wf(),
        ensures
            token == self.input_spec().next_spec(self.offset_spec()).1,
    {
        self.input.next(self.offset).1
    }

    /// Skip the next token in the input.
    pub fn skip(&mut self)
        requires
            old(self).wf(),
        ensures
            final(self).offset_spec() == old(self).input_spec().next_spec(
                old(self).offset_spec(),
            ).0,
            final(self).errors_spec() == old(self).errors_spec(),
            final(self).same_setting(old(self)),
            final(self).extends(old(self)),
            final(self).wf(),
    {
        let _ = self.next();
    }

    /// The tokens of `range`.
    pub fn slice(&self, range: Range<I::Offset>) -> (slice: I::Slice) where I: SliceInput
        requires
            self.input_spec().can_slice(range.start, range.end),
        ensures
            I::slice_tokens(slice) == self.input_spec().range_tokens(range.start, range.end),
    {
        self.input.slice(range)
    }

    /// The tokens from `from` to the end of the input.
    pub fn slice_from(&self, from: I::Offset) -> (slice: I::Slice) where I: SliceInput
        requires
            self.input_spec().can_slice(from, self.input_spec().end_spec()),
        ensures
            I::slice_tokens(slice) == self.input_spec().range_tokens(
                from,
                self.input_spec().end_spec(),
            ),
    {
        self.input.slice_from(from)
    }

    /// The tokens not yet read.
    pub fn slice_trailing(&self) -> (slice: I::Slice) where I: SliceInput
        requires
            self.input_spec().can_slice(self.offset_spec(), self.input_spec().end_spec()),
        ensures
            I::slice_tokens(slice) == self.input_spec().range_tokens(
                self.offset_spec(),
                self.input_spec().end_spec(),
            ),
    {
        self.input.slice_from(self.offset)
    }

    /// Return the span from `before` to the current position.
    pub fn span_since(&self, before: I::Offset) -> (span: I::Span)
        ensures
            span == self.input_spec().span_spec(before, self.offset_spec()),
    {
        self.input.span(before..self.offset)
    }

    /// Moves the offset `skip` indices ahead without reading.
    pub fn skip_bytes(&mut self, skip: usize) where I: StrInput
        requires
            old(self).wf(),
            old(self).offset_spec() + skip <= usize::MAX,
            old(self).input_spec().valid((old(self).offset_spec() + skip) as usize),
        ensures
            final(self).offset_spec() == old(self).offset_spec() + skip,
            final(self).errors_spec() == old(self).errors_spec(),
            final(self).same_setting(old(self)),
            final(self).extends(old(self)),
            final(self).wf(),
    {
        self.offset += skip;
    }

    /// Raises a non-fatal error; the parse goes on.
    pub fn emit(&mut self, error: E)
        ensures
            final(self).errors_spec() == old(self).errors_spec().push(error),
            final(self).offset_spec() == old(self).offset_spec(),
            final(self).same_setting(old(self)),
            final(self).extends(old(self)),
    {
        self.errors.push(error);
    }

    /// Ends the session and hands over its errors.
    pub fn into_errs(self) -> (errors: Vec<E>)
        ensures
            errors@ == self.errors_spec(),
    {
        self.errors
    }

    /// `self` is `before` after `skip_while(f)` read `n` tokens: `f` accepted
    /// each of them, and refuses the next or there is none.
    pub open spec fn skipped<F: Fn(&I::Token) -> bool>(&self, before: &Self, f: F, n: nat) -> bool {
        &&& self.offset_spec() == offset_after(before.input_spec(), before.offset_spec(), n)
        &&& forall|k: nat|
            k < n ==> accepts(
                f,
                #[trigger] token_after(before.input_spec(), before.offset_spec(), k),
            )
        &&& refuses(f, token_after(before.input_spec(), before.offset_spec(), n))
        &&& self.errors_spec() == before.errors_spec()
        &&& self.same_setting(before)
    }
}

/// Rewinding is exact. Take a marker of a session, let the session read and
/// raise errors in any way, then rewind it to the marker: the offset and the
/// errors are those the session had when the marker was taken.
pub proof fn lemma_rewind_exact<I: Input, E, S, C>(
    saved: InputRef<'_, I, E, S, C>,
    later: InputRef<'_, I, E, S, C>,
    rewound: InputRef<'_, I, E, S, C>,
    marker: Marker<I>,
)
    requires
        saved.marks(marker),
        later.extends(&saved),
        rewound.rewinds_to(&later, marker),
    ensures
        rewound.offset_spec() == saved.offset_spec(),
        rewound.offset_spec() == marker.offset(),
        rewound.errors_spec() == saved.errors_spec(),
        rewound.errors_spec().len() == marker.err_count(),
{
    assert(rewound.errors_spec() =~= saved.errors_spec());
}

/// A session that has read tokens, raised one error, or done neither since
/// `before` extends `before`.
pub proof fn lemma_step_extends<I: Input, E, S, C>(
    before: InputRef<'_, I, E, S, C>,
    after: InputRef<'_, I, E, S, C>,
)
    requires
        after.input_spec() == before.input_spec(),
        after.errors_spec() == before.errors_spec() || exists|error: E|
            after.errors_spec() == before.errors_spec().push(error),
    ensures
        after.extends(&before),
{
}

/// What extends an extension extends the first session too.
pub proof fn lemma_extends_transitive<I: Input, E, S, C>(
    first: InputRef<'_, I, E, S, C>,
    second: InputRef<'_, I, E, S, C>,
    third: InputRef<'_, I, E, S, C>,
)
    requires
        second.extends(&first),
        third.extends(&second),
    ensures
        third.extends(&first),
{
}

/// Contexts nest. Where a sub-parse of a sub-parse ends, the outer session
/// holds its own earlier errors followed by those of the inner sub-parse,
/// each once; its offset is the one the inner sub-parse reached; and its own
/// context is still in place.
pub proof fn lemma_nested_contexts<I: Input, E, S, C, C1, C2>(
    outer_before: InputRef<'_, I, E, S, C>,
    outer_after: InputRef<'_, I, E, S, C>,
    middle_before: InputRef<'_, I, E, S, C1>,
    middle_after: InputRef<'_, I, E, S, C1>,
    inner_after: InputRef<'_, I, E, S, C2>,
    middle_ctx: C1,
)
    requires
        outer_before.opens(&middle_before, middle_ctx),
        middle_after.closes(&middle_before, &inner_after),
        outer_after.closes(&outer_before, &middle_after),
    ensures
        outer_after.errors_spec() == outer_before.errors_spec() + inner_after.errors_spec(),
        outer_after.offset_spec() == inner_after.offset_spec(),
        outer_after.ctx_spec() == outer_before.ctx_spec(),
        outer_after.input_spec() == outer_before.input_spec(),
{
    assert(Seq::<E>::empty() + inner_after.errors_spec() =~= inner_after.errors_spec());
}

/// `token` is a token and `f` says yes to it.
pub open spec fn accepts<T, F: Fn(&T) -> bool>(f: F, token: Option<T>) -> bool {
    token is Some && call_ensures(f, (&token->0,), true)
}

/// There is no token, or `f` says no to it.
pub open spec fn refuses<T, F: Fn(&T) -> bool>(f: F, token: Option<T>) -> bool {
    token is None || call_ensures(f, (&token->0,), false)
}

} // verus!
