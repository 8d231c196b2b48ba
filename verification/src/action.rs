//! Generation control: the signal a callback gives after each generated token.
use vstd::prelude::*;

verus! {

/// Control-flow signal returned by a generation callback after each token.
#[derive(PartialEq, Eq, Copy, Clone, Debug, Structural)]
pub enum Action {
    /// Stop generation and return the accumulated text as a complete answer.
    Finish,
    /// Stop generation and return the accumulated text as an incomplete answer.
    Stop,
    /// Enqueue the sampled token for a future decode but pause generation now,
    /// returning a partial answer.
    Delay,
    /// Continue generation normally; this token is accepted.
    Continue,
    /// Accept the token without counting it as a stopping condition ("not my
    /// business" in a chain of callbacks).
    Next,
}

/// Control-flow signal of the single-call chat API (same meaning as [`Action`]).
#[derive(PartialEq, Eq, Copy, Clone, Debug, Structural)]
pub enum SlmAction {
    Finish,
    Stop,
    Delay,
    Continue,
    Next,
}

/// A generation callback: it sees the answer so far, the last token as text, the
/// number of generated tokens and the fork id, and says how generation goes on.
///
/// Callers implement it for their own callbacks; [`TokenLimit`] is the library's.
pub trait ActionFilter<A> {
    /// Whether [`decide`](Self::decide) is known to return [`decision`](Self::decision):
    /// false unless the callback states its decisions.
    open spec fn obeys_decision_spec(&self) -> bool {
        false
    }

    /// The decision of the callback, in this state, on the given generation state;
    /// meaningful only where [`obeys_decision_spec`](Self::obeys_decision_spec) holds.
    open spec fn decision(&self, answer: Seq<char>, last_token: Seq<char>, n_tokens: usize, fork_id: usize) -> A {
        vstd::pervasive::arbitrary()
    }

    /// Decides how generation goes on after a token.
    fn decide(&mut self, answer: &str, last_token: &str, n_tokens: usize, fork_id: usize) -> (r: A)
        ensures
            old(self).obeys_decision_spec() ==> r == old(self).decision(answer@, last_token@, n_tokens, fork_id),
    ;
}

/// Whether every present callback states its decisions.
pub open spec fn all_obey<A>(filters: Seq<Option<Box<dyn ActionFilter<A>>>>) -> bool {
    forall|j: int| 0 <= j < filters.len() ==> (#[trigger] filters[j] matches Some(f) ==> f.obeys_decision_spec())
}

/// The answer of the callbacks `filters[from..]`, polled in order with the given
/// generation state: the first decision other than `next`, or `none` when every
/// present callback decides `next`.
pub open spec fn first_decision<A>(
    filters: Seq<Option<Box<dyn ActionFilter<A>>>>,
    from: int,
    answer: Seq<char>,
    last_token: Seq<char>,
    n_tokens: usize,
    fork_id: usize,
    next: A,
    none: A,
) -> A
    decreases filters.len() - from,
{
    if from < 0 || from >= filters.len() {
        none
    } else {
        match filters[from] {
            Some(f) => {
                let d = f.decision(answer, last_token, n_tokens, fork_id);
                if d != next {
                    d
                } else {
                    first_decision(filters, from + 1, answer, last_token, n_tokens, fork_id, next, none)
                }
            },
            None => first_decision(filters, from + 1, answer, last_token, n_tokens, fork_id, next, none),
        }
    }
}

/// The index of the callback among `filters[from..]` whose decision is the first
/// other than `next`, or the length when there is none.
pub open spec fn first_decider<A>(
    filters: Seq<Option<Box<dyn ActionFilter<A>>>>,
    from: int,
    answer: Seq<char>,
    last_token: Seq<char>,
    n_tokens: usize,
    fork_id: usize,
    next: A,
) -> int
    decreases filters.len() - from,
{
    if from < 0 || from >= filters.len() {
        filters.len() as int
    } else {
        match filters[from] {
            Some(f) => if f.decision(answer, last_token, n_tokens, fork_id) != next {
                from
            } else {
                first_decider(filters, from + 1, answer, last_token, n_tokens, fork_id, next)
            },
            None => first_decider(filters, from + 1, answer, last_token, n_tokens, fork_id, next),
        }
    }
}

/// The decider comes at or after `from` (for a valid `from`).
pub proof fn lemma_first_decider_from<A>(
    filters: Seq<Option<Box<dyn ActionFilter<A>>>>,
    from: int,
    answer: Seq<char>,
    last_token: Seq<char>,
    n_tokens: usize,
    fork_id: usize,
    next: A,
)
    requires
        0 <= from <= filters.len(),
    ensures
        from <= first_decider(filters, from, answer, last_token, n_tokens, fork_id, next) <= filters.len(),
    decreases filters.len() - from,
{
    if from < filters.len() {
        lemma_first_decider_from(filters, from + 1, answer, last_token, n_tokens, fork_id, next);
    }
}

/// An optional boxed generation callback.
pub type BoxedAction = Option<Box<dyn ActionFilter<Action>>>;

/// An optional boxed generation callback of the single-call chat API.
pub type SlmBoxedAction = Option<Box<dyn ActionFilter<SlmAction>>>;

/// Finishes generation once `max_tokens` tokens have been generated.
#[derive(Clone, Copy, Debug)]
pub struct TokenLimit {
    pub max_tokens: usize,
}

impl ActionFilter<Action> for TokenLimit {
    open spec fn obeys_decision_spec(&self) -> bool {
        true
    }

    open spec fn decision(&self, answer: Seq<char>, last_token: Seq<char>, n_tokens: usize, fork_id: usize) -> Action {
        if n_tokens >= self.max_tokens { Action::Finish } else { Action::Continue }
    }

    fn decide(&mut self, answer: &str, last_token: &str, n_tokens: usize, fork_id: usize) -> (r: Action)
        ensures
            r == (if n_tokens >= old(self).max_tokens { Action::Finish } else { Action::Continue }),
            *final(self) == *old(self),
    {
        if n_tokens >= self.max_tokens {
            Action::Finish
        } else {
            Action::Continue
        }
    }
}

/// Finishes generation once `max_tokens` tokens have been generated (single-call
/// chat API).
#[derive(Clone, Copy, Debug)]
pub struct SlmTokenLimit {
    pub max_tokens: usize,
}

impl ActionFilter<SlmAction> for SlmTokenLimit {
    open spec fn obeys_decision_spec(&self) -> bool {
        true
    }

    open spec fn decision(&self, answer: Seq<char>, last_token: Seq<char>, n_tokens: usize, fork_id: usize) -> SlmAction {
        if n_tokens >= self.max_tokens { SlmAction::Finish } else { SlmAction::Continue }
    }

    fn decide(&mut self, answer: &str, last_token: &str, n_tokens: usize, fork_id: usize) -> (r: SlmAction)
        ensures
            r == (if n_tokens >= old(self).max_tokens { SlmAction::Finish } else { SlmAction::Continue }),
            *final(self) == *old(self),
    {
        if n_tokens >= self.max_tokens {
            SlmAction::Finish
        } else {
            SlmAction::Continue
        }
    }
}

/// The first decision other than `next` is never `next`, provided `none` is not.
pub proof fn lemma_first_decision_not_next<A>(
    filters: Seq<Option<Box<dyn ActionFilter<A>>>>,
    from: int,
    answer: Seq<char>,
    last_token: Seq<char>,
    n_tokens: usize,
    fork_id: usize,
    next: A,
    none: A,
)
    requires
        none != next,
    ensures
        first_decision(filters, from, answer, last_token, n_tokens, fork_id, next, none) != next,
        (forall|j: int| from <= j < filters.len() ==> filters[j] is None) ==> first_decision(
            filters, from, answer, last_token, n_tokens, fork_id, next, none) == none,
    decreases filters.len() - from,
{
    if from >= 0 && from < filters.len() {
        lemma_first_decision_not_next(filters, from + 1, answer, last_token, n_tokens, fork_id, next, none);
    }
}

impl Action {
    /// A callback that signals [`Finish`](Self::Finish) once `max_tokens` tokens
    /// have been generated, and [`Continue`](Self::Continue) before.
    pub fn token_limit(max_tokens: usize) -> (r: TokenLimit)
        ensures
            r.max_tokens == max_tokens,
    {
        TokenLimit { max_tokens }
    }

    /// Returns `true` if this action stops or pauses generation
    /// (`Finish`, `Stop`, or `Delay`).
    pub fn brake(&self) -> (r: bool)
        ensures
            r == (*self == Action::Finish || *self == Action::Stop || *self == Action::Delay),
    {
        match self {
            Action::Finish | Action::Stop | Action::Delay => true,
            _ => false,
        }
    }

    /// Polls the callbacks in order with the current generation state and returns
    /// the first answer other than `Next`, without polling the callbacks after it;
    /// `Continue` when every callback answers `Next` (or there is none).
    pub fn brake_on(a: &str, b: &str, n: usize, fork_id: usize, lf: &mut [BoxedAction]) -> (r: Action)
        ensures
            all_obey(old(lf)@) ==> r == first_decision(old(lf)@, 0, a@, b@, n, fork_id, Action::Next, Action::Continue),
            r != Action::Next,
            (forall|i: int| 0 <= i < old(lf)@.len() ==> old(lf)@[i] is None) ==> r == Action::Continue,
            final(lf)@.len() == old(lf)@.len(),
            forall|j: int| 0 <= j < old(lf)@.len() ==> (#[trigger] final(lf)@[j] is None <==> old(lf)@[j] is None),
            all_obey(old(lf)@) ==> forall|j: int|
                first_decider(old(lf)@, 0, a@, b@, n, fork_id, Action::Next) < j < old(lf)@.len()
                    ==> #[trigger] final(lf)@[j] == old(lf)@[j],
    {
        proof {
            lemma_first_decision_not_next(old(lf)@, 0, a@, b@, n, fork_id, Action::Next, Action::Continue);
        }
        let mut i: usize = 0;
        while i < lf.len()
            invariant
                i <= lf@.len(),
                lf@.len() == old(lf)@.len(),
                forall|j: int| 0 <= j < lf@.len() ==> (lf@[j] is None <==> old(lf)@[j] is None),
                forall|j: int| i <= j < lf@.len() ==> lf@[j] == old(lf)@[j],
                all_obey(old(lf)@) ==> first_decision(old(lf)@, 0, a@, b@, n, fork_id, Action::Next, Action::Continue)
                    == first_decision(old(lf)@, i as int, a@, b@, n, fork_id, Action::Next, Action::Continue),
                (forall|j: int| 0 <= j < old(lf)@.len() ==> old(lf)@[j] is None) ==> first_decision(
                    old(lf)@, i as int, a@, b@, n, fork_id, Action::Next, Action::Continue) == Action::Continue,
                all_obey(old(lf)@) ==> first_decider(old(lf)@, 0, a@, b@, n, fork_id, Action::Next)
                    == first_decider(old(lf)@, i as int, a@, b@, n, fork_id, Action::Next),
            decreases lf.len() - i,
        {
            if let Some(f) = &mut lf[i] {
                let x = f.decide(a, b, n, fork_id);
                if x != Action::Next {
                    return x;
                }
            }
            i = i + 1;
        }
        Action::Continue
    }
}

impl SlmAction {
    /// A callback that signals [`Finish`](Self::Finish) once `max_tokens` tokens
    /// have been generated, and [`Continue`](Self::Continue) before.
    pub fn token_limit(max_tokens: usize) -> (r: SlmTokenLimit)
        ensures
            r.max_tokens == max_tokens,
    {
        SlmTokenLimit { max_tokens }
    }

    /// Returns `true` if this action stops or pauses generation
    /// (`Finish`, `Stop`, or `Delay`).
    pub fn brake(&self) -> (r: bool)
        ensures
            r == (*self == SlmAction::Finish || *self == SlmAction::Stop || *self == SlmAction::Delay),
    {
        match self {
            SlmAction::Finish | SlmAction::Stop | SlmAction::Delay => true,
            _ => false,
        }
    }

    /// Polls the callbacks in order and returns the first answer other than
    /// `Next`, without polling the callbacks after it; `Continue` when every
    /// callback answers `Next` (or there is none).
    pub fn brake_on(a: &str, b: &str, n: usize, fork_id: usize, lf: &mut [SlmBoxedAction]) -> (r: SlmAction)
        ensures
            all_obey(old(lf)@) ==> r == first_decision(old(lf)@, 0, a@, b@, n, fork_id, SlmAction::Next, SlmAction::Continue),
            r != SlmAction::Next,
            (forall|i: int| 0 <= i < old(lf)@.len() ==> old(lf)@[i] is None) ==> r == SlmAction::Continue,
            final(lf)@.len() == old(lf)@.len(),
            forall|j: int| 0 <= j < old(lf)@.len() ==> (#[trigger] final(lf)@[j] is None <==> old(lf)@[j] is None),
            all_obey(old(lf)@) ==> forall|j: int|
                first_decider(old(lf)@, 0, a@, b@, n, fork_id, SlmAction::Next) < j < old(lf)@.len()
                    ==> #[trigger] final(lf)@[j] == old(lf)@[j],
    {
        proof {
            lemma_first_decision_not_next(old(lf)@, 0, a@, b@, n, fork_id, SlmAction::Next, SlmAction::Continue);
        }
        let mut i: usize = 0;
        while i < lf.len()
            invariant
                i <= lf@.len(),
                lf@.len() == old(lf)@.len(),
                forall|j: int| 0 <= j < lf@.len() ==> (lf@[j] is None <==> old(lf)@[j] is None),
                forall|j: int| i <= j < lf@.len() ==> lf@[j] == old(lf)@[j],
                all_obey(old(lf)@) ==> first_decision(old(lf)@, 0, a@, b@, n, fork_id, SlmAction::Next, SlmAction::Continue)
                    == first_decision(old(lf)@, i as int, a@, b@, n, fork_id, SlmAction::Next, SlmAction::Continue),
                (forall|j: int| 0 <= j < old(lf)@.len() ==> old(lf)@[j] is None) ==> first_decision(
                    old(lf)@, i as int, a@, b@, n, fork_id, SlmAction::Next, SlmAction::Continue) == SlmAction::Continue,
                all_obey(old(lf)@) ==> first_decider(old(lf)@, 0, a@, b@, n, fork_id, SlmAction::Next)
                    == first_decider(old(lf)@, i as int, a@, b@, n, fork_id, SlmAction::Next),
            decreases lf.len() - i,
        {
            if let Some(f) = &mut lf[i] {
                let x = f.decide(a, b, n, fork_id);
                if x != SlmAction::Next {
                    return x;
                }
            }
            i = i + 1;
        }
        SlmAction::Continue
    }
}

} // verus!
