//! Decisions of the autoregressive generation loop.
//!
//! After each sampled token the loop counts it, asks the callbacks how to go on,
//! appends its text, lets the constraint advance, and queues what the next forward
//! pass must decode.  The engine work (sampling, decoding, tokenising) is done by
//! the caller between these steps.
use vstd::prelude::*;
use vstd::string::StringExecFns;
use crate::action::{all_obey, first_decision, Action, BoxedAction, SlmAction, SlmBoxedAction};
use crate::answer::{Answer, SlmAnswer};
use crate::vocab::ConstraintStep;

verus! {

/// The text generated so far, the number of generated tokens, and the last
/// decision of the callbacks.
pub struct Generation {
    pub response: String,
    pub n_tokens: usize,
    pub brake: Action,
}

impl Generation {
    /// Nothing generated yet; generation runs.
    pub fn new() -> (r: Self)
        ensures
            r.response@ == Seq::<char>::empty(),
            r.n_tokens == 0,
            r.brake == Action::Continue,
    {
        Generation { response: String::new(), n_tokens: 0, brake: Action::Continue }
    }

    /// Whether the callbacks still let generation run.
    pub fn running(&self) -> (r: bool)
        ensures
            r == !(self.brake == Action::Finish || self.brake == Action::Stop || self.brake == Action::Delay),
    {
        !self.brake.brake()
    }

    /// Takes a sampled token rendered as `last_token`: counts it, polls the
    /// callbacks with the answer before it, and appends its text.
    pub fn accept(&mut self, last_token: &str, filters: &mut [BoxedAction])
        requires
            old(self).n_tokens < usize::MAX,
        ensures
            final(self).n_tokens == old(self).n_tokens + 1,
            final(self).response@ == old(self).response@ + last_token@,
            final(self).brake != Action::Next,
            (forall|i: int| 0 <= i < old(filters)@.len() ==> old(filters)@[i] is None) ==> final(self).brake
                == Action::Continue,
            all_obey(old(filters)@) ==> final(self).brake == first_decision(
                old(filters)@, 0, old(self).response@, last_token@, final(self).n_tokens, 0, Action::Next, Action::Continue),
    {
        self.n_tokens = self.n_tokens + 1;
        self.brake = Action::brake_on(self.response.as_str(), last_token, self.n_tokens, 0, filters);
        self.response.append(last_token);
    }

    /// The answer when the model ended the sequence or the constraint was satisfied.
    pub fn complete(self) -> (r: Answer<String>)
        ensures
            r matches Answer::Complete(t, None) && t@ == self.response@,
    {
        Answer::Complete(self.response, None)
    }

    /// The answer when the callbacks stopped generation: complete for `Finish`,
    /// incomplete for `Stop`, partial for `Delay`.
    pub fn stopped(self) -> (r: Answer<String>)
        ensures
            self.brake == Action::Finish ==> (r matches Answer::Complete(t, None) && t@ == self.response@),
            self.brake == Action::Stop ==> (r matches Answer::Incomplete(t) && t@ == self.response@),
            !(self.brake == Action::Finish || self.brake == Action::Stop) ==> (r matches Answer::Partial(t) && t@ == self.response@),
    {
        match self.brake {
            Action::Finish => Answer::Complete(self.response, None),
            Action::Stop => Answer::Incomplete(self.response),
            _ => Answer::Partial(self.response),
        }
    }
}

/// The text generated so far on one fork, the number of generated tokens, and the
/// last decision of the callbacks (single-call chat API).
pub struct SlmGeneration {
    pub response: String,
    pub n_tokens: usize,
    pub brake: SlmAction,
}

impl SlmGeneration {
    /// Nothing generated yet; generation runs.
    pub fn new() -> (r: Self)
        ensures
            r.response@ == Seq::<char>::empty(),
            r.n_tokens == 0,
            r.brake == SlmAction::Continue,
    {
        SlmGeneration { response: String::new(), n_tokens: 0, brake: SlmAction::Continue }
    }

    /// Whether the callbacks still let generation run.
    pub fn running(&self) -> (r: bool)
        ensures
            r == !(self.brake == SlmAction::Finish || self.brake == SlmAction::Stop || self.brake == SlmAction::Delay),
    {
        !self.brake.brake()
    }

    /// Takes a sampled token of fork `fork_id` rendered as `last_token`: counts it,
    /// polls the callbacks with the answer before it, and appends its text.
    pub fn accept(&mut self, last_token: &str, fork_id: usize, filters: &mut [SlmBoxedAction])
        requires
            old(self).n_tokens < usize::MAX,
        ensures
            final(self).n_tokens == old(self).n_tokens + 1,
            final(self).response@ == old(self).response@ + last_token@,
            final(self).brake != SlmAction::Next,
            (forall|i: int| 0 <= i < old(filters)@.len() ==> old(filters)@[i] is None) ==> final(self).brake
                == SlmAction::Continue,
            all_obey(old(filters)@) ==> final(self).brake == first_decision(
                old(filters)@, 0, old(self).response@, last_token@, final(self).n_tokens, fork_id, SlmAction::Next,
                SlmAction::Continue),
    {
        self.n_tokens = self.n_tokens + 1;
        self.brake = SlmAction::brake_on(self.response.as_str(), last_token, self.n_tokens, fork_id, filters);
        self.response.append(last_token);
    }

    /// The answer of fork `fork_id` when the model ended the sequence or the
    /// constraint was satisfied.
    pub fn complete(self, fork_id: usize) -> (r: SlmAnswer)
        ensures
            r matches SlmAnswer::Complete(t, id, None) && t@ == self.response@ && id == fork_id,
    {
        SlmAnswer::Complete(self.response, fork_id, None)
    }

    /// The answer of fork `fork_id` when the callbacks stopped generation: complete
    /// for `Finish`, incomplete for `Stop`, partial for `Delay`.
    pub fn stopped(self, fork_id: usize) -> (r: SlmAnswer)
        ensures
            self.brake == SlmAction::Finish ==> (r matches SlmAnswer::Complete(t, id, None) && t@ == self.response@
                && id == fork_id),
            self.brake == SlmAction::Stop ==> (r matches SlmAnswer::Incomplete(t, id) && t@ == self.response@ && id
                == fork_id),
            !(self.brake == SlmAction::Finish || self.brake == SlmAction::Stop) ==> (r matches SlmAnswer::Partial(t, id)
                && t@ == self.response@ && id == fork_id),
    {
        match self.brake {
            SlmAction::Finish => SlmAnswer::Complete(self.response, fork_id, None),
            SlmAction::Stop => SlmAnswer::Incomplete(self.response, fork_id),
            _ => SlmAnswer::Partial(self.response, fork_id),
        }
    }
}

/// What the loop does after a token: the entries to queue (token, position,
/// whether logits are wanted), whether to run a forward pass, whether the
/// constraint ended generation, and the position after the step.
pub struct StepPlan {
    pub batch: Vec<(i32, usize, bool)>,
    pub decode: bool,
    pub finished: bool,
    pub n_cur: usize,
}

/// The queue entries for a sampled token followed by forced tokens: the sampled
/// token without logits, then each forced token at the next positions, only the
/// last one asking for logits.
pub open spec fn fast_forward_entries(token: i32, n_cur: int, forced: Seq<i32>) -> Seq<(i32, int, bool)> {
    seq![(token, n_cur, false)] + Seq::new(forced.len(), |i: int| (forced[i], n_cur + 1 + i, i == forced.len() - 1))
}

/// The queue entries as integers.
pub open spec fn entries_view(v: Seq<(i32, usize, bool)>) -> Seq<(i32, int, bool)> {
    v.map_values(|e: (i32, usize, bool)| (e.0, e.1 as int, e.2))
}

/// Whether the constraint is advanced after the callbacks' decision.
pub open spec fn consults_constraint(brake: Action) -> bool {
    brake == Action::Continue || brake == Action::Delay
}

/// Whether the constraint ends generation at this step.
pub open spec fn constraint_stops(brake: Action, step: Option<ConstraintStep>) -> bool {
    consults_constraint(brake) && step == Some(ConstraintStep::Stop)
}

/// Plans what follows a sampled `token` at position `n_cur`, given the callbacks'
/// decision and, when they let the token through, the constraint's step (`None`
/// when there is no constraint).
///
/// - A constraint `Stop` ends generation at once.
/// - Forced tokens are queued after the sampled one.
/// - A plain step queues the sampled token with logits.
/// - Only `Continue` runs a forward pass; the position moves past every queued token.
pub fn plan_step(brake: Action, token: i32, n_cur: usize, step: Option<ConstraintStep>) -> (r: StepPlan)
    requires
        step matches Some(ConstraintStep::FastForward(ff)) ==> ff@.len() > 0 && n_cur + ff@.len() + 1 <= usize::MAX,
        n_cur < usize::MAX,
    ensures
        constraint_stops(brake, step) ==> (r.finished && r.batch@.len() == 0 && !r.decode && r.n_cur == n_cur),
        !constraint_stops(brake, step) ==> (!r.finished && r.decode == (brake == Action::Continue)),
        step matches Some(ConstraintStep::FastForward(ff)) ==> (consults_constraint(brake) ==> (entries_view(r.batch@)
            == fast_forward_entries(token, n_cur as int, ff@) && r.n_cur == n_cur + ff@.len() + 1)),
        consults_constraint(brake) && !(step matches Some(ConstraintStep::FastForward(_))) && !constraint_stops(brake, step)
            ==> (entries_view(r.batch@) == seq![(token, n_cur as int, true)] && r.n_cur == n_cur + 1),
        !consults_constraint(brake) ==> r.batch@.len() == 0 && r.n_cur == n_cur + 1,
{
    let mut batch: Vec<(i32, usize, bool)> = Vec::new();
    if brake == Action::Continue || brake == Action::Delay {
        match step {
            Some(ConstraintStep::FastForward(ff)) => {
                batch.push((token, n_cur, false));
                let last = ff.len() - 1;
                let mut pos = n_cur;
                let mut i: usize = 0;
                while i < ff.len()
                    invariant
                        i <= ff@.len(),
                        last == ff@.len() - 1,
                        pos == n_cur + i,
                        n_cur + ff@.len() + 1 <= usize::MAX,
                        batch@.len() == i + 1,
                        entries_view(batch@)[0] == (token, n_cur as int, false),
                        forall|j: int| 0 <= j < i ==> #[trigger] entries_view(batch@)[j + 1] == (ff@[j], n_cur + 1 + j, j == ff@.len() - 1),
                    decreases ff.len() - i,
                {
                    pos = pos + 1;
                    let ghost before = batch@;
                    batch.push((ff[i], pos, i == last));
                    assert forall|j: int| 0 <= j < i + 1 implies #[trigger] entries_view(batch@)[j + 1] == (ff@[j], n_cur + 1 + j, j == ff@.len() - 1) by {
                        if j < i {
                            assert(entries_view(batch@)[j + 1] == entries_view(before)[j + 1]);
                        }
                    }
                    assert(entries_view(batch@)[0] == entries_view(before)[0]);
                    i = i + 1;
                }
                assert(entries_view(batch@) =~= fast_forward_entries(token, n_cur as int, ff@)) by {
                    assert forall|k: int| 0 <= k < batch@.len() implies entries_view(batch@)[k] == fast_forward_entries(token, n_cur as int, ff@)[k] by {
                        if k > 0 {
                            assert(entries_view(batch@)[(k - 1) + 1] == (ff@[k - 1], n_cur + 1 + (k - 1), k - 1 == ff@.len() - 1));
                        }
                    }
                }
                StepPlan { batch, decode: brake == Action::Continue, finished: false, n_cur: pos + 1 }
            },
            Some(ConstraintStep::Stop) => {
                StepPlan { batch, decode: false, finished: true, n_cur }
            },
            _ => {
                batch.push((token, n_cur, true));
                StepPlan { batch, decode: brake == Action::Continue, finished: false, n_cur: n_cur + 1 }
            },
        }
    } else {
        StepPlan { batch, decode: false, finished: false, n_cur: n_cur + 1 }
    }
}

/// Whether the constraint is advanced after this decision of the callbacks (the
/// token is kept, now or after a pause).
pub fn advances_constraint(brake: Action) -> (r: bool)
    ensures
        r == consults_constraint(brake),
{
    brake == Action::Continue || brake == Action::Delay
}

/// The chunks in which the pending tokens `start..end` are decoded: consecutive
/// ranges of `n_batch` tokens (of one token when `n_batch` is 0), the last one
/// possibly shorter.
pub open spec fn chunks_ok(chunks: Seq<(usize, usize)>, start: int, end: int, size: int) -> bool {
    &&& start >= end ==> chunks.len() == 0
    &&& start < end ==> chunks.len() > 0 && chunks[0].0 == start && chunks.last().1 == end
    &&& forall|k: int| 0 <= k < chunks.len() - 1 ==> #[trigger] chunks[k].1 == chunks[k + 1].0 && chunks[k].1 - chunks[k].0 == size
    &&& forall|k: int| 0 <= k < chunks.len() ==> 0 < #[trigger] chunks[k].1 - chunks[k].0 <= size
}

/// Splits the pending tokens `start..end` into the chunks decoded one forward pass
/// each.
pub fn prefill_chunks(start: usize, end: usize, n_batch: usize) -> (r: Vec<(usize, usize)>)
    ensures
        chunks_ok(r@, start as int, end as int, if n_batch == 0 { 1 } else { n_batch as int }),
{
    let size: usize = if n_batch == 0 { 1 } else { n_batch };
    let mut chunks: Vec<(usize, usize)> = Vec::new();
    let mut pos = start;
    while pos < end
        invariant
            size >= 1,
            size == (if n_batch == 0 { 1 } else { n_batch as int }),
            start <= pos <= end || (start >= end && pos == start),
            pos > start ==> chunks@.len() > 0 && chunks@.last().1 == pos,
            pos == start ==> chunks@.len() == 0,
            chunks@.len() > 0 ==> chunks@[0].0 == start,
            forall|k: int| 0 <= k < chunks@.len() - 1 ==> #[trigger] chunks@[k].1 == chunks@[k + 1].0 && chunks@[k].1 - chunks@[k].0 == size,
            forall|k: int| 0 <= k < chunks@.len() ==> 0 < #[trigger] chunks@[k].1 - chunks@[k].0 <= size,
            chunks@.len() > 0 && pos < end ==> chunks@.last().1 - chunks@.last().0 == size,
        decreases end - pos,
    {
        let next = if end - pos > size { pos + size } else { end };
        let ghost before = chunks@;
        chunks.push((pos, next));
        assert forall|k: int| 0 <= k < chunks@.len() - 1 implies #[trigger] chunks@[k].1 == chunks@[k + 1].0 && chunks@[k].1 - chunks@[k].0 == size by {
            assert(chunks@[k] == before[k]);
            if k < before.len() - 1 {
                assert(chunks@[k + 1] == before[k + 1]);
            }
        }
        pos = next;
    }
    chunks
}

/// What must happen to the KV cache before decoding from position `n_cur` when the
/// cache already holds `cached` positions.
#[derive(Debug, Clone, Copy, PartialEq, Eq, Structural)]
pub enum CacheEdit {
    /// The cache ends at or before `n_cur`: nothing to do.
    Keep,
    /// Remove the cache tail from `n_cur` on.
    Truncate(usize),
    /// The context cannot cut its cache: drop the whole sequence and start again.
    Drop,
}

/// The cache edit needed before decoding from `n_cur`: a context that can cut its
/// cache truncates it, another one drops the sequence.
pub fn cache_edit(cached: usize, n_cur: usize, level: crate::context::EditLevel) -> (r: CacheEdit)
    ensures
        cached <= n_cur ==> r == CacheEdit::Keep,
        cached > n_cur && crate::context::edit_rank(level) >= 1 ==> r == CacheEdit::Truncate(n_cur),
        cached > n_cur && crate::context::edit_rank(level) < 1 ==> r == CacheEdit::Drop,
{
    if cached > n_cur {
        if level.includes(&crate::context::EditLevel::Cut) {
            CacheEdit::Truncate(n_cur)
        } else {
            CacheEdit::Drop
        }
    } else {
        CacheEdit::Keep
    }
}

/// The token count and decoded position after rolling back to `pos`: neither
/// grows, both are cut down to `pos`.
pub open spec fn rolled_back_positions(n_tokens: int, n_cur: int, pos: int) -> (int, int) {
    (if n_tokens > pos { pos } else { n_tokens }, if n_cur > pos { pos } else { n_cur })
}

/// The token count and decoded position after rolling back to `pos`: neither
/// grows, both are cut down to `pos`.
pub fn rollback_positions(n_tokens: usize, n_cur: usize, pos: usize) -> (r: (usize, usize))
    ensures
        (r.0 as int, r.1 as int) == rolled_back_positions(n_tokens as int, n_cur as int, pos as int),
{
    (if n_tokens > pos { pos } else { n_tokens }, if n_cur > pos { pos } else { n_cur })
}

/// The tokens of a sequence after rolling back to `pos`: those before `pos`.
pub open spec fn rolled_back_tokens(tokens: Seq<i32>, pos: int) -> Seq<i32> {
    if tokens.len() > pos { tokens.take(pos) } else { tokens }
}

/// The tokens of a sequence, and how many of them have been decoded.
pub struct TokenLog {
    pub tokens: Vec<i32>,
    pub n_cur: usize,
}

impl TokenLog {
    /// No tokens.
    pub fn new() -> (r: Self)
        ensures
            r.tokens@ == Seq::<i32>::empty(),
            r.n_cur == 0,
    {
        TokenLog { tokens: Vec::new(), n_cur: 0 }
    }

    /// The number of tokens, the position a snapshot records.
    pub fn pos(&self) -> (r: usize)
        ensures
            r == self.tokens@.len(),
    {
        self.tokens.len()
    }

    /// Appends tokenised prompt text.
    pub fn extend(&mut self, more: &[i32])
        ensures
            final(self).tokens@ == old(self).tokens@ + more@,
            final(self).n_cur == old(self).n_cur,
    {
        let mut i: usize = 0;
        while i < more.len()
            invariant
                i <= more@.len(),
                self.tokens@ == old(self).tokens@ + more@.take(i as int),
                self.n_cur == old(self).n_cur,
            decreases more.len() - i,
        {
            self.tokens.push(more[i]);
            assert(more@.take(i + 1) =~= more@.take(i as int).push(more@[i as int]));
            i = i + 1;
        }
        assert(more@.take(more@.len() as int) =~= more@);
    }

    /// Forgets every token.
    pub fn clear(&mut self)
        ensures
            final(self).tokens@ == Seq::<i32>::empty(),
            final(self).n_cur == 0,
    {
        self.tokens.clear();
        self.n_cur = 0;
    }

    /// Rolls back to `pos`: the tokens from `pos` on are dropped and the decoded
    /// position goes back to `pos` if it was beyond.
    pub fn rollback(&mut self, pos: usize)
        ensures
            final(self).tokens@ == rolled_back_tokens(old(self).tokens@, pos as int),
            (final(self).tokens@.len() as int, final(self).n_cur as int) == rolled_back_positions(
                old(self).tokens@.len() as int,
                old(self).n_cur as int,
                pos as int,
            ),
    {
        let (n_tokens, n_cur) = rollback_positions(self.tokens.len(), self.n_cur, pos);
        self.tokens.truncate(n_tokens);
        self.n_cur = n_cur;
    }
}

} // verus!
