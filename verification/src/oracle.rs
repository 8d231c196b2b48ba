//! Turn sequencing of a conversational oracle: which delimiters a prompt fragment
//! needs, when the beginning-of-sequence text is emitted, how a generated answer is
//! post-processed, and how the turn state is saved and restored.
//!
//! The inference engine itself (prefill, generation, KV-cache rollback) is driven by
//! the caller; [`OracleCore`] holds the conversation state and makes the decisions.
use vstd::prelude::*;
use vstd::string::StringExecFns;
use crate::answer::{split_answer_text, Answer};
use crate::errors::InferenceError;
use crate::formatter::{opt_str_view, opt_string_view, thought_split, Formatter, Role};

verus! {

/// Default upper bound on generated tokens per generation call.
pub const DEFAULT_MAX_ANSWER_TOKENS: usize = 1024;

/// A snapshot of the conversation: the token position and the open turn.
#[derive(Debug, Clone, Copy, PartialEq, Eq, Structural)]
pub struct OracleState {
    pub pos: usize,
    pub role: Option<Role>,
}

impl OracleState {
    pub fn new(pos: usize, role: Option<Role>) -> (r: Self)
        ensures
            r.pos == pos,
            r.role == role,
    {
        OracleState { pos, role }
    }
}

/// A snapshot of the conversation of the single-call chat API.
#[derive(Debug, Clone, Copy, PartialEq, Eq, Structural)]
pub struct SlmOracleState {
    pub pos: usize,
    pub role: Option<Role>,
}

impl SlmOracleState {
    pub fn new(pos: usize, role: Option<Role>) -> (r: Self)
        ensures
            r.pos == pos,
            r.role == role,
    {
        SlmOracleState { pos, role }
    }
}

/// The conversation state of an oracle.
#[derive(Debug, Clone, Copy, PartialEq, Eq, Structural)]
pub struct OracleCore {
    /// Token budget of each generation call.
    pub max_answer_tokens: usize,
    /// Nothing has been sent since the context was created or cleared.
    pub is_fresh_context: bool,
    /// The turn currently open, if any.
    pub active_turn: Option<Role>,
    /// Where to return after a generation call, if anywhere.
    pub reset_point: Option<OracleState>,
    /// Whether the context was fresh when the reset point was taken.
    pub reset_fresh: bool,
}

/// The beginning-of-sequence text owed by a context in this freshness state.
pub open spec fn bos_part<F: Formatter>(f: &F, fresh: bool) -> Seq<char> {
    if fresh {
        match f.bos_text() {
            Some(b) => b,
            None => Seq::empty(),
        }
    } else {
        Seq::empty()
    }
}

/// The closing delimiter of the open turn, if any.
pub open spec fn end_of<F: Formatter>(f: &F, active: Option<Role>) -> Seq<char> {
    match active {
        Some(r) => f.turn_end_text(r),
        None => Seq::empty(),
    }
}

/// What a prompt of `role` with `text` appends to the fragment (after the BOS
/// part), and the turn open afterwards: a prompt of another role than the open
/// turn's closes that turn (once) and opens its own; a prompt of the open turn's
/// role adds just its text.
pub open spec fn prompt_delimited<F: Formatter>(f: &F, active: Option<Role>, role: Role, text: Seq<char>) -> (Seq<char>, Option<Role>) {
    if active != Some(role) {
        (end_of(f, active) + f.turn_start_text(role) + text, Some(role))
    } else {
        (text, active)
    }
}

/// The fragment a prompt adds (BOS part included) and the turn open afterwards.
pub open spec fn prompt_spec<F: Formatter>(f: &F, core: OracleCore, role: Role, text: Seq<char>) -> (Seq<char>, Option<Role>) {
    let d = prompt_delimited(f, core.active_turn, role, text);
    (bos_part(f, core.is_fresh_context) + d.0, d.1)
}

/// The fragment that starts a generation after a prompt of `role` with `text`: the
/// prompt itself, the switch to the assistant turn when it is not open yet, and the
/// reasoning trigger when thinking is asked for.
pub open spec fn generation_fragment<F: Formatter>(f: &F, core: OracleCore, role: Role, text: Seq<char>, think: bool) -> Seq<char> {
    let p = prompt_spec(f, core, role, text);
    let opened = if p.1 != Some(Role::Assistant) {
        p.0 + f.turn_end_text(role) + f.turn_start_text(Role::Assistant)
    } else {
        p.0
    };
    opened + trigger_part(f, think)
}

/// The reasoning trigger injected for a thinking generation, if the model has one.
pub open spec fn trigger_part<F: Formatter>(f: &F, think: bool) -> Seq<char> {
    if think {
        match f.reasoning_trigger_text() {
            Some(t) => t,
            None => Seq::empty(),
        }
    } else {
        Seq::empty()
    }
}

/// The answer text after the reasoning trigger is put back in front of it (for a
/// thinking generation).
pub open spec fn answer_with_trigger<F: Formatter>(f: &F, text: Seq<char>, think: bool) -> Seq<char> {
    if think {
        trigger_part(f, true) + text
    } else {
        text
    }
}

/// The snapshot [`OracleCore::save`] takes at token position `pos`.
pub open spec fn saved(core: OracleCore, pos: usize) -> OracleState {
    OracleState { pos, role: core.active_turn }
}

/// The state after [`OracleCore::rollback`] to `state`.
pub open spec fn rolled_back(core: OracleCore, state: OracleState) -> OracleCore {
    OracleCore { active_turn: state.role, ..core }
}

/// The state after [`OracleCore::clear`].
pub open spec fn cleared(core: OracleCore) -> OracleCore {
    OracleCore { is_fresh_context: true, active_turn: None, ..core }
}

/// The state of a new conversation with the given token budget.
pub open spec fn fresh_core(max_answer_tokens: usize) -> OracleCore {
    OracleCore { max_answer_tokens, is_fresh_context: true, active_turn: None, reset_point: None, reset_fresh: false }
}

/// The state after a generated answer is post-processed: a complete answer of a
/// retained (`!reset`), non-thinking generation closes the turn and forgets the
/// reset point; otherwise nothing changes, so that releasing the reset point
/// discards the exchange.
pub open spec fn answered(core: OracleCore, complete: bool, think: bool, reset: bool) -> OracleCore {
    if !reset && !think && complete {
        OracleCore { reset_point: None, reset_fresh: false, active_turn: None, ..core }
    } else {
        core
    }
}

/// What releasing the reset point gives: the position to roll the engine back to
/// (if there is a reset point), and the state as it was when the point was taken:
/// the saved turn open again and the context as fresh as it was then.
pub open spec fn released(core: OracleCore) -> (Option<usize>, OracleCore) {
    match core.reset_point {
        Some(sp) => (
            Some(sp.pos),
            OracleCore { active_turn: sp.role, is_fresh_context: core.reset_fresh, reset_point: None, reset_fresh: false, ..core },
        ),
        None => (None, core),
    }
}

/// The state once a generation has started with the engine at token position
/// `pos` (before the prompt is sent): the assistant turn is open, and the reset
/// point records `pos`, the turn open before the prompt and whether the context
/// was fresh, so that releasing it restores all three.
pub open spec fn generation_started(core: OracleCore, pos: usize) -> OracleCore {
    OracleCore {
        is_fresh_context: false,
        active_turn: Some(Role::Assistant),
        reset_point: Some(OracleState { pos, role: core.active_turn }),
        reset_fresh: core.is_fresh_context,
        ..core
    }
}

/// The state after a prompt of `role` with `text`.
pub open spec fn prompted<F: Formatter>(f: &F, core: OracleCore, role: Role, text: Seq<char>) -> OracleCore {
    OracleCore { is_fresh_context: false, active_turn: prompt_spec(f, core, role, text).1, ..core }
}

impl OracleCore {
    /// A fresh conversation with the default token budget.
    pub fn new() -> (r: Self)
        ensures
            r == fresh_core(DEFAULT_MAX_ANSWER_TOKENS),
    {
        OracleCore {
            max_answer_tokens: DEFAULT_MAX_ANSWER_TOKENS,
            is_fresh_context: true,
            active_turn: None,
            reset_point: None,
            reset_fresh: false,
        }
    }

    /// Appends the beginning-of-sequence text to `s` the first time anything is
    /// sent to a fresh context.
    pub fn bos<F: Formatter>(&mut self, formatter: &F, s: &mut String)
        ensures
            final(s)@ == old(s)@ + bos_part(formatter, old(self).is_fresh_context),
            *final(self) == (OracleCore { is_fresh_context: false, ..*old(self) }),
    {
        if self.is_fresh_context {
            if let Some(b) = formatter.bos() {
                s.append(b);
            }
            self.is_fresh_context = false;
        }
    }

    /// Appends to `fragment` what a prompt of `role` with `text` must send: the BOS
    /// text on a fresh context, the delimiters that close the open turn and open the
    /// prompt's turn when needed, and the text.
    pub fn prepare_prompt<F: Formatter>(&mut self, formatter: &F, role: &Role, text: &str, fragment: &mut String)
        ensures
            final(fragment)@ == old(fragment)@ + prompt_spec(formatter, *old(self), *role, text@).0,
            *final(self) == prompted(formatter, *old(self), *role, text@),
    {
        let ghost f0 = fragment@;
        let ghost c0 = *self;
        self.bos(formatter, fragment);
        let ghost f1 = fragment@;
        if self.active_turn != Some(*role) {
            if let Some(active_role) = self.active_turn {
                fragment.append(formatter.turn_end(&active_role).as_str());
            }
            fragment.append(formatter.turn_start(role).as_str());
            self.active_turn = Some(*role);
        }
        fragment.append(text);
        assert(fragment@ =~= f0 + prompt_spec(formatter, c0, *role, text@).0);
    }

    /// The fragment that starts a generation for a `User` prompt: the prompt, the
    /// switch to the assistant turn, and (when `think`) the reasoning trigger, which
    /// is also returned so the caller can feed it to its constraint.  Assistant and
    /// system prompts cannot start a generation.
    pub fn generate_fragment<'a, F: Formatter>(
        &mut self,
        formatter: &'a F,
        role: &Role,
        text: &str,
        think: bool,
        pos: usize,
    ) -> (r: Result<(String, Option<&'a str>), InferenceError>)
        ensures
            (*role == Role::Assistant || *role == Role::System) <==> r is Err,
            r is Err ==> (r matches Err(InferenceError::InvalidRole) && *final(self) == *old(self)),
            r matches Ok((frag, trig)) ==> ({
                &&& frag@ == generation_fragment(formatter, *old(self), *role, text@, think)
                &&& opt_str_view(trig) == (if think { formatter.reasoning_trigger_text() } else { None })
                &&& *final(self) == generation_started(*old(self), pos)
            }),
    {
        if *role == Role::Assistant || *role == Role::System {
            return Err(InferenceError::InvalidRole);
        }
        let before = OracleState { pos, role: self.active_turn };
        let fresh = self.is_fresh_context;
        let mut fragment = String::new();
        self.prepare_prompt(formatter, role, text, &mut fragment);
        if self.active_turn != Some(Role::Assistant) {
            fragment.append(formatter.turn_end(role).as_str());
            fragment.append(formatter.turn_start(&Role::Assistant).as_str());
            self.active_turn = Some(Role::Assistant);
        }
        let trigger = if think {
            formatter.reasoning_trigger()
        } else {
            None
        };
        if let Some(t) = trigger {
            fragment.append(t);
        }
        self.reset_point = Some(before);
        self.reset_fresh = fresh;
        Ok((fragment, trigger))
    }

    /// Post-processes a generated answer: for a thinking generation the reasoning
    /// trigger is put back in front of the text; a complete answer of a retained,
    /// non-thinking generation closes the turn and forgets the reset point; finally
    /// the chain-of-thought is split off.
    pub fn generate_answer<F: Formatter>(&mut self, formatter: &F, answer: Answer<String>, think: bool, reset: bool) -> (r: Answer<String>)
        requires
            answer matches Answer::Complete(text, None) ==> formatter.strip_tags_defined(
                thought_split(formatter, answer_with_trigger(formatter, text@, think)).0,
            ),
        ensures
            *final(self) == answered(*old(self), answer is Complete, think, reset),
            match answer {
                Answer::Complete(text, None) => r matches Answer::Complete(t, th)
                    && t@ == split_answer_text(formatter, answer_with_trigger(formatter, text@, think)).0
                    && opt_string_view(th) == split_answer_text(formatter, answer_with_trigger(formatter, text@, think)).1,
                Answer::Complete(text, Some(th)) => r matches Answer::Complete(t, Some(th2))
                    && t@ == answer_with_trigger(formatter, text@, think) && th2 == th,
                Answer::Partial(text) => r matches Answer::Partial(t) && t@ == answer_with_trigger(formatter, text@, think),
                Answer::Incomplete(text) => r matches Answer::Incomplete(t) && t@ == answer_with_trigger(formatter, text@, think),
            },
    {
        let answer = if think {
            let prefix = match formatter.reasoning_trigger() {
                Some(t) => t,
                None => "",
            };
            proof {
                reveal_strlit("");
            }
            match answer {
                Answer::Complete(s, th) => {
                    let mut t = String::from_str(prefix);
                    t.append(s.as_str());
                    Answer::Complete(t, th)
                },
                Answer::Partial(s) => {
                    let mut t = String::from_str(prefix);
                    t.append(s.as_str());
                    Answer::Partial(t)
                },
                Answer::Incomplete(s) => {
                    let mut t = String::from_str(prefix);
                    t.append(s.as_str());
                    Answer::Incomplete(t)
                },
            }
        } else {
            answer
        };
        if !reset && !think && answer.is_complete() {
            self.reset_point = None;
            self.reset_fresh = false;
            self.active_turn = None;
        }
        answer.split_thought(formatter)
    }

    /// Whether [`generate_answer`](Self::generate_answer) can process `answer`: the
    /// markup of a fresh complete answer (with the trigger put back for a thinking
    /// generation) must be strippable once its reasoning is split off.
    pub fn answer_splits<F: Formatter>(formatter: &F, answer: &Answer<String>, think: bool) -> (r: bool)
        ensures
            r == (answer matches Answer::Complete(text, None) ==> formatter.strip_tags_defined(
                thought_split(formatter, answer_with_trigger(formatter, text@, think)).0,
            )),
    {
        match answer {
            Answer::Complete(text, None) => {
                let mut t = String::new();
                if think {
                    if let Some(p) = formatter.reasoning_trigger() {
                        t.append(p);
                    }
                }
                t.append(text.as_str());
                formatter.strip_thought_ok(t.as_str())
            },
            _ => true,
        }
    }

    /// A snapshot at token position `pos` with the open turn.
    pub fn save(&self, pos: usize) -> (r: OracleState)
        ensures
            r == saved(*self, pos),
    {
        OracleState::new(pos, self.active_turn)
    }

    /// Restores the open turn of a snapshot (the caller rolls the engine back to
    /// `state.pos`).
    pub fn rollback(&mut self, state: &OracleState)
        ensures
            *final(self) == rolled_back(*old(self), *state),
    {
        self.active_turn = state.role;
    }

    /// Forgets the conversation: the context is fresh again and no turn is open
    /// (the caller clears the engine).
    pub fn clear(&mut self)
        ensures
            *final(self) == cleared(*old(self)),
    {
        self.is_fresh_context = true;
        self.active_turn = None;
    }

    /// Consumes the reset point, if any: its turn becomes the open turn and its
    /// position is returned for the caller to roll the engine back to.
    pub fn release_reset_point(&mut self) -> (r: Option<usize>)
        ensures
            (r, *final(self)) == released(*old(self)),
    {
        match self.reset_point {
            Some(sp) => {
                self.active_turn = sp.role;
                self.is_fresh_context = self.reset_fresh;
                self.reset_point = None;
                self.reset_fresh = false;
                Some(sp.pos)
            },
            None => None,
        }
    }

    /// Sets the token budget of each generation call.
    pub fn set_max_answer_tokens(&mut self, max_answer_tokens: usize)
        ensures
            *final(self) == (OracleCore { max_answer_tokens, ..*old(self) }),
    {
        self.max_answer_tokens = max_answer_tokens;
    }
}

} // verus!
