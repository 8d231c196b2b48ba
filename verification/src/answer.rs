//! The result of a generation call: the generated value and how generation ended.
use vstd::prelude::*;
use vstd::string::to_string_from_display_ensures;
use crate::formatter::{opt_str_view, opt_string_view, thought_of, thought_split, Formatter};
use crate::text::trim;

verus! {

/// The result of a single generation call, capturing both the generated value and
/// the completion state of that generation.
///
/// `Complete` additionally holds an optional `thinking` string extracted by
/// [`split_thought`](Self::split_thought).
#[derive(Debug)]
pub enum Answer<T> {
    /// Generation finished naturally (EOS token reached or constraint satisfied),
    /// with the model's chain-of-thought once it has been split off.
    Complete(T, Option<String>),
    /// Generation was paused by a `Delay` action; the sequence is not closed yet.
    Partial(T),
    /// Generation was interrupted (e.g. token limit exceeded) before a natural stop.
    Incomplete(T),
}

impl<T> Answer<T> {
    /// The generated value, whatever the completion state.
    pub open spec fn value_of(&self) -> T {
        match self {
            Answer::Complete(t, _) => *t,
            Answer::Partial(t) => *t,
            Answer::Incomplete(t) => *t,
        }
    }

    /// The extracted chain-of-thought: only a `Complete` answer carries one.
    pub open spec fn thought_of(&self) -> Option<Seq<char>> {
        match self {
            Answer::Complete(_, th) => opt_string_view(*th),
            _ => None,
        }
    }

    /// Returns `true` if the answer completed naturally (EOS or constraint stop).
    pub fn is_complete(&self) -> (r: bool)
        ensures
            r == (self is Complete),
    {
        match self {
            Answer::Complete(_, _) => true,
            _ => false,
        }
    }

    /// Returns `true` if the answer was paused mid-generation by a `Delay` action.
    pub fn is_partial(&self) -> (r: bool)
        ensures
            r == (self is Partial),
    {
        match self {
            Answer::Partial(_) => true,
            _ => false,
        }
    }

    /// The generated value regardless of completion state.
    pub fn value(&self) -> (r: &T)
        ensures
            *r == self.value_of(),
    {
        match self {
            Answer::Complete(t, _) => t,
            Answer::Partial(t) => t,
            Answer::Incomplete(t) => t,
        }
    }

    /// Applies `f` to the value, keeping the variant and the chain-of-thought.
    pub fn map<F>(self, f: F) -> (r: Self)
        where
            F: FnOnce(T) -> T,
        requires
            f.requires((self.value_of(),)),
        ensures
            f.ensures((self.value_of(),), r.value_of()),
            (r is Complete) == (self is Complete),
            (r is Partial) == (self is Partial),
            (r is Incomplete) == (self is Incomplete),
            r.thought_of() == self.thought_of(),
            self matches Answer::Complete(_, th) ==> r matches Answer::Complete(_, th2) && th2 == th,
    {
        match self {
            Answer::Complete(text, thought) => Answer::Complete(f(text), thought),
            Answer::Partial(text) => Answer::Partial(f(text)),
            Answer::Incomplete(text) => Answer::Incomplete(f(text)),
        }
    }

    /// The extracted chain-of-thought, if available (only for `Complete` answers
    /// after [`split_thought`](Self::split_thought)).
    pub fn thought(&self) -> (r: Option<&str>)
        ensures
            opt_str_view(r) == self.thought_of(),
    {
        match self {
            Answer::Complete(_, Some(t)) => Some(t.as_str()),
            _ => None,
        }
    }
}

impl<T: core::fmt::Display> Answer<T> {
    /// The value rendered with its `Display` implementation.
    pub fn text(&self) -> (r: String)
        ensures
            to_string_from_display_ensures::<T>(&self.value_of(), r),
    {
        match self {
            Answer::Complete(s, _) => s.to_string(),
            Answer::Partial(s) => s.to_string(),
            Answer::Incomplete(s) => s.to_string(),
        }
    }
}

/// What splitting the thought off a completed text gives: the cleaned text outside
/// the reasoning blocks and the reasoning (none when empty).
pub open spec fn split_answer_text<F: Formatter>(f: &F, text: Seq<char>) -> (Seq<char>, Option<Seq<char>>) {
    (trim(f.strip_tags_text(thought_split(f, text).0)), thought_of(thought_split(f, text).1))
}

impl Answer<String> {
    /// Extracts the chain-of-thought from the text with the formatter's reasoning
    /// markers and stores it in a `Complete` answer.  `Partial` and `Incomplete`
    /// answers, and answers that already carry a thought, are returned unchanged.
    pub fn split_thought<F: Formatter>(self, formatter: &F) -> (r: Self)
        requires
            self matches Answer::Complete(text, None) ==> formatter.strip_tags_defined(
                thought_split(formatter, text@).0,
            ),
        ensures
            match self {
                Answer::Complete(text, None) => r matches Answer::Complete(t, th) && t@ == split_answer_text(
                    formatter,
                    text@,
                ).0 && opt_string_view(th) == split_answer_text(formatter, text@).1,
                _ => r == self,
            },
    {
        match self {
            Answer::Complete(text, None) => {
                let (t, th) = formatter.strip_thought(text.as_str());
                Answer::Complete(t, th)
            },
            _ => self,
        }
    }
}

/// Answer of the single-call chat API, tagged with the fork (sequence) it came from.
#[derive(Debug)]
pub enum SlmAnswer {
    /// Generation finished naturally: (answer, fork id, thinking).
    Complete(String, usize, Option<String>),
    /// Generation was paused by a `Delay` action: (text so far, fork id).
    Partial(String, usize),
    /// Generation was interrupted before a natural stop: (text so far, fork id).
    Incomplete(String, usize),
}

impl SlmAnswer {
    /// The generated text, whatever the completion state.
    pub open spec fn text_of(&self) -> Seq<char> {
        match self {
            SlmAnswer::Complete(s, _, _) => s@,
            SlmAnswer::Partial(s, _) => s@,
            SlmAnswer::Incomplete(s, _) => s@,
        }
    }

    /// The fork identifier.
    pub open spec fn fork_of(&self) -> usize {
        match self {
            SlmAnswer::Complete(_, id, _) => *id,
            SlmAnswer::Partial(_, id) => *id,
            SlmAnswer::Incomplete(_, id) => *id,
        }
    }

    /// The extracted chain-of-thought: only a `Complete` answer carries one.
    pub open spec fn thought_of(&self) -> Option<Seq<char>> {
        match self {
            SlmAnswer::Complete(_, _, th) => opt_string_view(*th),
            _ => None,
        }
    }

    /// Returns `true` if the answer completed naturally (EOS or constraint stop).
    pub fn is_complete(&self) -> (r: bool)
        ensures
            r == (self is Complete),
    {
        match self {
            SlmAnswer::Complete(_, _, _) => true,
            _ => false,
        }
    }

    /// Returns `true` if the answer was paused mid-generation by a `Delay` action.
    pub fn is_partial(&self) -> (r: bool)
        ensures
            r == (self is Partial),
    {
        match self {
            SlmAnswer::Partial(_, _) => true,
            _ => false,
        }
    }

    /// The generated text regardless of completion state.
    pub fn as_str(&self) -> (r: &str)
        ensures
            r@ == self.text_of(),
    {
        match self {
            SlmAnswer::Complete(s, _, _) => s.as_str(),
            SlmAnswer::Partial(s, _) => s.as_str(),
            SlmAnswer::Incomplete(s, _) => s.as_str(),
        }
    }

    /// Alias for [`as_str`](Self::as_str).
    pub fn text(&self) -> (r: &str)
        ensures
            r@ == self.text_of(),
    {
        self.as_str()
    }

    /// The fork/sequence identifier associated with this answer.
    pub fn fork_id(&self) -> (r: usize)
        ensures
            r == self.fork_of(),
    {
        match self {
            SlmAnswer::Complete(_, id, _) => *id,
            SlmAnswer::Partial(_, id) => *id,
            SlmAnswer::Incomplete(_, id) => *id,
        }
    }

    /// Applies `f` to the text, keeping the variant, the fork id and the thought.
    pub fn map<F>(self, f: F) -> (r: SlmAnswer)
        where
            F: FnOnce(String) -> String,
        requires
            f.requires((match self {
                SlmAnswer::Complete(s, _, _) => s,
                SlmAnswer::Partial(s, _) => s,
                SlmAnswer::Incomplete(s, _) => s,
            },)),
        ensures
            (r is Complete) == (self is Complete),
            (r is Partial) == (self is Partial),
            (r is Incomplete) == (self is Incomplete),
            r.fork_of() == self.fork_of(),
            r.thought_of() == self.thought_of(),
            exists|s: String, t: String| s@ == self.text_of() && t@ == r.text_of() && f.ensures((s,), t),
    {
        match self {
            SlmAnswer::Complete(text, fork_id, thought) => SlmAnswer::Complete(f(text), fork_id, thought),
            SlmAnswer::Partial(text, fork_id) => SlmAnswer::Partial(f(text), fork_id),
            SlmAnswer::Incomplete(text, fork_id) => SlmAnswer::Incomplete(f(text), fork_id),
        }
    }

    /// Extracts the chain-of-thought with the formatter's reasoning markers into a
    /// `Complete` answer; other answers, and answers that already carry a thought,
    /// are returned unchanged.
    pub fn split_thought<F: Formatter>(self, formatter: &F) -> (r: SlmAnswer)
        requires
            self matches SlmAnswer::Complete(text, _, None) ==> formatter.strip_tags_defined(
                thought_split(formatter, text@).0,
            ),
        ensures
            match self {
                SlmAnswer::Complete(text, id, None) => r matches SlmAnswer::Complete(t, id2, th) && id2 == id
                    && t@ == split_answer_text(formatter, text@).0 && opt_string_view(th) == split_answer_text(
                    formatter,
                    text@,
                ).1,
                _ => r == self,
            },
    {
        match self {
            SlmAnswer::Complete(text, fork_id, None) => {
                let (t, th) = formatter.strip_thought(text.as_str());
                SlmAnswer::Complete(t, fork_id, th)
            },
            _ => self,
        }
    }

    /// The extracted chain-of-thought, if available.
    pub fn thought(&self) -> (r: Option<&str>)
        ensures
            opt_str_view(r) == self.thought_of(),
    {
        match self {
            SlmAnswer::Complete(_, _, Some(t)) => Some(t.as_str()),
            _ => None,
        }
    }
}

impl core::ops::Deref for SlmAnswer {
    type Target = str;

    /// The generated text, as [`as_str`](SlmAnswer::as_str) gives it.
    fn deref(&self) -> (r: &str)
        ensures
            r@ == self.text_of(),
    {
        self.as_str()
    }
}

impl AsRef<str> for SlmAnswer {
    /// The generated text, as [`as_str`](SlmAnswer::as_str) gives it.
    fn as_ref(&self) -> (r: &str)
        ensures
            r@ == self.text_of(),
    {
        self.as_str()
    }
}

impl From<SlmAnswer> for String {
    /// The generated text, whatever the completion state.
    fn from(a: SlmAnswer) -> (r: String) {
        match a {
            SlmAnswer::Complete(s, _, _) => s,
            SlmAnswer::Partial(s, _) => s,
            SlmAnswer::Incomplete(s, _) => s,
        }
    }
}

impl vstd::std_specs::convert::FromSpecImpl<SlmAnswer> for String {
    open spec fn obeys_from_spec() -> bool {
        true
    }

    open spec fn from_spec(a: SlmAnswer) -> String {
        match a {
            SlmAnswer::Complete(s, _, _) => s,
            SlmAnswer::Partial(s, _) => s,
            SlmAnswer::Incomplete(s, _) => s,
        }
    }
}

} // verus!
