//! Chat-template rendering: the [`Formatter`] trait, its mathematical model, and the
//! run-time selectable [`DynamicFormatter`].
use vstd::prelude::*;
use vstd::string::StringExecFns;
use crate::errors::ModelFormatterError;
use crate::models::gemma4::{Gemma4Flavor, GemmaFormatter};
use crate::models::llama3::Llama3Formatter;
use crate::models::mistral::{MistralFlavor, MistralFormatter};
use crate::models::phi4::Phi4Formatter;
use crate::models::qwen25::Qwen25Formatter;
use crate::text::{str_eq, 
    bounds_ok, chars_of, cut_reasoning, cut_reasoning_exec, split_reasoning, split_reasoning_exec,
    string_of, trim, trim_exec,
};

verus! {

/// Conversation role of a turn.
#[derive(Debug, Clone, Copy, PartialEq, Eq, Structural)]
pub enum Role {
    System,
    User,
    Assistant,
}

/// How a model embeds tool calls and tool responses in a conversation.
#[derive(Debug, Clone, Copy, PartialEq, Eq, Structural)]
pub enum ToolStyle {
    /// Tool calls and responses are embedded as special markup blocks *inside* the
    /// current assistant or user turn (e.g. Gemma 4, Mistral, Qwen 2.5).
    Inline,
    /// Tool calls and responses occupy their own dedicated conversation turns
    /// (e.g. Llama 3 `ipython` role).
    SeparateTurn,
}

/// Tool strategy of the single-call chat API (same as [`ToolStyle`]).
pub type SlmToolStyle = ToolStyle;

/// The view of an optional string slice.
pub open spec fn opt_str_view(o: Option<&str>) -> Option<Seq<char>> {
    match o {
        Some(s) => Some(s@),
        None => None,
    }
}

/// The view of an optional pair of string slices.
pub open spec fn opt_pair_view(o: Option<(&str, &str)>) -> Option<(Seq<char>, Seq<char>)> {
    match o {
        Some((a, b)) => Some((a@, b@)),
        None => None,
    }
}

/// The view of an optional `String`.
pub open spec fn opt_string_view(o: Option<String>) -> Option<Seq<char>> {
    match o {
        Some(s) => Some(s@),
        None => None,
    }
}

/// Chat-template renderer for a specific model family.
///
/// Each model family wraps messages in its own delimiter scheme (ChatML, Llama 3
/// header tokens, Mistral `[INST]`, etc.).  The spec functions give the exact text each
/// executable method produces.
pub trait Formatter {
    /// Text put before the very first turn, if any.
    spec fn bos_text(&self) -> Option<Seq<char>>;
    /// Opening delimiter of a turn.
    spec fn turn_start_text(&self, role: Role) -> Seq<char>;
    /// Closing delimiter of a turn.
    spec fn turn_end_text(&self, role: Role) -> Seq<char>;
    /// Markers the model uses around its reasoning.
    spec fn reasoning_bounds_text(&self) -> Option<(Seq<char>, Seq<char>)>;
    /// Reasoning content wrapped in the model's markers.
    spec fn wrap_reasoning_text(&self, content: Seq<char>) -> Seq<char>;
    /// Prefix that makes the model start reasoning.
    spec fn reasoning_trigger_text(&self) -> Option<Seq<char>>;
    /// The model's tool strategy.
    spec fn tool_style_kind(&self) -> ToolStyle;
    /// Opening delimiter of a tool-response turn (empty where tool responses are
    /// embedded inline).
    spec fn tool_turn_start_text(&self) -> Seq<char>;
    /// Closing delimiter of a tool-response turn.
    spec fn tool_turn_end_text(&self) -> Seq<char>;
    /// A rendered tool call.
    spec fn tool_call_text(&self, name: Seq<char>, arguments_json: Seq<char>) -> Seq<char>;
    /// A rendered tool response.
    spec fn tool_response_text(&self, tool_name: Seq<char>, content: Seq<char>) -> Seq<char>;
    /// `text` with the model's markup removed.
    spec fn strip_tags_text(&self, text: Seq<char>) -> Seq<char>;
    /// The texts on which removing the markup does not fail.
    spec fn strip_tags_defined(&self, text: Seq<char>) -> bool;

    /// Reasoning markers, when present, are non-empty and neither is a prefix of the other.
    proof fn lemma_reasoning_bounds(&self)
        ensures
            self.reasoning_bounds_text() matches Some((a, b)) ==> bounds_ok(a, b),
    ;

    /// Optional BOS text prepended before the very first turn.
    fn bos(&self) -> (res: Option<&str>)
        ensures
            opt_str_view(res) == self.bos_text(),
    ;

    /// Returns the opening delimiter for a turn with the given role.
    fn turn_start(&self, role: &Role) -> (res: String)
        ensures
            res@ == self.turn_start_text(*role),
    ;

    /// Returns the closing delimiter for a turn with the given role.
    fn turn_end(&self, role: &Role) -> (res: String)
        ensures
            res@ == self.turn_end_text(*role),
    ;

    /// Tags that the model itself uses to highlight thoughts during generation.
    fn reasoning_bounds(&self) -> (res: Option<(&str, &str)>)
        ensures
            opt_pair_view(res) == self.reasoning_bounds_text(),
    ;

    /// How to wrap the text of thoughts when pushing ready thoughts into the cache.
    fn wrap_reasoning(&self, content: &str) -> (res: String)
        ensures
            res@ == self.wrap_reasoning_text(content@),
    ;

    /// Prefix injected to activate chain-of-thought.
    fn reasoning_trigger(&self) -> (res: Option<&str>)
        ensures
            opt_str_view(res) == self.reasoning_trigger_text(),
    ;

    /// Which strategy the model uses for working with tools.
    fn tool_style(&self) -> (res: ToolStyle)
        ensures
            res == self.tool_style_kind(),
    ;

    /// Returns the opening delimiter of a tool-response turn.
    fn tool_turn_start(&self) -> (res: String)
        ensures
            res@ == self.tool_turn_start_text(),
    ;

    /// Returns the closing delimiter of a tool-response turn.
    fn tool_turn_end(&self) -> (res: String)
        ensures
            res@ == self.tool_turn_end_text(),
    ;

    /// Formats a tool call by the model.
    fn format_tool_call(&self, name: &str, arguments_json: &str) -> (res: String)
        ensures
            res@ == self.tool_call_text(name@, arguments_json@),
    ;

    /// Formats a tool response.
    fn format_tool_response(&self, tool_name: &str, content: &str) -> (res: String)
        ensures
            res@ == self.tool_response_text(tool_name@, content@),
    ;

    /// Strip all model-specific markup tags from `text`, leaving only content.
    fn strip_tags(&self, text: &str) -> (res: String)
        requires
            self.strip_tags_defined(text@),
        ensures
            res@ == self.strip_tags_text(text@),
    ;

    /// Whether [`strip_tags`](Self::strip_tags) can process `text`.
    fn strip_tags_ok(&self, text: &str) -> (res: bool)
        ensures
            res == self.strip_tags_defined(text@),
    ;

    /// Whether [`strip_thought`](Self::strip_thought) can process `text`.
    fn strip_thought_ok(&self, text: &str) -> (res: bool)
        ensures
            res == self.strip_tags_defined(
                match self.reasoning_bounds_text() {
                    Some((a, b)) => split_reasoning(text@, a, b).0,
                    None => text@,
                },
            ),
    {
        proof {
            self.lemma_reasoning_bounds();
        }
        let chars = chars_of(text);
        let kept = match self.reasoning_bounds() {
            Some((start, end)) => {
                let a = chars_of(start);
                let b = chars_of(end);
                split_reasoning_exec(&chars, &a, &b).0
            },
            None => chars,
        };
        let kept_s = string_of(&kept);
        self.strip_tags_ok(kept_s.as_str())
    }

    /// Whether [`clean`](Self::clean) can process `text`.
    fn clean_ok(&self, text: &str) -> (res: bool)
        ensures
            res == self.strip_tags_defined(
                match self.reasoning_bounds_text() {
                    Some((a, b)) => cut_reasoning(text@, a, b),
                    None => text@,
                },
            ),
    {
        proof {
            self.lemma_reasoning_bounds();
        }
        let chars = chars_of(text);
        let cut = match self.reasoning_bounds() {
            Some((start, end)) => {
                let a = chars_of(start);
                let b = chars_of(end);
                cut_reasoning_exec(&chars, &a, &b)
            },
            None => chars,
        };
        let cut_s = string_of(&cut);
        self.strip_tags_ok(cut_s.as_str())
    }

    /// Remove reasoning blocks and all markup tags from `text`, returning clean content.
    fn clean(&self, text: &str) -> (res: String)
        requires
            self.strip_tags_defined(
                match self.reasoning_bounds_text() {
                    Some((a, b)) => cut_reasoning(text@, a, b),
                    None => text@,
                },
            ),
        ensures
            res@ == trim(
                self.strip_tags_text(
                    match self.reasoning_bounds_text() {
                        Some((a, b)) => cut_reasoning(text@, a, b),
                        None => text@,
                    },
                ),
            ),
    {
        proof {
            self.lemma_reasoning_bounds();
        }
        let chars = chars_of(text);
        let cut = match self.reasoning_bounds() {
            Some((start, end)) => {
                let a = chars_of(start);
                let b = chars_of(end);
                cut_reasoning_exec(&chars, &a, &b)
            },
            None => chars,
        };
        let cut_s = string_of(&cut);
        let stripped = self.strip_tags(cut_s.as_str());
        let sc = chars_of(stripped.as_str());
        let t = trim_exec(&sc);
        string_of(&t)
    }

    /// Split `text` into `(clean_content, Option<thinking>)` by extracting the reasoning
    /// blocks demarcated by [`reasoning_bounds`](Self::reasoning_bounds).
    fn strip_thought(&self, text: &str) -> (res: (String, Option<String>))
        requires
            self.strip_tags_defined(
                match self.reasoning_bounds_text() {
                    Some((a, b)) => split_reasoning(text@, a, b).0,
                    None => text@,
                },
            ),
        ensures
            res.0@ == trim(
                self.strip_tags_text(
                    match self.reasoning_bounds_text() {
                        Some((a, b)) => split_reasoning(text@, a, b).0,
                        None => text@,
                    },
                ),
            ),
            opt_string_view(res.1) == (match self.reasoning_bounds_text() {
                Some((a, b)) => if split_reasoning(text@, a, b).1.len() == 0 {
                    None
                } else {
                    Some(split_reasoning(text@, a, b).1)
                },
                None => None,
            }),
    {
        proof {
            self.lemma_reasoning_bounds();
        }
        let chars = chars_of(text);
        let (kept, thinking) = match self.reasoning_bounds() {
            Some((start, end)) => {
                let a = chars_of(start);
                let b = chars_of(end);
                split_reasoning_exec(&chars, &a, &b)
            },
            None => (chars, Vec::new()),
        };
        let kept_s = string_of(&kept);
        let stripped = self.strip_tags(kept_s.as_str());
        let sc = chars_of(stripped.as_str());
        let t = trim_exec(&sc);
        let thought = if thinking.len() == 0 {
            None
        } else {
            Some(string_of(&thinking))
        };
        (string_of(&t), thought)
    }
}

/// The text outside and the text inside the reasoning blocks of `text`.
pub open spec fn thought_split<F: Formatter + ?Sized>(f: &F, text: Seq<char>) -> (Seq<char>, Seq<char>) {
    match f.reasoning_bounds_text() {
        Some((a, b)) => split_reasoning(text, a, b),
        None => (text, Seq::empty()),
    }
}

/// Empty reasoning text is reported as no reasoning.
pub open spec fn thought_of(t: Seq<char>) -> Option<Seq<char>> {
    if t.len() == 0 {
        None
    } else {
        Some(t)
    }
}

/// A `String` holding `s` with leading and trailing whitespace removed.
pub fn trimmed(s: &str) -> (res: String)
    ensures
        res@ == trim(s@),
{
    let c = chars_of(s);
    let t = trim_exec(&c);
    string_of(&t)
}

/// A `String` holding `a` followed by `b`.
pub fn concat2(a: &str, b: &str) -> (res: String)
    ensures
        res@ == a@ + b@,
{
    let mut r = String::from_str(a);
    r.append(b);
    r
}


/// A formatter chosen at run time by model-family name.
pub enum DynamicFormatter {
    Gemma(GemmaFormatter),
    Llama3(Llama3Formatter),
    Mistral(MistralFormatter),
    Qwen25(Qwen25Formatter),
    Phi4(Phi4Formatter),
}

/// `str::to_lowercase` from std: the Unicode lower-case mapping of each character.
pub uninterp spec fn lowercase(s: Seq<char>) -> Seq<char>;

/// `str::to_lowercase` from std.
#[verifier::external_body]
fn to_lowercase(s: &str) -> (res: String)
    ensures
        res@ == lowercase(s@),
{
    s.to_lowercase()
}

impl DynamicFormatter {
    /// The formatter registered under the lower-case name `name`; `value` is the name
    /// as the caller gave it, reported back when `name` is unknown.
    ///
    /// | name | formatter |
    /// |---|---|
    /// | `llama3` | [`Llama3Formatter`] |
    /// | `gemma4` | [`GemmaFormatter`], vanilla, thinking |
    /// | `gemma4-google` | [`GemmaFormatter`], Google official, thinking |
    /// | `gemma4-unsloth` | [`GemmaFormatter`], Unsloth fixed, thinking |
    /// | `mistral` | [`MistralFormatter`], v3 Tekken, thinking |
    /// | `mistral-legacy` | [`MistralFormatter`], legacy, thinking |
    /// | `qwen25` | [`Qwen25Formatter`], thinking |
    /// | `phi4` | [`Phi4Formatter`], thinking |
    pub fn from_lowercase_name(name: &str, value: &str) -> (res: Result<Self, ModelFormatterError>)
        ensures
            known_formatter_name(name@) <==> res is Ok,
            res matches Ok(f) ==> formatter_named(f, name@),
            res matches Err(ModelFormatterError::UnknownModelFormatter(v)) ==> v@ == value@,
    {
        if str_eq(name, "llama3") {
            Ok(DynamicFormatter::Llama3(Llama3Formatter))
        } else if str_eq(name, "gemma4") {
            Ok(DynamicFormatter::Gemma(GemmaFormatter::new(Gemma4Flavor::Vanilla, true)))
        } else if str_eq(name, "gemma4-google") {
            Ok(DynamicFormatter::Gemma(GemmaFormatter::new(Gemma4Flavor::GoogleOfficial, true)))
        } else if str_eq(name, "gemma4-unsloth") {
            Ok(DynamicFormatter::Gemma(GemmaFormatter::new(Gemma4Flavor::UnslothFixed, true)))
        } else if str_eq(name, "mistral") {
            Ok(DynamicFormatter::Mistral(MistralFormatter::new(MistralFlavor::V3Tekken, true)))
        } else if str_eq(name, "mistral-legacy") {
            Ok(DynamicFormatter::Mistral(MistralFormatter::new(MistralFlavor::Legacy, true)))
        } else if str_eq(name, "qwen25") {
            Ok(DynamicFormatter::Qwen25(Qwen25Formatter::new(true)))
        } else if str_eq(name, "phi4") {
            Ok(DynamicFormatter::Phi4(Phi4Formatter::new(true)))
        } else {
            Err(ModelFormatterError::UnknownModelFormatter(String::from_str(value)))
        }
    }

    /// The formatter registered under `value`, compared case-insensitively (by its
    /// Unicode lower-case form); see [`from_lowercase_name`](Self::from_lowercase_name).
    pub fn try_from(value: &str) -> (res: Result<Self, ModelFormatterError>)
        ensures
            known_formatter_name(lowercase(value@)) <==> res is Ok,
            res matches Ok(f) ==> formatter_named(f, lowercase(value@)),
            res matches Err(ModelFormatterError::UnknownModelFormatter(v)) ==> v@ == value@,
    {
        let lower = to_lowercase(value);
        Self::from_lowercase_name(lower.as_str(), value)
    }
}

/// The names under which [`DynamicFormatter`] knows a formatter.
pub open spec fn known_formatter_name(name: Seq<char>) -> bool {
    name == "llama3"@ || name == "gemma4"@ || name == "gemma4-google"@ || name == "gemma4-unsloth"@
        || name == "mistral"@ || name == "mistral-legacy"@ || name == "qwen25"@ || name == "phi4"@
}

/// `f` is the formatter registered under `name`.
pub open spec fn formatter_named(f: DynamicFormatter, name: Seq<char>) -> bool {
    if name == "llama3"@ {
        f is Llama3
    } else if name == "gemma4"@ {
        f matches DynamicFormatter::Gemma(g) && g.flavor_kind() == Gemma4Flavor::Vanilla && g.is_thinking()
    } else if name == "gemma4-google"@ {
        f matches DynamicFormatter::Gemma(g) && g.flavor_kind() == Gemma4Flavor::GoogleOfficial
            && g.is_thinking()
    } else if name == "gemma4-unsloth"@ {
        f matches DynamicFormatter::Gemma(g) && g.flavor_kind() == Gemma4Flavor::UnslothFixed
            && g.is_thinking()
    } else if name == "mistral"@ {
        f matches DynamicFormatter::Mistral(m) && m.flavor_kind() == MistralFlavor::V3Tekken
            && m.is_thinking()
    } else if name == "mistral-legacy"@ {
        f matches DynamicFormatter::Mistral(m) && m.flavor_kind() == MistralFlavor::Legacy
            && m.is_thinking()
    } else if name == "qwen25"@ {
        f matches DynamicFormatter::Qwen25(q) && q.is_thinking()
    } else if name == "phi4"@ {
        f matches DynamicFormatter::Phi4(p) && p.is_thinking()
    } else {
        false
    }
}

impl Formatter for DynamicFormatter {
    open spec fn bos_text(&self) -> Option<Seq<char>> {
        match self {
            DynamicFormatter::Gemma(f) => f.bos_text(),
            DynamicFormatter::Llama3(f) => f.bos_text(),
            DynamicFormatter::Mistral(f) => f.bos_text(),
            DynamicFormatter::Qwen25(f) => f.bos_text(),
            DynamicFormatter::Phi4(f) => f.bos_text(),
        }
    }

    open spec fn turn_start_text(&self, role: Role) -> Seq<char> {
        match self {
            DynamicFormatter::Gemma(f) => f.turn_start_text(role),
            DynamicFormatter::Llama3(f) => f.turn_start_text(role),
            DynamicFormatter::Mistral(f) => f.turn_start_text(role),
            DynamicFormatter::Qwen25(f) => f.turn_start_text(role),
            DynamicFormatter::Phi4(f) => f.turn_start_text(role),
        }
    }

    open spec fn turn_end_text(&self, role: Role) -> Seq<char> {
        match self {
            DynamicFormatter::Gemma(f) => f.turn_end_text(role),
            DynamicFormatter::Llama3(f) => f.turn_end_text(role),
            DynamicFormatter::Mistral(f) => f.turn_end_text(role),
            DynamicFormatter::Qwen25(f) => f.turn_end_text(role),
            DynamicFormatter::Phi4(f) => f.turn_end_text(role),
        }
    }

    open spec fn reasoning_bounds_text(&self) -> Option<(Seq<char>, Seq<char>)> {
        match self {
            DynamicFormatter::Gemma(f) => f.reasoning_bounds_text(),
            DynamicFormatter::Llama3(f) => f.reasoning_bounds_text(),
            DynamicFormatter::Mistral(f) => f.reasoning_bounds_text(),
            DynamicFormatter::Qwen25(f) => f.reasoning_bounds_text(),
            DynamicFormatter::Phi4(f) => f.reasoning_bounds_text(),
        }
    }

    open spec fn wrap_reasoning_text(&self, content: Seq<char>) -> Seq<char> {
        match self {
            DynamicFormatter::Gemma(f) => f.wrap_reasoning_text(content),
            DynamicFormatter::Llama3(f) => f.wrap_reasoning_text(content),
            DynamicFormatter::Mistral(f) => f.wrap_reasoning_text(content),
            DynamicFormatter::Qwen25(f) => f.wrap_reasoning_text(content),
            DynamicFormatter::Phi4(f) => f.wrap_reasoning_text(content),
        }
    }

    open spec fn reasoning_trigger_text(&self) -> Option<Seq<char>> {
        match self {
            DynamicFormatter::Gemma(f) => f.reasoning_trigger_text(),
            DynamicFormatter::Llama3(f) => f.reasoning_trigger_text(),
            DynamicFormatter::Mistral(f) => f.reasoning_trigger_text(),
            DynamicFormatter::Qwen25(f) => f.reasoning_trigger_text(),
            DynamicFormatter::Phi4(f) => f.reasoning_trigger_text(),
        }
    }

    open spec fn tool_style_kind(&self) -> ToolStyle {
        match self {
            DynamicFormatter::Gemma(f) => f.tool_style_kind(),
            DynamicFormatter::Llama3(f) => f.tool_style_kind(),
            DynamicFormatter::Mistral(f) => f.tool_style_kind(),
            DynamicFormatter::Qwen25(f) => f.tool_style_kind(),
            DynamicFormatter::Phi4(f) => f.tool_style_kind(),
        }
    }

    open spec fn tool_turn_start_text(&self) -> Seq<char> {
        match self {
            DynamicFormatter::Gemma(f) => f.tool_turn_start_text(),
            DynamicFormatter::Llama3(f) => f.tool_turn_start_text(),
            DynamicFormatter::Mistral(f) => f.tool_turn_start_text(),
            DynamicFormatter::Qwen25(f) => f.tool_turn_start_text(),
            DynamicFormatter::Phi4(f) => f.tool_turn_start_text(),
        }
    }

    open spec fn tool_turn_end_text(&self) -> Seq<char> {
        match self {
            DynamicFormatter::Gemma(f) => f.tool_turn_end_text(),
            DynamicFormatter::Llama3(f) => f.tool_turn_end_text(),
            DynamicFormatter::Mistral(f) => f.tool_turn_end_text(),
            DynamicFormatter::Qwen25(f) => f.tool_turn_end_text(),
            DynamicFormatter::Phi4(f) => f.tool_turn_end_text(),
        }
    }

    open spec fn tool_call_text(&self, name: Seq<char>, arguments_json: Seq<char>) -> Seq<char> {
        match self {
            DynamicFormatter::Gemma(f) => f.tool_call_text(name, arguments_json),
            DynamicFormatter::Llama3(f) => f.tool_call_text(name, arguments_json),
            DynamicFormatter::Mistral(f) => f.tool_call_text(name, arguments_json),
            DynamicFormatter::Qwen25(f) => f.tool_call_text(name, arguments_json),
            DynamicFormatter::Phi4(f) => f.tool_call_text(name, arguments_json),
        }
    }

    open spec fn tool_response_text(&self, tool_name: Seq<char>, content: Seq<char>) -> Seq<char> {
        match self {
            DynamicFormatter::Gemma(f) => f.tool_response_text(tool_name, content),
            DynamicFormatter::Llama3(f) => f.tool_response_text(tool_name, content),
            DynamicFormatter::Mistral(f) => f.tool_response_text(tool_name, content),
            DynamicFormatter::Qwen25(f) => f.tool_response_text(tool_name, content),
            DynamicFormatter::Phi4(f) => f.tool_response_text(tool_name, content),
        }
    }

    open spec fn strip_tags_text(&self, text: Seq<char>) -> Seq<char> {
        match self {
            DynamicFormatter::Gemma(f) => f.strip_tags_text(text),
            DynamicFormatter::Llama3(f) => f.strip_tags_text(text),
            DynamicFormatter::Mistral(f) => f.strip_tags_text(text),
            DynamicFormatter::Qwen25(f) => f.strip_tags_text(text),
            DynamicFormatter::Phi4(f) => f.strip_tags_text(text),
        }
    }

    open spec fn strip_tags_defined(&self, text: Seq<char>) -> bool {
        match self {
            DynamicFormatter::Gemma(f) => f.strip_tags_defined(text),
            DynamicFormatter::Llama3(f) => f.strip_tags_defined(text),
            DynamicFormatter::Mistral(f) => f.strip_tags_defined(text),
            DynamicFormatter::Qwen25(f) => f.strip_tags_defined(text),
            DynamicFormatter::Phi4(f) => f.strip_tags_defined(text),
        }
    }

    proof fn lemma_reasoning_bounds(&self) {
        match self {
            DynamicFormatter::Gemma(f) => f.lemma_reasoning_bounds(),
            DynamicFormatter::Llama3(f) => f.lemma_reasoning_bounds(),
            DynamicFormatter::Mistral(f) => f.lemma_reasoning_bounds(),
            DynamicFormatter::Qwen25(f) => f.lemma_reasoning_bounds(),
            DynamicFormatter::Phi4(f) => f.lemma_reasoning_bounds(),
        }
    }

    fn bos(&self) -> (res: Option<&str>) {
        match self {
            DynamicFormatter::Gemma(f) => f.bos(),
            DynamicFormatter::Llama3(f) => f.bos(),
            DynamicFormatter::Mistral(f) => f.bos(),
            DynamicFormatter::Qwen25(f) => f.bos(),
            DynamicFormatter::Phi4(f) => f.bos(),
        }
    }

    fn turn_start(&self, role: &Role) -> (res: String) {
        match self {
            DynamicFormatter::Gemma(f) => f.turn_start(role),
            DynamicFormatter::Llama3(f) => f.turn_start(role),
            DynamicFormatter::Mistral(f) => f.turn_start(role),
            DynamicFormatter::Qwen25(f) => f.turn_start(role),
            DynamicFormatter::Phi4(f) => f.turn_start(role),
        }
    }

    fn turn_end(&self, role: &Role) -> (res: String) {
        match self {
            DynamicFormatter::Gemma(f) => f.turn_end(role),
            DynamicFormatter::Llama3(f) => f.turn_end(role),
            DynamicFormatter::Mistral(f) => f.turn_end(role),
            DynamicFormatter::Qwen25(f) => f.turn_end(role),
            DynamicFormatter::Phi4(f) => f.turn_end(role),
        }
    }

    fn reasoning_bounds(&self) -> (res: Option<(&str, &str)>) {
        match self {
            DynamicFormatter::Gemma(f) => f.reasoning_bounds(),
            DynamicFormatter::Llama3(f) => f.reasoning_bounds(),
            DynamicFormatter::Mistral(f) => f.reasoning_bounds(),
            DynamicFormatter::Qwen25(f) => f.reasoning_bounds(),
            DynamicFormatter::Phi4(f) => f.reasoning_bounds(),
        }
    }

    fn wrap_reasoning(&self, content: &str) -> (res: String) {
        match self {
            DynamicFormatter::Gemma(f) => f.wrap_reasoning(content),
            DynamicFormatter::Llama3(f) => f.wrap_reasoning(content),
            DynamicFormatter::Mistral(f) => f.wrap_reasoning(content),
            DynamicFormatter::Qwen25(f) => f.wrap_reasoning(content),
            DynamicFormatter::Phi4(f) => f.wrap_reasoning(content),
        }
    }

    fn reasoning_trigger(&self) -> (res: Option<&str>) {
        match self {
            DynamicFormatter::Gemma(f) => f.reasoning_trigger(),
            DynamicFormatter::Llama3(f) => f.reasoning_trigger(),
            DynamicFormatter::Mistral(f) => f.reasoning_trigger(),
            DynamicFormatter::Qwen25(f) => f.reasoning_trigger(),
            DynamicFormatter::Phi4(f) => f.reasoning_trigger(),
        }
    }

    fn tool_style(&self) -> (res: ToolStyle) {
        match self {
            DynamicFormatter::Gemma(f) => f.tool_style(),
            DynamicFormatter::Llama3(f) => f.tool_style(),
            DynamicFormatter::Mistral(f) => f.tool_style(),
            DynamicFormatter::Qwen25(f) => f.tool_style(),
            DynamicFormatter::Phi4(f) => f.tool_style(),
        }
    }

    fn tool_turn_start(&self) -> (res: String) {
        match self {
            DynamicFormatter::Gemma(f) => f.tool_turn_start(),
            DynamicFormatter::Llama3(f) => f.tool_turn_start(),
            DynamicFormatter::Mistral(f) => f.tool_turn_start(),
            DynamicFormatter::Qwen25(f) => f.tool_turn_start(),
            DynamicFormatter::Phi4(f) => f.tool_turn_start(),
        }
    }

    fn tool_turn_end(&self) -> (res: String) {
        match self {
            DynamicFormatter::Gemma(f) => f.tool_turn_end(),
            DynamicFormatter::Llama3(f) => f.tool_turn_end(),
            DynamicFormatter::Mistral(f) => f.tool_turn_end(),
            DynamicFormatter::Qwen25(f) => f.tool_turn_end(),
            DynamicFormatter::Phi4(f) => f.tool_turn_end(),
        }
    }

    fn format_tool_call(&self, name: &str, arguments_json: &str) -> (res: String) {
        match self {
            DynamicFormatter::Gemma(f) => f.format_tool_call(name, arguments_json),
            DynamicFormatter::Llama3(f) => f.format_tool_call(name, arguments_json),
            DynamicFormatter::Mistral(f) => f.format_tool_call(name, arguments_json),
            DynamicFormatter::Qwen25(f) => f.format_tool_call(name, arguments_json),
            DynamicFormatter::Phi4(f) => f.format_tool_call(name, arguments_json),
        }
    }

    fn format_tool_response(&self, tool_name: &str, content: &str) -> (res: String) {
        match self {
            DynamicFormatter::Gemma(f) => f.format_tool_response(tool_name, content),
            DynamicFormatter::Llama3(f) => f.format_tool_response(tool_name, content),
            DynamicFormatter::Mistral(f) => f.format_tool_response(tool_name, content),
            DynamicFormatter::Qwen25(f) => f.format_tool_response(tool_name, content),
            DynamicFormatter::Phi4(f) => f.format_tool_response(tool_name, content),
        }
    }

    fn strip_tags_ok(&self, text: &str) -> (res: bool) {
        match self {
            DynamicFormatter::Gemma(f) => f.strip_tags_ok(text),
            DynamicFormatter::Llama3(f) => f.strip_tags_ok(text),
            DynamicFormatter::Mistral(f) => f.strip_tags_ok(text),
            DynamicFormatter::Qwen25(f) => f.strip_tags_ok(text),
            DynamicFormatter::Phi4(f) => f.strip_tags_ok(text),
        }
    }

    fn strip_tags(&self, text: &str) -> (res: String) {
        match self {
            DynamicFormatter::Gemma(f) => f.strip_tags(text),
            DynamicFormatter::Llama3(f) => f.strip_tags(text),
            DynamicFormatter::Mistral(f) => f.strip_tags(text),
            DynamicFormatter::Qwen25(f) => f.strip_tags(text),
            DynamicFormatter::Phi4(f) => f.strip_tags(text),
        }
    }

    fn clean(&self, text: &str) -> (res: String) {
        match self {
            DynamicFormatter::Gemma(f) => f.clean(text),
            DynamicFormatter::Llama3(f) => f.clean(text),
            DynamicFormatter::Mistral(f) => f.clean(text),
            DynamicFormatter::Qwen25(f) => f.clean(text),
            DynamicFormatter::Phi4(f) => f.clean(text),
        }
    }

}

} // verus!
