//! Turn sequencing of the single-call chat: every system and user prompt is a
//! complete turn, assistant text and tool responses continue the assistant turn
//! (inline tool style) or get turns of their own (separate-turn style).
use vstd::prelude::*;
use vstd::string::StringExecFns;
use crate::errors::InferenceError;
use crate::formatter::{Formatter, Role, ToolStyle};
use crate::oracle::{bos_part, DEFAULT_MAX_ANSWER_TOKENS};

verus! {

/// The author of a chat turn; a tool response names its tool.
#[derive(Debug, Clone, PartialEq, Eq)]
pub enum ChatRole {
    System,
    User,
    Assistant,
    Tool(String),
}

/// The state of a chat: the token budget of a generation, whether nothing has been
/// sent yet, and the turn left open (only ever the assistant's).
#[derive(Debug, Clone, Copy, PartialEq, Eq, Structural)]
pub struct ChatCore {
    pub max_answer_tokens: usize,
    pub is_fresh_context: bool,
    pub active_turn: Option<Role>,
}

/// The closing delimiter owed by an open assistant turn before a complete turn.
pub open spec fn close_assistant<F: Formatter>(f: &F, active: Option<Role>) -> Seq<char> {
    if active == Some(Role::Assistant) {
        f.turn_end_text(Role::Assistant)
    } else {
        Seq::empty()
    }
}

/// The opening delimiter of the assistant turn, when it is not open yet.
pub open spec fn open_assistant<F: Formatter>(f: &F, active: Option<Role>) -> Seq<char> {
    if active != Some(Role::Assistant) {
        f.turn_start_text(Role::Assistant)
    } else {
        Seq::empty()
    }
}

/// What a prompt of `role` with `text` appends to the fragment (after the BOS
/// part), and the turn open afterwards.
///
/// - Inline style: a system or user prompt closes an open assistant turn and is a
///   whole turn of its own; assistant text and tool responses go into the
///   assistant turn, opening it if needed.
/// - Separate-turn style: every prompt is a whole turn of its own, a tool response
///   in a tool turn; no turn stays open.
pub open spec fn chat_prompt_delimited<F: Formatter>(f: &F, active: Option<Role>, role: ChatRole, text: Seq<char>) -> (Seq<char>, Option<Role>) {
    match f.tool_style_kind() {
        ToolStyle::Inline => match role {
            ChatRole::System => (
                close_assistant(f, active) + f.turn_start_text(Role::System) + text + f.turn_end_text(Role::System),
                if active == Some(Role::Assistant) { None } else { active },
            ),
            ChatRole::User => (
                close_assistant(f, active) + f.turn_start_text(Role::User) + text + f.turn_end_text(Role::User),
                if active == Some(Role::Assistant) { None } else { active },
            ),
            ChatRole::Assistant => (open_assistant(f, active) + text, Some(Role::Assistant)),
            ChatRole::Tool(name) => (open_assistant(f, active) + f.tool_response_text(name@, text), Some(Role::Assistant)),
        },
        ToolStyle::SeparateTurn => match role {
            ChatRole::System => (f.turn_start_text(Role::System) + text + f.turn_end_text(Role::System), None),
            ChatRole::User => (f.turn_start_text(Role::User) + text + f.turn_end_text(Role::User), None),
            ChatRole::Assistant => (f.turn_start_text(Role::Assistant) + text + f.turn_end_text(Role::Assistant), None),
            ChatRole::Tool(name) => (
                f.tool_turn_start_text() + f.tool_response_text(name@, text) + f.tool_turn_end_text(),
                None,
            ),
        },
    }
}

/// The fragment a chat prompt adds (BOS part included) and the turn open afterwards.
pub open spec fn chat_prompt_spec<F: Formatter>(f: &F, core: ChatCore, role: ChatRole, text: Seq<char>) -> (Seq<char>, Option<Role>) {
    let d = chat_prompt_delimited(f, core.active_turn, role, text);
    (bos_part(f, core.is_fresh_context) + d.0, d.1)
}

/// The chat state after a prompt of `role` with `text`.
pub open spec fn chat_prompted<F: Formatter>(f: &F, core: ChatCore, role: ChatRole, text: Seq<char>) -> ChatCore {
    ChatCore { is_fresh_context: false, active_turn: chat_prompt_spec(f, core, role, text).1, ..core }
}

/// The fragment that starts a generation after a prompt of `role` with `text`: the
/// prompt, then the assistant turn opened if it is not open.
pub open spec fn chat_generation_fragment<F: Formatter>(f: &F, core: ChatCore, role: ChatRole, text: Seq<char>) -> Seq<char> {
    let p = chat_prompt_spec(f, core, role, text);
    p.0 + open_assistant(f, p.1)
}

impl ChatCore {
    /// A fresh chat with the default token budget.
    pub fn new() -> (r: Self)
        ensures
            r == (ChatCore { max_answer_tokens: DEFAULT_MAX_ANSWER_TOKENS, is_fresh_context: true, active_turn: None }),
    {
        ChatCore { max_answer_tokens: DEFAULT_MAX_ANSWER_TOKENS, is_fresh_context: true, active_turn: None }
    }

    /// Appends the beginning-of-sequence text to `s` the first time anything is
    /// sent to a fresh context.
    pub fn bos<F: Formatter>(&mut self, formatter: &F, s: &mut String)
        ensures
            final(s)@ == old(s)@ + bos_part(formatter, old(self).is_fresh_context),
            *final(self) == (ChatCore { is_fresh_context: false, ..*old(self) }),
    {
        if self.is_fresh_context {
            if let Some(b) = formatter.bos() {
                s.append(b);
            }
            self.is_fresh_context = false;
        }
    }

    /// Appends to `fragment` what a prompt of `role` with `text` must send: the BOS
    /// text on a fresh context, then the turn as [`chat_prompt_delimited`] gives it.
    pub fn prepare_prompt<F: Formatter>(&mut self, formatter: &F, role: &ChatRole, text: &str, fragment: &mut String)
        ensures
            final(fragment)@ == old(fragment)@ + chat_prompt_spec(formatter, *old(self), *role, text@).0,
            *final(self) == chat_prompted(formatter, *old(self), *role, text@),
    {
        let ghost f0 = fragment@;
        let ghost c0 = *self;
        self.bos(formatter, fragment);
        let ghost f1 = fragment@;
        match formatter.tool_style() {
            ToolStyle::Inline => self.inline_turn(formatter, role, text, fragment),
            ToolStyle::SeparateTurn => self.separate_turn(formatter, role, text, fragment),
        }
        assert(fragment@ =~= f0 + chat_prompt_spec(formatter, c0, *role, text@).0) by {
            assert(f1 =~= f0 + bos_part(formatter, c0.is_fresh_context));
        }
    }

    /// The inline-style part of [`prepare_prompt`](Self::prepare_prompt).
    fn inline_turn<F: Formatter>(&mut self, formatter: &F, role: &ChatRole, text: &str, fragment: &mut String)
        requires
            formatter.tool_style_kind() == ToolStyle::Inline,
        ensures
            final(fragment)@ == old(fragment)@ + chat_prompt_delimited(formatter, old(self).active_turn, *role, text@).0,
            *final(self) == (ChatCore { active_turn: chat_prompt_delimited(formatter, old(self).active_turn, *role, text@).1, ..*old(self) }),
    {
        let ghost f0 = fragment@;
        let ghost a0 = self.active_turn;
        match role {
            ChatRole::System | ChatRole::User => {
                let r = if let ChatRole::System = role { Role::System } else { Role::User };
                if self.active_turn == Some(Role::Assistant) {
                    fragment.append(formatter.turn_end(&Role::Assistant).as_str());
                    self.active_turn = None;
                }
                fragment.append(formatter.turn_start(&r).as_str());
                fragment.append(text);
                fragment.append(formatter.turn_end(&r).as_str());
            },
            ChatRole::Assistant => {
                if self.active_turn != Some(Role::Assistant) {
                    fragment.append(formatter.turn_start(&Role::Assistant).as_str());
                    self.active_turn = Some(Role::Assistant);
                }
                fragment.append(text);
            },
            ChatRole::Tool(name) => {
                if self.active_turn != Some(Role::Assistant) {
                    fragment.append(formatter.turn_start(&Role::Assistant).as_str());
                    self.active_turn = Some(Role::Assistant);
                }
                fragment.append(formatter.format_tool_response(name.as_str(), text).as_str());
            },
        }
        assert(fragment@ =~= f0 + chat_prompt_delimited(formatter, a0, *role, text@).0);
    }

    /// The separate-turn part of [`prepare_prompt`](Self::prepare_prompt).
    fn separate_turn<F: Formatter>(&mut self, formatter: &F, role: &ChatRole, text: &str, fragment: &mut String)
        requires
            formatter.tool_style_kind() == ToolStyle::SeparateTurn,
        ensures
            final(fragment)@ == old(fragment)@ + chat_prompt_delimited(formatter, old(self).active_turn, *role, text@).0,
            *final(self) == (ChatCore { active_turn: None, ..*old(self) }),
    {
        let ghost f0 = fragment@;
        let ghost a0 = self.active_turn;
        match role {
            ChatRole::Tool(name) => {
                fragment.append(formatter.tool_turn_start().as_str());
                fragment.append(formatter.format_tool_response(name.as_str(), text).as_str());
                fragment.append(formatter.tool_turn_end().as_str());
            },
            _ => {
                let r = match role {
                    ChatRole::System => Role::System,
                    ChatRole::User => Role::User,
                    _ => Role::Assistant,
                };
                fragment.append(formatter.turn_start(&r).as_str());
                fragment.append(text);
                fragment.append(formatter.turn_end(&r).as_str());
            },
        }
        self.active_turn = None;
        assert(fragment@ =~= f0 + chat_prompt_delimited(formatter, a0, *role, text@).0);
    }

    /// The fragment that starts a generation: user prompts and tool responses can
    /// start one, assistant and system prompts cannot.  The assistant turn is open
    /// afterwards.
    pub fn generate_fragment<F: Formatter>(&mut self, formatter: &F, role: &ChatRole, text: &str) -> (r: Result<String, InferenceError>)
        ensures
            (*role == ChatRole::Assistant || *role == ChatRole::System) <==> r is Err,
            r is Err ==> (r matches Err(InferenceError::InvalidRole) && *final(self) == *old(self)),
            r matches Ok(frag) ==> frag@ == chat_generation_fragment(formatter, *old(self), *role, text@) && *final(self)
                == (ChatCore { is_fresh_context: false, active_turn: Some(Role::Assistant), ..*old(self) }),
    {
        match role {
            ChatRole::Assistant | ChatRole::System => {
                return Err(InferenceError::InvalidRole);
            },
            _ => {},
        }
        let mut fragment = String::new();
        self.prepare_prompt(formatter, role, text, &mut fragment);
        if self.active_turn != Some(Role::Assistant) {
            fragment.append(formatter.turn_start(&Role::Assistant).as_str());
            self.active_turn = Some(Role::Assistant);
        }
        Ok(fragment)
    }

    /// What must follow a generated answer: in the separate-turn style a complete
    /// answer closes the assistant turn; otherwise the turn stays open.
    pub fn answer_closing<F: Formatter>(&mut self, formatter: &F, complete: bool) -> (r: Option<String>)
        ensures
            formatter.tool_style_kind() == ToolStyle::SeparateTurn && complete ==> (r matches Some(s) && s@
                == formatter.turn_end_text(Role::Assistant) && *final(self) == (ChatCore { active_turn: None, ..*old(self) })),
            !(formatter.tool_style_kind() == ToolStyle::SeparateTurn && complete) ==> (r is None && *final(self) == *old(self)),
    {
        if complete {
            if let ToolStyle::SeparateTurn = formatter.tool_style() {
                self.active_turn = None;
                return Some(formatter.turn_end(&Role::Assistant));
            }
        }
        None
    }

    /// Forgets the conversation: the next prompt starts a fresh context.
    pub fn clear(&mut self)
        ensures
            *final(self) == (ChatCore { is_fresh_context: true, active_turn: None, ..*old(self) }),
    {
        self.is_fresh_context = true;
        self.active_turn = None;
    }
}

} // verus!
