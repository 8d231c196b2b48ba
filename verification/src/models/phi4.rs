//! Formatter for Microsoft Phi-4 models.
use vstd::prelude::*;
use vstd::string::StringExecFns;
use crate::formatter::{trimmed, Formatter, Role, ToolStyle};
use crate::text::{bounds_ok, chars_of, remove_each, remove_each_exec, string_of, trim, trim_exec, views};

verus! {

/// [`Formatter`] for Microsoft Phi-4 models: `<|system|>` / `<|user|>` /
/// `<|assistant|>` role tokens, every turn closed by `<|end|>`.
pub struct Phi4Formatter {
    thinking: bool,
}

/// The markup that [`Phi4Formatter`] strips, in order.
pub open spec fn phi4_tags() -> Seq<Seq<char>> {
    seq![
        "<|system|>"@,
        "<|user|>"@,
        "<|assistant|>"@,
        "<|end|>"@,
        "<|tool_response|>"@,
        "<think>"@,
        "</think>"@,
    ]
}

impl Phi4Formatter {
    /// Create a new Phi-4 formatter with or without reasoning support.
    pub fn new(thinking: bool) -> (res: Self)
        ensures
            res.is_thinking() == thinking,
    {
        Self { thinking }
    }

    /// Whether reasoning markup is enabled.
    pub closed spec fn is_thinking(&self) -> bool {
        self.thinking
    }
}

impl Formatter for Phi4Formatter {
    open spec fn bos_text(&self) -> Option<Seq<char>> {
        None
    }

    open spec fn turn_start_text(&self, role: Role) -> Seq<char> {
        match role {
            Role::System => "<|system|>\n"@,
            Role::User => "<|user|>\n"@,
            Role::Assistant => "<|assistant|>\n"@,
        }
    }

    open spec fn turn_end_text(&self, role: Role) -> Seq<char> {
        "<|end|>\n"@
    }

    open spec fn reasoning_bounds_text(&self) -> Option<(Seq<char>, Seq<char>)> {
        if self.is_thinking() {
            Some(("<think>\n"@, "\n</think>"@))
        } else {
            None
        }
    }

    open spec fn wrap_reasoning_text(&self, content: Seq<char>) -> Seq<char> {
        if self.is_thinking() {
            "<think>\n"@ + trim(content) + "\n</think>"@
        } else {
            content
        }
    }

    open spec fn reasoning_trigger_text(&self) -> Option<Seq<char>> {
        if self.is_thinking() {
            Some("<think>\n"@)
        } else {
            None
        }
    }

    open spec fn tool_turn_start_text(&self) -> Seq<char> {
        Seq::empty()
    }

    open spec fn tool_turn_end_text(&self) -> Seq<char> {
        Seq::empty()
    }

    open spec fn tool_style_kind(&self) -> ToolStyle {
        ToolStyle::Inline
    }

    open spec fn tool_call_text(&self, name: Seq<char>, arguments_json: Seq<char>) -> Seq<char> {
        "{\"name\": \""@ + name + "\", \"arguments\": "@ + trim(arguments_json) + "}"@
    }

    open spec fn tool_response_text(&self, tool_name: Seq<char>, content: Seq<char>) -> Seq<char> {
        "<|tool_response|>\n"@ + trim(content) + "\n<|end|>\n"@
    }

    open spec fn strip_tags_text(&self, text: Seq<char>) -> Seq<char> {
        trim(remove_each(text, phi4_tags()))
    }

    open spec fn strip_tags_defined(&self, text: Seq<char>) -> bool {
        true
    }

    proof fn lemma_reasoning_bounds(&self) {
        reveal_strlit("<think>\n");
        reveal_strlit("\n</think>");
        assert(bounds_ok("<think>\n"@, "\n</think>"@)) by {
            assert("<think>\n"@.subrange(0, 8)[0] != "\n</think>"@[0]);
        }
    }

    fn bos(&self) -> (res: Option<&str>) {
        None
    }

    fn turn_start(&self, role: &Role) -> (res: String) {
        match role {
            Role::System => String::from_str("<|system|>\n"),
            Role::User => String::from_str("<|user|>\n"),
            Role::Assistant => String::from_str("<|assistant|>\n"),
        }
    }

    fn turn_end(&self, _role: &Role) -> (res: String) {
        String::from_str("<|end|>\n")
    }

    fn reasoning_bounds(&self) -> (res: Option<(&str, &str)>) {
        if self.thinking {
            Some(("<think>\n", "\n</think>"))
        } else {
            None
        }
    }

    fn wrap_reasoning(&self, content: &str) -> (res: String) {
        if self.thinking {
            let mut r = String::from_str("<think>\n");
            let t = trimmed(content);
            r.append(t.as_str());
            r.append("\n</think>");
            r
        } else {
            String::from_str(content)
        }
    }

    fn reasoning_trigger(&self) -> (res: Option<&str>) {
        if self.thinking {
            Some("<think>\n")
        } else {
            None
        }
    }

    fn tool_turn_start(&self) -> (res: String) {
        String::new()
    }

    fn tool_turn_end(&self) -> (res: String) {
        String::new()
    }

    fn tool_style(&self) -> (res: ToolStyle) {
        ToolStyle::Inline
    }

    fn format_tool_call(&self, name: &str, arguments: &str) -> (res: String) {
        let mut r = String::from_str("{\"name\": \"");
        r.append(name);
        r.append("\", \"arguments\": ");
        let t = trimmed(arguments);
        r.append(t.as_str());
        r.append("}");
        r
    }

    fn format_tool_response(&self, _name: &str, content: &str) -> (res: String) {
        let mut r = String::from_str("<|tool_response|>\n");
        let t = trimmed(content);
        r.append(t.as_str());
        r.append("\n<|end|>\n");
        r
    }

    fn strip_tags_ok(&self, text: &str) -> (res: bool) {
        true
    }

    fn strip_tags(&self, text: &str) -> (res: String) {
        let tags: [&str; 7] = [
            "<|system|>",
            "<|user|>",
            "<|assistant|>",
            "<|end|>",
            "<|tool_response|>",
            "<think>",
            "</think>",
        ];
        proof {
            reveal_strlit("<|system|>");
            reveal_strlit("<|user|>");
            reveal_strlit("<|assistant|>");
            reveal_strlit("<|end|>");
            reveal_strlit("<|tool_response|>");
            reveal_strlit("<think>");
            reveal_strlit("</think>");
            assert(views(tags@) =~= phi4_tags());
        }
        let c = chars_of(text);
        let r = remove_each_exec(&c, &tags);
        let r = trim_exec(&r);
        string_of(&r)
    }
}

} // verus!
