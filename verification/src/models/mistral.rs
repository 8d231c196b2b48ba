//! Formatter for Mistral models.
use vstd::prelude::*;
use vstd::string::StringExecFns;
use crate::formatter::{trimmed, Formatter, Role, ToolStyle};
use crate::text::{
    bounds_ok, chars_of, remove_blocks, remove_blocks_exec, remove_each, remove_each_exec,
    string_of, trim, trim_exec, views,
};

verus! {

/// [`Formatter`] for Mistral models.
///
/// Supports both modern Mistral v3 (Tekken tokenizer) and legacy v1/v2 templates.
/// Uses `[INST]` / `[/INST]` delimiters and `[SYSTEM_PROMPT]` for system messages.
/// Tool calls use `[TOOL_CALLS]` / `[/TOOL_CALLS]` markup.
pub struct MistralFormatter {
    flavor: MistralFlavor,
    thinking: bool,
}

/// Mistral template generation.
#[derive(Debug, Clone, Copy, PartialEq, Eq, Structural)]
pub enum MistralFlavor {
    /// For Mistral-Nemo, Mistral Large 2, and 7B v0.3 (Tekken / v3 tokenizer).
    /// Has native tokens for system and tools.
    V3Tekken,
    /// For legacy Mistral 7B v0.1 / v0.2 models (v1/v2 template).
    Legacy,
}

/// The markup that [`MistralFormatter`] strips by plain replacement, in order.
pub open spec fn mistral_tags() -> Seq<Seq<char>> {
    seq![
        "<s>"@,
        "</s>"@,
        "[SYSTEM_PROMPT]"@,
        "[/SYSTEM_PROMPT]"@,
        "[INST]"@,
        "[/INST]"@,
        "[TOOL_CALLS]"@,
        "[/TOOL_CALLS]"@,
        "[TOOL_RESULTS]"@,
        "[/TOOL_RESULTS]"@,
        "<think>"@,
        "</think>"@,
    ]
}

impl MistralFormatter {
    /// Create a new Mistral formatter with the specified flavor and reasoning support.
    pub fn new(flavor: MistralFlavor, thinking: bool) -> (res: Self)
        ensures
            res.flavor_kind() == flavor,
            res.is_thinking() == thinking,
    {
        Self { flavor, thinking }
    }

    /// The template generation.
    pub closed spec fn flavor_kind(&self) -> MistralFlavor {
        self.flavor
    }

    /// Whether reasoning markup is enabled.
    pub closed spec fn is_thinking(&self) -> bool {
        self.thinking
    }
}

impl Formatter for MistralFormatter {
    open spec fn bos_text(&self) -> Option<Seq<char>> {
        Some("<s>"@)
    }

    open spec fn turn_start_text(&self, role: Role) -> Seq<char> {
        match (self.flavor_kind(), role) {
            (MistralFlavor::V3Tekken, Role::System) => "[SYSTEM_PROMPT]"@,
            (MistralFlavor::Legacy, Role::System) => "[INST] "@,
            (_, Role::User) => "[INST]"@,
            (_, Role::Assistant) => Seq::empty(),
        }
    }

    open spec fn turn_end_text(&self, role: Role) -> Seq<char> {
        match (self.flavor_kind(), role) {
            (MistralFlavor::V3Tekken, Role::System) => " [/SYSTEM_PROMPT]\n"@,
            (MistralFlavor::V3Tekken, Role::User) => " [/INST]\n"@,
            (MistralFlavor::Legacy, Role::System) => "\n\n"@,
            (MistralFlavor::Legacy, Role::User) => "[/INST]"@,
            (_, Role::Assistant) => "</s>"@,
        }
    }

    open spec fn reasoning_bounds_text(&self) -> Option<(Seq<char>, Seq<char>)> {
        if self.is_thinking() {
            Some(("<think>\n"@, "\n</think>"@))
        } else {
            None
        }
    }

    open spec fn wrap_reasoning_text(&self, content: Seq<char>) -> Seq<char> {
        if self.is_thinking() {
            "<think>\n"@ + trim(content) + "\n</think>"@
        } else {
            content
        }
    }

    open spec fn reasoning_trigger_text(&self) -> Option<Seq<char>> {
        if self.is_thinking() {
            Some("<think>\n"@)
        } else {
            None
        }
    }

    open spec fn tool_turn_start_text(&self) -> Seq<char> {
        Seq::empty()
    }

    open spec fn tool_turn_end_text(&self) -> Seq<char> {
        Seq::empty()
    }

    open spec fn tool_style_kind(&self) -> ToolStyle {
        ToolStyle::Inline
    }

    open spec fn tool_call_text(&self, name: Seq<char>, arguments_json: Seq<char>) -> Seq<char> {
        "[TOOL_CALLS][{\"name\": \""@ + name + "\", \"arguments\": "@ + trim(arguments_json)
            + "}][/TOOL_CALLS]"@
    }

    open spec fn tool_response_text(&self, tool_name: Seq<char>, content: Seq<char>) -> Seq<char> {
        "[TOOL_RESULTS]"@ + trim(content) + "[/TOOL_RESULTS]"@
    }

    open spec fn strip_tags_text(&self, text: Seq<char>) -> Seq<char> {
        trim(
            remove_each(
                remove_blocks(
                    remove_blocks(text, "[TOOL_CALLS]"@, "[/TOOL_CALLS]"@),
                    "[TOOL_RESULTS]"@,
                    "[/TOOL_RESULTS]"@,
                ),
                mistral_tags(),
            ),
        )
    }

    open spec fn strip_tags_defined(&self, text: Seq<char>) -> bool {
        true
    }

    proof fn lemma_reasoning_bounds(&self) {
        reveal_strlit("<think>\n");
        reveal_strlit("\n</think>");
        assert(bounds_ok("<think>\n"@, "\n</think>"@)) by {
            assert("<think>\n"@.subrange(0, 8)[0] != "\n</think>"@[0]);
        }
    }

    fn bos(&self) -> (res: Option<&str>) {
        Some("<s>")
    }

    fn turn_start(&self, role: &Role) -> (res: String) {
        match (self.flavor, role) {
            (MistralFlavor::V3Tekken, Role::System) => String::from_str("[SYSTEM_PROMPT]"),
            (MistralFlavor::Legacy, Role::System) => String::from_str("[INST] "),
            (_, Role::User) => String::from_str("[INST]"),
            (_, Role::Assistant) => String::new(),
        }
    }

    fn turn_end(&self, role: &Role) -> (res: String) {
        match (self.flavor, role) {
            (MistralFlavor::V3Tekken, Role::System) => String::from_str(" [/SYSTEM_PROMPT]\n"),
            (MistralFlavor::V3Tekken, Role::User) => String::from_str(" [/INST]\n"),
            (MistralFlavor::Legacy, Role::System) => String::from_str("\n\n"),
            (MistralFlavor::Legacy, Role::User) => String::from_str("[/INST]"),
            (_, Role::Assistant) => String::from_str("</s>"),
        }
    }

    fn reasoning_bounds(&self) -> (res: Option<(&str, &str)>) {
        if self.thinking {
            Some(("<think>\n", "\n</think>"))
        } else {
            None
        }
    }

    fn wrap_reasoning(&self, content: &str) -> (res: String) {
        if self.thinking {
            let mut r = String::from_str("<think>\n");
            let t = trimmed(content);
            r.append(t.as_str());
            r.append("\n</think>");
            r
        } else {
            String::from_str(content)
        }
    }

    fn reasoning_trigger(&self) -> (res: Option<&str>) {
        if self.thinking {
            Some("<think>\n")
        } else {
            None
        }
    }

    fn tool_turn_start(&self) -> (res: String) {
        String::new()
    }

    fn tool_turn_end(&self) -> (res: String) {
        String::new()
    }

    fn tool_style(&self) -> (res: ToolStyle) {
        ToolStyle::Inline
    }

    fn format_tool_call(&self, name: &str, arguments: &str) -> (res: String) {
        let mut r = String::from_str("[TOOL_CALLS][{\"name\": \"");
        r.append(name);
        r.append("\", \"arguments\": ");
        let t = trimmed(arguments);
        r.append(t.as_str());
        r.append("}][/TOOL_CALLS]");
        r
    }

    fn format_tool_response(&self, _name: &str, content: &str) -> (res: String) {
        let mut r = String::from_str("[TOOL_RESULTS]");
        let t = trimmed(content);
        r.append(t.as_str());
        r.append("[/TOOL_RESULTS]");
        r
    }

    fn strip_tags_ok(&self, text: &str) -> (res: bool) {
        true
    }

    fn strip_tags(&self, text: &str) -> (res: String) {
        let tags: [&str; 12] = [
            "<s>",
            "</s>",
            "[SYSTEM_PROMPT]",
            "[/SYSTEM_PROMPT]",
            "[INST]",
            "[/INST]",
            "[TOOL_CALLS]",
            "[/TOOL_CALLS]",
            "[TOOL_RESULTS]",
            "[/TOOL_RESULTS]",
            "<think>",
            "</think>",
        ];
        proof {
            reveal_strlit("<s>");
            reveal_strlit("</s>");
            reveal_strlit("[SYSTEM_PROMPT]");
            reveal_strlit("[/SYSTEM_PROMPT]");
            reveal_strlit("[INST]");
            reveal_strlit("[/INST]");
            reveal_strlit("[TOOL_CALLS]");
            reveal_strlit("[/TOOL_CALLS]");
            reveal_strlit("[TOOL_RESULTS]");
            reveal_strlit("[/TOOL_RESULTS]");
            reveal_strlit("<think>");
            reveal_strlit("</think>");
            assert(views(tags@) =~= mistral_tags());
        }
        let c = chars_of(text);
        let call_open = chars_of("[TOOL_CALLS]");
        let call_close = chars_of("[/TOOL_CALLS]");
        let r = remove_blocks_exec(&c, &call_open, &call_close);
        let res_open = chars_of("[TOOL_RESULTS]");
        let res_close = chars_of("[/TOOL_RESULTS]");
        let r = remove_blocks_exec(&r, &res_open, &res_close);
        let r = remove_each_exec(&r, &tags);
        let r = trim_exec(&r);
        string_of(&r)
    }
}

} // verus!
