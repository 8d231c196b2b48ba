//! Formatter for Qwen 2.5 models (ChatML).
use vstd::prelude::*;
use vstd::string::StringExecFns;
use crate::formatter::{trimmed, Formatter, Role, ToolStyle};
use crate::text::{
    bounds_ok, chars_of, remove_blocks_plus, remove_blocks_plus_exec, remove_blocks_plus_ok_exec, remove_blocks_plus_ok,
    remove_each, remove_each_exec, string_of, trim, trim_exec, views,
};

verus! {

/// [`Formatter`] for Qwen 2.5 models and their reasoning derivatives (ChatML markup).
pub struct Qwen25Formatter {
    thinking: bool,
}

/// The markup that [`Qwen25Formatter`] strips by plain replacement, in order.
pub open spec fn qwen_tags() -> Seq<Seq<char>> {
    seq![
        "<|im_start|>"@,
        "<|im_end|>"@,
        "system\n"@,
        "user\n"@,
        "assistant\n"@,
        "tool\n"@,
        "<think>"@,
        "</think>"@,
    ]
}

impl Qwen25Formatter {
    /// Create a new Qwen 2.5 formatter with or without reasoning support.
    pub fn new(thinking: bool) -> (res: Self)
        ensures
            res.is_thinking() == thinking,
    {
        Self { thinking }
    }

    /// Whether reasoning markup is enabled.
    pub closed spec fn is_thinking(&self) -> bool {
        self.thinking
    }
}

impl Formatter for Qwen25Formatter {
    open spec fn bos_text(&self) -> Option<Seq<char>> {
        None
    }

    open spec fn turn_start_text(&self, role: Role) -> Seq<char> {
        match role {
            Role::System => "<|im_start|>system\n"@,
            Role::User => "<|im_start|>user\n"@,
            Role::Assistant => "<|im_start|>assistant\n"@,
        }
    }

    open spec fn turn_end_text(&self, role: Role) -> Seq<char> {
        "<|im_end|>\n"@
    }

    open spec fn reasoning_bounds_text(&self) -> Option<(Seq<char>, Seq<char>)> {
        if self.is_thinking() {
            Some(("<think>\n"@, "</think>"@))
        } else {
            None
        }
    }

    open spec fn wrap_reasoning_text(&self, content: Seq<char>) -> Seq<char> {
        if self.is_thinking() {
            "<think>\n"@ + trim(content) + "</think>"@
        } else {
            content
        }
    }

    open spec fn reasoning_trigger_text(&self) -> Option<Seq<char>> {
        if self.is_thinking() {
            Some("<think>\n"@)
        } else {
            None
        }
    }

    open spec fn tool_turn_start_text(&self) -> Seq<char> {
        Seq::empty()
    }

    open spec fn tool_turn_end_text(&self) -> Seq<char> {
        Seq::empty()
    }

    open spec fn tool_style_kind(&self) -> ToolStyle {
        ToolStyle::Inline
    }

    open spec fn tool_call_text(&self, name: Seq<char>, arguments_json: Seq<char>) -> Seq<char> {
        "{\"name\": \""@ + name + "\", \"arguments\": "@ + trim(arguments_json) + "}"@
    }

    open spec fn tool_response_text(&self, tool_name: Seq<char>, content: Seq<char>) -> Seq<char> {
        "<|im_start|>tool\n"@ + trim(content) + "<|im_end|>\n"@
    }

    open spec fn strip_tags_text(&self, text: Seq<char>) -> Seq<char> {
        trim(remove_blocks_plus(remove_each(text, qwen_tags()), "<|im_start|>tool"@, "<|im_end|>"@))
    }

    /// Removing a leftover tool container also takes the byte after its `<|im_end|>`,
    /// which must exist and be a whole character.
    open spec fn strip_tags_defined(&self, text: Seq<char>) -> bool {
        remove_blocks_plus_ok(remove_each(text, qwen_tags()), "<|im_start|>tool"@, "<|im_end|>"@)
    }

    proof fn lemma_reasoning_bounds(&self) {
        reveal_strlit("<think>\n");
        reveal_strlit("</think>");
        assert(bounds_ok("<think>\n"@, "</think>"@)) by {
            assert("<think>\n"@.subrange(0, 8)[1] != "</think>"@[1]);
        }
    }

    fn bos(&self) -> (res: Option<&str>) {
        None
    }

    fn turn_start(&self, role: &Role) -> (res: String) {
        match role {
            Role::System => String::from_str("<|im_start|>system\n"),
            Role::User => String::from_str("<|im_start|>user\n"),
            Role::Assistant => String::from_str("<|im_start|>assistant\n"),
        }
    }

    fn turn_end(&self, _role: &Role) -> (res: String) {
        String::from_str("<|im_end|>\n")
    }

    fn reasoning_bounds(&self) -> (res: Option<(&str, &str)>) {
        if self.thinking {
            Some(("<think>\n", "</think>"))
        } else {
            None
        }
    }

    fn wrap_reasoning(&self, content: &str) -> (res: String) {
        if self.thinking {
            let mut r = String::from_str("<think>\n");
            let t = trimmed(content);
            r.append(t.as_str());
            r.append("</think>");
            r
        } else {
            String::from_str(content)
        }
    }

    fn reasoning_trigger(&self) -> (res: Option<&str>) {
        if self.thinking {
            Some("<think>\n")
        } else {
            None
        }
    }

    fn tool_turn_start(&self) -> (res: String) {
        String::new()
    }

    fn tool_turn_end(&self) -> (res: String) {
        String::new()
    }

    fn tool_style(&self) -> (res: ToolStyle) {
        ToolStyle::Inline
    }

    fn format_tool_call(&self, name: &str, arguments: &str) -> (res: String) {
        let mut r = String::from_str("{\"name\": \"");
        r.append(name);
        r.append("\", \"arguments\": ");
        let t = trimmed(arguments);
        r.append(t.as_str());
        r.append("}");
        r
    }

    fn format_tool_response(&self, _name: &str, content: &str) -> (res: String) {
        let mut r = String::from_str("<|im_start|>tool\n");
        let t = trimmed(content);
        r.append(t.as_str());
        r.append("<|im_end|>\n");
        r
    }

    fn strip_tags_ok(&self, text: &str) -> (res: bool) {
        let tags: [&str; 8] = [
            "<|im_start|>",
            "<|im_end|>",
            "system\n",
            "user\n",
            "assistant\n",
            "tool\n",
            "<think>",
            "</think>",
        ];
        proof {
            reveal_strlit("<|im_start|>");
            reveal_strlit("<|im_end|>");
            reveal_strlit("system\n");
            reveal_strlit("user\n");
            reveal_strlit("assistant\n");
            reveal_strlit("tool\n");
            reveal_strlit("<think>");
            reveal_strlit("</think>");
            assert(views(tags@) =~= qwen_tags());
        }
        let c = chars_of(text);
        let r = remove_each_exec(&c, &tags);
        let open = chars_of("<|im_start|>tool");
        let close = chars_of("<|im_end|>");
        remove_blocks_plus_ok_exec(&r, &open, &close)
    }

    fn strip_tags(&self, text: &str) -> (res: String) {
        let tags: [&str; 8] = [
            "<|im_start|>",
            "<|im_end|>",
            "system\n",
            "user\n",
            "assistant\n",
            "tool\n",
            "<think>",
            "</think>",
        ];
        proof {
            reveal_strlit("<|im_start|>");
            reveal_strlit("<|im_end|>");
            reveal_strlit("system\n");
            reveal_strlit("user\n");
            reveal_strlit("assistant\n");
            reveal_strlit("tool\n");
            reveal_strlit("<think>");
            reveal_strlit("</think>");
            assert(views(tags@) =~= qwen_tags());
        }
        let c = chars_of(text);
        let r = remove_each_exec(&c, &tags);
        let open = chars_of("<|im_start|>tool");
        let close = chars_of("<|im_end|>");
        let r = remove_blocks_plus_exec(&r, &open, &close);
        let r = trim_exec(&r);
        string_of(&r)
    }
}

} // verus!
