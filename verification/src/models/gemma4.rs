//! Formatter for Google Gemma 4 models.
use vstd::prelude::*;
use vstd::string::StringExecFns;
use crate::formatter::{trimmed, Formatter, Role, ToolStyle};
use crate::text::{
    bounds_ok, chars_of, remove_blocks, remove_blocks_exec, remove_each, remove_each_exec,
    string_of, trim, trim_exec, views,
};

verus! {

/// [`Formatter`] for Google Gemma 4 models.
///
/// Uses Gemma's `<|turn>` / `<turn|>` turn delimiters and `<|channel>thought` /
/// `<channel|>` reasoning tags.  The exact format varies by [`Gemma4Flavor`].
pub struct GemmaFormatter {
    flavor: Gemma4Flavor,
    thinking: bool,
}

/// Selects the exact Gemma 4 chat-template variant to use.
#[derive(Debug, Clone, Copy, PartialEq, Eq, Structural)]
pub enum Gemma4Flavor {
    /// Official Google template as shipped with the base Gemma 4 checkpoint.
    GoogleOfficial,
    /// Template used by Unsloth fine-tunes with a corrected tool-call format.
    UnslothFixed,
    /// Simplified vanilla format suitable for most community fine-tunes.
    Vanilla,
}

/// The markup that [`GemmaFormatter`] strips by plain replacement, in order.
pub open spec fn gemma_tags() -> Seq<Seq<char>> {
    seq![
        "<|begin_of_text|>"@,
        "<|end_of_text|>"@,
        "<|turn>user\n"@,
        "<|turn>model\n"@,
        "<|turn>system\n"@,
        "<turn|>\n"@,
        "<turn|>"@,
        "<|channel>thought\n"@,
        "<|channel>code\n"@,
        "<|channel>custom\n"@,
        "<channel|>\n"@,
        "<channel|>"@,
    ]
}

impl GemmaFormatter {
    /// Create a new Gemma formatter with the specified flavor and reasoning support.
    pub fn new(flavor: Gemma4Flavor, thinking: bool) -> (res: Self)
        ensures
            res.flavor_kind() == flavor,
            res.is_thinking() == thinking,
    {
        Self { flavor, thinking }
    }

    /// The template variant.
    pub closed spec fn flavor_kind(&self) -> Gemma4Flavor {
        self.flavor
    }

    /// Whether reasoning markup is enabled.
    pub closed spec fn is_thinking(&self) -> bool {
        self.thinking
    }
}

impl Formatter for GemmaFormatter {
    open spec fn bos_text(&self) -> Option<Seq<char>> {
        Some("<bos>"@)
    }

    open spec fn turn_start_text(&self, role: Role) -> Seq<char> {
        match role {
            Role::System => "<|turn>system\n"@,
            Role::User => "<|turn>user\n"@,
            Role::Assistant => "<|turn>model\n"@,
        }
    }

    open spec fn turn_end_text(&self, role: Role) -> Seq<char> {
        "<turn|>\n"@
    }

    open spec fn reasoning_bounds_text(&self) -> Option<(Seq<char>, Seq<char>)> {
        if self.is_thinking() {
            Some(("<|channel>thought\n"@, "<channel|>"@))
        } else {
            None
        }
    }

    open spec fn wrap_reasoning_text(&self, content: Seq<char>) -> Seq<char> {
        if self.is_thinking() {
            "<|channel>thought\n"@ + trim(content) + "<channel|>"@
        } else {
            content
        }
    }

    open spec fn reasoning_trigger_text(&self) -> Option<Seq<char>> {
        if self.is_thinking() {
            Some("<|channel>thought\n"@)
        } else {
            None
        }
    }

    open spec fn tool_turn_start_text(&self) -> Seq<char> {
        Seq::empty()
    }

    open spec fn tool_turn_end_text(&self) -> Seq<char> {
        Seq::empty()
    }

    open spec fn tool_style_kind(&self) -> ToolStyle {
        ToolStyle::Inline
    }

    open spec fn tool_call_text(&self, name: Seq<char>, arguments_json: Seq<char>) -> Seq<char> {
        if self.flavor_kind() == Gemma4Flavor::GoogleOfficial {
            "<|tool_call>call:"@ + name + "{{"@ + trim(arguments_json) + "}}<tool_call|>"@
        } else {
            "<|tool_call>call:"@ + name + "{"@ + trim(arguments_json) + "}<tool_call|>"@
        }
    }

    open spec fn tool_response_text(&self, tool_name: Seq<char>, content: Seq<char>) -> Seq<char> {
        "<|tool_response>response:"@ + tool_name + "{value:"@ + trim(content) + "}<tool_response|>"@
    }

    open spec fn strip_tags_text(&self, text: Seq<char>) -> Seq<char> {
        trim(
            remove_blocks(
                remove_blocks(remove_each(text, gemma_tags()), "<|tool_call>"@, "<tool_call|>"@),
                "<|tool_response>"@,
                "<tool_response|>"@,
            ),
        )
    }

    open spec fn strip_tags_defined(&self, text: Seq<char>) -> bool {
        true
    }

    proof fn lemma_reasoning_bounds(&self) {
        reveal_strlit("<|channel>thought\n");
        reveal_strlit("<channel|>");
        assert(bounds_ok("<|channel>thought\n"@, "<channel|>"@)) by {
            assert("<|channel>thought\n"@.subrange(0, 10)[1] != "<channel|>"@[1]);
        }
    }

    fn bos(&self) -> (res: Option<&str>) {
        Some("<bos>")
    }

    fn turn_start(&self, role: &Role) -> (res: String) {
        match role {
            Role::System => String::from_str("<|turn>system\n"),
            Role::User => String::from_str("<|turn>user\n"),
            Role::Assistant => String::from_str("<|turn>model\n"),
        }
    }

    fn turn_end(&self, _role: &Role) -> (res: String) {
        String::from_str("<turn|>\n")
    }

    fn reasoning_bounds(&self) -> (res: Option<(&str, &str)>) {
        if self.thinking {
            Some(("<|channel>thought\n", "<channel|>"))
        } else {
            None
        }
    }

    fn wrap_reasoning(&self, content: &str) -> (res: String) {
        if self.thinking {
            let mut r = String::from_str("<|channel>thought\n");
            let t = trimmed(content);
            r.append(t.as_str());
            r.append("<channel|>");
            r
        } else {
            String::from_str(content)
        }
    }

    fn reasoning_trigger(&self) -> (res: Option<&str>) {
        if self.thinking {
            Some("<|channel>thought\n")
        } else {
            None
        }
    }

    fn tool_turn_start(&self) -> (res: String) {
        String::new()
    }

    fn tool_turn_end(&self) -> (res: String) {
        String::new()
    }

    fn tool_style(&self) -> (res: ToolStyle) {
        ToolStyle::Inline
    }

    fn format_tool_call(&self, name: &str, arguments: &str) -> (res: String) {
        let args = trimmed(arguments);
        let mut r = String::from_str("<|tool_call>call:");
        r.append(name);
        match self.flavor {
            Gemma4Flavor::GoogleOfficial => {
                r.append("{{");
                r.append(args.as_str());
                r.append("}}<tool_call|>");
            },
            _ => {
                r.append("{");
                r.append(args.as_str());
                r.append("}<tool_call|>");
            },
        }
        r
    }

    fn format_tool_response(&self, name: &str, content: &str) -> (res: String) {
        let mut r = String::from_str("<|tool_response>response:");
        r.append(name);
        r.append("{value:");
        let t = trimmed(content);
        r.append(t.as_str());
        r.append("}<tool_response|>");
        r
    }

    fn strip_tags_ok(&self, text: &str) -> (res: bool) {
        true
    }

    fn strip_tags(&self, text: &str) -> (res: String) {
        let tags: [&str; 12] = [
            "<|begin_of_text|>",
            "<|end_of_text|>",
            "<|turn>user\n",
            "<|turn>model\n",
            "<|turn>system\n",
            "<turn|>\n",
            "<turn|>",
            "<|channel>thought\n",
            "<|channel>code\n",
            "<|channel>custom\n",
            "<channel|>\n",
            "<channel|>",
        ];
        proof {
            reveal_strlit("<|begin_of_text|>");
            reveal_strlit("<|end_of_text|>");
            reveal_strlit("<|turn>user\n");
            reveal_strlit("<|turn>model\n");
            reveal_strlit("<|turn>system\n");
            reveal_strlit("<turn|>\n");
            reveal_strlit("<turn|>");
            reveal_strlit("<|channel>thought\n");
            reveal_strlit("<|channel>code\n");
            reveal_strlit("<|channel>custom\n");
            reveal_strlit("<channel|>\n");
            reveal_strlit("<channel|>");
            assert(views(tags@) =~= gemma_tags());
        }
        let c = chars_of(text);
        let r = remove_each_exec(&c, &tags);
        let call_open = chars_of("<|tool_call>");
        let call_close = chars_of("<tool_call|>");
        let r = remove_blocks_exec(&r, &call_open, &call_close);
        let resp_open = chars_of("<|tool_response>");
        let resp_close = chars_of("<tool_response|>");
        let r = remove_blocks_exec(&r, &resp_open, &resp_close);
        let r = trim_exec(&r);
        string_of(&r)
    }
}

} // verus!
