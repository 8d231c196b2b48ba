//! Formatter for Meta Llama 3 models.
use vstd::prelude::*;
use vstd::string::StringExecFns;
use crate::formatter::{concat2, trimmed, Formatter, Role, ToolStyle};
use crate::text::{bounds_ok, chars_of, remove_each, remove_each_exec, string_of, trim, views};

verus! {

/// [`Formatter`] for Meta Llama 3 models.
///
/// Uses Llama 3's `<|start_header_id|>` / `<|end_header_id|>` header tokens
/// and the `<|eot_id|>` end-of-turn marker; reasoning goes between `<think>` tags.
pub struct Llama3Formatter;

/// The markup that [`Llama3Formatter`] strips, in the order it is removed.
pub open spec fn llama3_tags() -> Seq<Seq<char>> {
    seq![
        "<|begin_of_text|>"@,
        "<|end_of_text|>"@,
        "<|start_header_id|>system<|end_header_id|>\n\n"@,
        "<|start_header_id|>user<|end_header_id|>\n\n"@,
        "<|start_header_id|>assistant<|end_header_id|>\n\n"@,
        "<|start_header_id|>ipython<|end_header_id|>\n\n"@,
        "<|eot_id|>"@,
        "<|eom_id|>"@,
    ]
}

impl Formatter for Llama3Formatter {
    open spec fn bos_text(&self) -> Option<Seq<char>> {
        Some("<|begin_of_text|>"@)
    }

    open spec fn turn_start_text(&self, role: Role) -> Seq<char> {
        match role {
            Role::System => "<|start_header_id|>system<|end_header_id|>\n\n"@,
            Role::User => "<|start_header_id|>user<|end_header_id|>\n\n"@,
            Role::Assistant => "<|start_header_id|>assistant<|end_header_id|>\n\n"@,
        }
    }

    open spec fn turn_end_text(&self, role: Role) -> Seq<char> {
        "<|eot_id|>"@
    }

    open spec fn reasoning_bounds_text(&self) -> Option<(Seq<char>, Seq<char>)> {
        Some(("<think>\n"@, "\n</think>\n"@))
    }

    open spec fn wrap_reasoning_text(&self, content: Seq<char>) -> Seq<char> {
        "<think>\n"@ + trim(content) + "\n</think>\n"@
    }

    open spec fn reasoning_trigger_text(&self) -> Option<Seq<char>> {
        Some("\n<think>\n"@)
    }

    open spec fn tool_turn_start_text(&self) -> Seq<char> {
        "<|start_header_id|>ipython<|end_header_id|>\n\n"@
    }

    open spec fn tool_turn_end_text(&self) -> Seq<char> {
        "<|eot_id|>"@
    }

    open spec fn tool_style_kind(&self) -> ToolStyle {
        ToolStyle::SeparateTurn
    }

    open spec fn tool_call_text(&self, name: Seq<char>, arguments_json: Seq<char>) -> Seq<char> {
        "{\"name\": \""@ + name + "\", \"parameters\": "@ + trim(arguments_json) + "}"@
    }

    open spec fn tool_response_text(&self, tool_name: Seq<char>, content: Seq<char>) -> Seq<char> {
        trim(content)
    }

    open spec fn strip_tags_text(&self, text: Seq<char>) -> Seq<char> {
        remove_each(text, llama3_tags())
    }

    open spec fn strip_tags_defined(&self, text: Seq<char>) -> bool {
        true
    }

    proof fn lemma_reasoning_bounds(&self) {
        reveal_strlit("<think>\n");
        reveal_strlit("\n</think>\n");
        assert(bounds_ok("<think>\n"@, "\n</think>\n"@)) by {
            assert("\n</think>\n"@.subrange(0, 8)[0] != "<think>\n"@[0]);
        }
    }

    fn bos(&self) -> (res: Option<&str>) {
        Some("<|begin_of_text|>")
    }

    fn tool_turn_start(&self) -> (res: String) {
        String::from_str("<|start_header_id|>ipython<|end_header_id|>\n\n")
    }

    fn tool_turn_end(&self) -> (res: String) {
        String::from_str("<|eot_id|>")
    }

    fn tool_style(&self) -> (res: ToolStyle) {
        ToolStyle::SeparateTurn
    }

    fn turn_start(&self, role: &Role) -> (res: String) {
        match role {
            Role::System => String::from_str("<|start_header_id|>system<|end_header_id|>\n\n"),
            Role::User => String::from_str("<|start_header_id|>user<|end_header_id|>\n\n"),
            Role::Assistant => String::from_str(
                "<|start_header_id|>assistant<|end_header_id|>\n\n",
            ),
        }
    }

    fn turn_end(&self, _role: &Role) -> (res: String) {
        String::from_str("<|eot_id|>")
    }

    fn reasoning_bounds(&self) -> (res: Option<(&str, &str)>) {
        Some(("<think>\n", "\n</think>\n"))
    }

    fn wrap_reasoning(&self, content: &str) -> (res: String) {
        let mut r = String::from_str("<think>\n");
        let t = trimmed(content);
        r.append(t.as_str());
        r.append("\n</think>\n");
        r
    }

    fn reasoning_trigger(&self) -> (res: Option<&str>) {
        Some("\n<think>\n")
    }

    fn format_tool_call(&self, name: &str, arguments_json: &str) -> (res: String) {
        let mut r = String::from_str("{\"name\": \"");
        r.append(name);
        r.append("\", \"parameters\": ");
        let t = trimmed(arguments_json);
        r.append(t.as_str());
        r.append("}");
        r
    }

    fn format_tool_response(&self, _name: &str, content: &str) -> (res: String) {
        trimmed(content)
    }

    fn strip_tags_ok(&self, text: &str) -> (res: bool) {
        true
    }

    fn strip_tags(&self, text: &str) -> (res: String) {
        let tags: [&str; 8] = [
            "<|begin_of_text|>",
            "<|end_of_text|>",
            "<|start_header_id|>system<|end_header_id|>\n\n",
            "<|start_header_id|>user<|end_header_id|>\n\n",
            "<|start_header_id|>assistant<|end_header_id|>\n\n",
            "<|start_header_id|>ipython<|end_header_id|>\n\n",
            "<|eot_id|>",
            "<|eom_id|>",
        ];
        proof {
            reveal_strlit("<|begin_of_text|>");
            reveal_strlit("<|end_of_text|>");
            reveal_strlit("<|start_header_id|>system<|end_header_id|>\n\n");
            reveal_strlit("<|start_header_id|>user<|end_header_id|>\n\n");
            reveal_strlit("<|start_header_id|>assistant<|end_header_id|>\n\n");
            reveal_strlit("<|start_header_id|>ipython<|end_header_id|>\n\n");
            reveal_strlit("<|eot_id|>");
            reveal_strlit("<|eom_id|>");
            assert(views(tags@) =~= llama3_tags());
        }
        let c = chars_of(text);
        let r = remove_each_exec(&c, &tags);
        string_of(&r)
    }
}

} // verus!
