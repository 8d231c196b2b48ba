//! Laws on what the library writes for a model: Mistral closes assistant turns
//! with its end-of-sequence token, and the object grammar's reasoning rule holds
//! the trimmed reasoning markers, as the variant grammar's does.
use vstd::prelude::*;
use crate::formatter::{formatter_named, known_formatter_name, DynamicFormatter, Formatter, Role};
use crate::lark::{lark_rules, object_rules};
use crate::models::mistral::MistralFormatter;
use crate::oracle::{prompt_spec, OracleCore};
use crate::text::{is_trimmed, lemma_trim_is_trimmed, trim};

verus! {

/// Mistral (both flavors) closes an assistant turn with its end-of-sequence token
/// `</s>`, the counterpart of its `<s>` start token: a user prompt after an open
/// assistant turn sends `</s>`, then `[INST]`, then the prompt.
pub proof fn law_mistral_closes_assistant_turns(f: MistralFormatter, core: OracleCore, q: Seq<char>)
    requires
        core.active_turn == Some(Role::Assistant),
        !core.is_fresh_context,
    ensures
        f.turn_end_text(Role::Assistant) == "</s>"@,
        f.bos_text() == Some("<s>"@),
        prompt_spec(&f, core, Role::User, q).0 == "</s>"@ + "[INST]"@ + q,
{
    reveal_strlit("</s>");
    reveal_strlit("[INST]");
    assert(prompt_spec(&f, core, Role::User, q).0 =~= "</s>"@ + "[INST]"@ + q);
}

/// With reasoning markers `(a, b)`, the grammar for a JSON array of objects starts
/// with an optional reasoning block whose rule holds the trimmed markers (so a
/// marker ending in a newline puts no raw newline into the Lark literal): the same
/// rule the grammar of fixed answers builds from the same markers.
pub proof fn law_object_grammar_reasoning_rule(
    props: Seq<(Seq<char>, Option<Seq<char>>)>,
    variants: Seq<Seq<char>>,
    a: Seq<char>,
    b: Seq<char>,
)
    ensures
        object_rules(props, Some((a, b)))[0] == "start: [thinking] json_array"@,
        object_rules(props, Some((a, b)))[1] == "thinking: \""@ + trim(a) + "\" /(?s).*?/ \""@ + trim(b) + "\""@,
        object_rules(props, Some((a, b)))[1] == lark_rules(variants, Some((a, b)))[1],
        is_trimmed(trim(a)),
        is_trimmed(trim(b)),
{
    lemma_trim_is_trimmed(a);
    lemma_trim_is_trimmed(b);
}

/// Every built-in formatter closes every turn with a non-empty delimiter, so a
/// conversation never runs one turn into the next.
pub proof fn law_turns_are_closed(f: DynamicFormatter, r: Role)
    ensures
        f.turn_end_text(r).len() > 0,
{
    reveal_strlit("<turn|>\n");
    reveal_strlit("<|eot_id|>");
    reveal_strlit(" [/SYSTEM_PROMPT]\n");
    reveal_strlit(" [/INST]\n");
    reveal_strlit("\n\n");
    reveal_strlit("[/INST]");
    reveal_strlit("</s>");
    reveal_strlit("<|im_end|>\n");
    reveal_strlit("<|end|>\n");
}

/// Every formatter chosen by name has reasoning enabled: it names reasoning
/// markers, and a generation asked to think starts with its trigger.
pub proof fn law_named_formatters_reason(f: DynamicFormatter, name: Seq<char>)
    requires
        known_formatter_name(name),
        formatter_named(f, name),
    ensures
        f.reasoning_bounds_text() is Some,
        f.reasoning_trigger_text() is Some,
{
}

} // verus!
