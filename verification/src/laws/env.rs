//! Laws on the environment of the tools.

use vstd::prelude::*;
use vstd::utf8::is_ascii_chars;

use crate::codex_cli::{codex_command, law_codex_env};
use crate::command::{child_env, EnvEditView};
use crate::env_filter::{
    always_removed, filter_edits, has_driver_prefix, has_sensitive_suffix, is_always_removed,
    is_filtered, law_api_keys_never_get_through, lemma_filter_one, lemma_own_variables_pass,
    DRIVER_PREFIXES, SENSITIVE_ENV_EXACT, SENSITIVE_SUFFIXES,
};
use crate::gemini_cli::{gemini_command, law_gemini_env};
use crate::message::RequestView;
use crate::text::{ascii_uppercase, unicode_uppercase, uppercase};

verus! {

/// The names of the keys of model providers and services.
pub open spec fn is_provider_key(name: Seq<char>) -> bool {
    ||| name == "OPENAI_API_KEY"@
    ||| name == "ANTHROPIC_API_KEY"@
    ||| name == "GEMINI_API_KEY"@
    ||| name == "GOOGLE_API_KEY"@
    ||| name == "GROQ_API_KEY"@
    ||| name == "DEEPSEEK_API_KEY"@
    ||| name == "MISTRAL_API_KEY"@
    ||| name == "TOGETHER_API_KEY"@
    ||| name == "FIREWORKS_API_KEY"@
    ||| name == "OPENROUTER_API_KEY"@
    ||| name == "PERPLEXITY_API_KEY"@
    ||| name == "COHERE_API_KEY"@
    ||| name == "AI21_API_KEY"@
    ||| name == "CEREBRAS_API_KEY"@
    ||| name == "SAMBANOVA_API_KEY"@
    ||| name == "HUGGINGFACE_API_KEY"@
    ||| name == "XAI_API_KEY"@
    ||| name == "REPLICATE_API_TOKEN"@
    ||| name == "BRAVE_API_KEY"@
    ||| name == "TAVILY_API_KEY"@
    ||| name == "ELEVENLABS_API_KEY"@
}

/// The ends of names that give a secret away.
pub open spec fn is_secret_end(end: Seq<char>) -> bool {
    end == "_SECRET"@ || end == "_TOKEN"@ || end == "_PASSWORD"@
}

/// `name` begins as the variables of the tools do.
pub open spec fn begins_like_a_tool(name: Seq<char>) -> bool {
    ||| "CLAUDE_"@.is_prefix_of(name)
    ||| "CODEX_"@.is_prefix_of(name)
    ||| "GEMINI_"@.is_prefix_of(name)
    ||| "QWEN_"@.is_prefix_of(name)
}

/// `name`, in capitals, ends as secrets do.
pub open spec fn ends_like_a_secret(name: Seq<char>) -> bool {
    let upper = if is_ascii_chars(name) {
        ascii_uppercase(name)
    } else {
        unicode_uppercase(name)
    };
    "_SECRET"@.is_suffix_of(upper) || "_TOKEN"@.is_suffix_of(upper) || "_PASSWORD"@.is_suffix_of(
        upper,
    )
}

/// What is filtered, in the words of the user: the known keys, and what ends like a secret
/// and does not begin like a tool.
proof fn lemma_filtered(name: Seq<char>)
    ensures
        is_filtered(name) <==> is_provider_key(name) || (!begins_like_a_tool(name)
            && ends_like_a_secret(name)),
{
    let keys = SENSITIVE_ENV_EXACT@;
    if is_always_removed(name) {
        let i = choose|i: int| 0 <= i < always_removed().len() && always_removed()[i] == name;
        assert(always_removed()[i] == keys[i]@);
    }
    if is_provider_key(name) {
        lemma_key_is_listed(name);
        let i = choose|i: int| 0 <= i < keys.len() && #[trigger] keys[i]@ == name;
        assert(always_removed()[i] == name);
    }
    let heads = DRIVER_PREFIXES@;
    assert(heads[0]@ == "CLAUDE_"@ && heads[1]@ == "CODEX_"@ && heads[2]@ == "GEMINI_"@
        && heads[3]@ == "QWEN_"@);
    assert(has_driver_prefix(name) <==> begins_like_a_tool(name));
    let ends = SENSITIVE_SUFFIXES@;
    assert(ends[0]@ == "_SECRET"@ && ends[1]@ == "_TOKEN"@ && ends[2]@ == "_PASSWORD"@);
    assert(has_sensitive_suffix(uppercase(name)) <==> ends_like_a_secret(name));
}

proof fn lemma_key_is_listed(name: Seq<char>)
    requires
        is_provider_key(name),
    ensures
        exists|i: int| 0 <= i < SENSITIVE_ENV_EXACT@.len() && #[trigger] SENSITIVE_ENV_EXACT@[i]@
            == name,
{
    let keys = SENSITIVE_ENV_EXACT@;
    assert(keys[0]@ == "OPENAI_API_KEY"@);
    assert(keys[1]@ == "ANTHROPIC_API_KEY"@);
    assert(keys[2]@ == "GEMINI_API_KEY"@);
    assert(keys[3]@ == "GOOGLE_API_KEY"@);
    assert(keys[4]@ == "GROQ_API_KEY"@);
    assert(keys[5]@ == "DEEPSEEK_API_KEY"@);
    assert(keys[6]@ == "MISTRAL_API_KEY"@);
    assert(keys[7]@ == "TOGETHER_API_KEY"@);
    assert(keys[8]@ == "FIREWORKS_API_KEY"@);
    assert(keys[9]@ == "OPENROUTER_API_KEY"@);
    assert(keys[10]@ == "PERPLEXITY_API_KEY"@);
    assert(keys[11]@ == "COHERE_API_KEY"@);
    assert(keys[12]@ == "AI21_API_KEY"@);
    assert(keys[13]@ == "CEREBRAS_API_KEY"@);
    assert(keys[14]@ == "SAMBANOVA_API_KEY"@);
    assert(keys[15]@ == "HUGGINGFACE_API_KEY"@);
    assert(keys[16]@ == "XAI_API_KEY"@);
    assert(keys[17]@ == "REPLICATE_API_TOKEN"@);
    assert(keys[18]@ == "BRAVE_API_KEY"@);
    assert(keys[19]@ == "TAVILY_API_KEY"@);
    assert(keys[20]@ == "ELEVENLABS_API_KEY"@);
}

/// A variable whose name ends in one of the telling ends, in capitals or not, whatever
/// stands before it, does not get into the child process, unless it begins like a tool's.
pub proof fn law_telling_ends_are_removed(
    parent: Map<Seq<char>, Seq<char>>,
    inherited: Seq<Seq<char>>,
    stem: Seq<char>,
    end: Seq<char>,
)
    requires
        parent.dom().contains(stem + end) ==> inherited.contains(stem + end),
        is_ascii_chars(stem + end),
        is_secret_end(end) || is_secret_end(ascii_uppercase(end)),
        !begins_like_a_tool(stem + end),
    ensures
        !child_env(parent, filter_edits(inherited)).dom().contains(stem + end),
{
    let name = stem + end;
    let upper = ascii_uppercase(name);
    if is_secret_end(end) {
        reveal_strlit("_SECRET");
        reveal_strlit("_TOKEN");
        reveal_strlit("_PASSWORD");
        assert(ascii_uppercase(end) =~= end);
    }
    assert(upper =~= ascii_uppercase(stem) + ascii_uppercase(end));
    assert(upper.subrange(stem.len() as int, upper.len() as int) =~= ascii_uppercase(end));
    assert(ascii_uppercase(end).is_suffix_of(upper));
    lemma_filtered(name);
    lemma_filter_one(parent, inherited, name);
}

/// The keys of model providers and services do not get into the child process, whatever
/// variables are named; nor does what ends like a secret beyond ASCII.
pub proof fn law_provider_keys_are_removed(
    parent: Map<Seq<char>, Seq<char>>,
    inherited: Seq<Seq<char>>,
    name: Seq<char>,
)
    requires
        is_provider_key(name) || (ends_like_a_secret(name) && !begins_like_a_tool(name)
            && inherited.contains(name)),
    ensures
        !child_env(parent, filter_edits(inherited)).dom().contains(name),
{
    lemma_filtered(name);
    if is_provider_key(name) {
        lemma_key_is_listed(name);
        let keys = SENSITIVE_ENV_EXACT@;
        let i = choose|i: int| 0 <= i < keys.len() && #[trigger] keys[i]@ == name;
        assert(always_removed()[i] == name);
        law_api_keys_never_get_through(parent, inherited, name);
    } else {
        lemma_filter_one(parent, inherited, name);
    }
}

/// A variable that is no provider's key, and begins like a tool's or does not end like a
/// secret, gets into the child process with the value it has.
pub proof fn law_everything_else_is_kept(
    parent: Map<Seq<char>, Seq<char>>,
    inherited: Seq<Seq<char>>,
    name: Seq<char>,
)
    requires
        parent.dom().contains(name),
        !is_provider_key(name),
        begins_like_a_tool(name) || !ends_like_a_secret(name),
    ensures
        child_env(parent, filter_edits(inherited)).dom().contains(name),
        child_env(parent, filter_edits(inherited))[name] == parent[name],
{
    lemma_filtered(name);
    lemma_filter_one(parent, inherited, name);
}

/// Of changes to an environment the last one to a variable counts, and what none of them
/// names stays as it is.
pub proof fn law_changes_are_made_in_turn(
    parent: Map<Seq<char>, Seq<char>>,
    edits: Seq<EnvEditView>,
    name: Seq<char>,
    value: Seq<char>,
)
    ensures
        child_env(parent, Seq::empty()) == parent,
        child_env(parent, edits.push(EnvEditView::Assign { name, value })) == child_env(
            parent,
            edits,
        ).insert(name, value),
        child_env(parent, edits.push(EnvEditView::Remove { name })) == child_env(
            parent,
            edits,
        ).remove(name),
{
    assert(edits.push(EnvEditView::Assign { name, value }).drop_last() =~= edits);
    assert(edits.push(EnvEditView::Remove { name }).drop_last() =~= edits);
}

/// What Codex finds in its environment: the system prompt in `SYSTEM_PROMPT` and the home
/// directory in `HOME`, where there are such; none of its parent's secrets; and everything
/// else as its parent has it.
pub proof fn law_codex_finds_its_environment(
    program: Seq<char>,
    skip_permissions: bool,
    request: RequestView,
    inherited: Seq<Seq<char>>,
    home: Option<Seq<char>>,
    parent: Map<Seq<char>, Seq<char>>,
    name: Seq<char>,
)
    requires
        forall|k: Seq<char>| #[trigger] parent.dom().contains(k) ==> inherited.contains(k),
    ensures
        ({
            let env = child_env(
                parent,
                codex_command(program, skip_permissions, request, inherited, home).env,
            );
            let secret = is_provider_key(name) || (ends_like_a_secret(name) && !begins_like_a_tool(
                name,
            ));
            &&& request.system is Some ==> env.dom().contains("SYSTEM_PROMPT"@)
                && env["SYSTEM_PROMPT"@] == request.system->0
            &&& home is Some ==> env.dom().contains("HOME"@) && env["HOME"@] == home->0
            &&& secret ==> !env.dom().contains(name)
            &&& !secret && !(name == "SYSTEM_PROMPT"@ && request.system is Some) && !(name
                == "HOME"@ && home is Some) ==> (env.dom().contains(name) <==> parent.dom().contains(
                name,
            )) && (env.dom().contains(name) ==> env[name] == parent[name])
        }),
{
    law_codex_env(program, skip_permissions, request, inherited, home, parent);
    lemma_own_variables_pass();
    lemma_filtered(name);
}

/// What Gemini finds in its environment: the system prompt in `GEMINI_SYSTEM_PROMPT` and
/// the home directory in `HOME`, where there are such; none of its parent's secrets; and
/// everything else as its parent has it.
pub proof fn law_gemini_finds_its_environment(
    program: Seq<char>,
    skip_permissions: bool,
    request: RequestView,
    inherited: Seq<Seq<char>>,
    home: Option<Seq<char>>,
    parent: Map<Seq<char>, Seq<char>>,
    name: Seq<char>,
)
    requires
        forall|k: Seq<char>| #[trigger] parent.dom().contains(k) ==> inherited.contains(k),
    ensures
        ({
            let env = child_env(
                parent,
                gemini_command(program, skip_permissions, request, inherited, home).env,
            );
            let secret = is_provider_key(name) || (ends_like_a_secret(name) && !begins_like_a_tool(
                name,
            ));
            &&& request.system is Some ==> env.dom().contains("GEMINI_SYSTEM_PROMPT"@)
                && env["GEMINI_SYSTEM_PROMPT"@] == request.system->0
            &&& home is Some ==> env.dom().contains("HOME"@) && env["HOME"@] == home->0
            &&& secret ==> !env.dom().contains(name)
            &&& !secret && !(name == "GEMINI_SYSTEM_PROMPT"@ && request.system is Some) && !(name
                == "HOME"@ && home is Some) ==> (env.dom().contains(name) <==> parent.dom().contains(
                name,
            )) && (env.dom().contains(name) ==> env[name] == parent[name])
        }),
{
    law_gemini_env(program, skip_permissions, request, inherited, home, parent);
    lemma_own_variables_pass();
    lemma_filtered(name);
}

} // verus!
