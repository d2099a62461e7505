//! Keeping secrets out of child processes.
//!
//! A child process gets the whole environment, so that runtimes, certificates and
//! proxies keep working, save the variables that are known to hold secrets.

use vstd::prelude::*;

use crate::command::{child_env, Command, CommandView, EnvEditView};
use crate::text::{ends_with, starts_with, texts, to_upper, uppercase};

verus! {

/// Variables that are always removed.
pub const SENSITIVE_ENV_EXACT: [&'static str; 21] = [
    "OPENAI_API_KEY",
    "ANTHROPIC_API_KEY",
    "GEMINI_API_KEY",
    "GOOGLE_API_KEY",
    "GROQ_API_KEY",
    "DEEPSEEK_API_KEY",
    "MISTRAL_API_KEY",
    "TOGETHER_API_KEY",
    "FIREWORKS_API_KEY",
    "OPENROUTER_API_KEY",
    "PERPLEXITY_API_KEY",
    "COHERE_API_KEY",
    "AI21_API_KEY",
    "CEREBRAS_API_KEY",
    "SAMBANOVA_API_KEY",
    "HUGGINGFACE_API_KEY",
    "XAI_API_KEY",
    "REPLICATE_API_TOKEN",
    "BRAVE_API_KEY",
    "TAVILY_API_KEY",
    "ELEVENLABS_API_KEY",
];

/// Ends of names, in any case, that mark a secret.
pub const SENSITIVE_SUFFIXES: [&'static str; 3] = ["_SECRET", "_TOKEN", "_PASSWORD"];

/// Beginnings of names that belong to a driver; such variables are kept in spite of
/// their ends.
pub const DRIVER_PREFIXES: [&'static str; 4] = ["CLAUDE_", "CODEX_", "GEMINI_", "QWEN_"];

/// `name` is one of the variables that are always removed.
pub open spec fn is_always_removed(name: Seq<char>) -> bool {
    always_removed().contains(name)
}

/// The names of the variables that are always removed.
pub open spec fn always_removed() -> Seq<Seq<char>> {
    SENSITIVE_ENV_EXACT@.map_values(|s: &'static str| s@)
}

/// `name` belongs to a driver.
pub open spec fn has_driver_prefix(name: Seq<char>) -> bool {
    exists|i: int|
        0 <= i < DRIVER_PREFIXES@.len() && (#[trigger] DRIVER_PREFIXES@[i])@.is_prefix_of(name)
}

/// `upper`, the uppercase form of a name, marks a secret by its end.
pub open spec fn has_sensitive_suffix(upper: Seq<char>) -> bool {
    exists|i: int|
        0 <= i < SENSITIVE_SUFFIXES@.len() && (#[trigger] SENSITIVE_SUFFIXES@[i])@.is_suffix_of(
            upper,
        )
}

/// The variable `name` is taken for a secret by its name, and no driver owns it.
pub open spec fn is_marked_secret(name: Seq<char>) -> bool {
    !has_driver_prefix(name) && has_sensitive_suffix(uppercase(name))
}

/// The variable `name` is kept from child processes.
pub open spec fn is_filtered(name: Seq<char>) -> bool {
    is_always_removed(name) || is_marked_secret(name)
}

/// The removal of each of `names`.
pub open spec fn removals(names: Seq<Seq<char>>) -> Seq<EnvEditView> {
    names.map_values(|name: Seq<char>| EnvEditView::Remove { name })
}

/// The changes that keep secrets from a child process, where `inherited` are the names
/// of the variables it would inherit.
pub open spec fn filter_edits(inherited: Seq<Seq<char>>) -> Seq<EnvEditView> {
    removals(always_removed()) + removals(
        inherited.filter(|name: Seq<char>| is_marked_secret(name)),
    )
}

/// Tells whether `name` belongs to a driver.
fn owned_by_driver(name: &str) -> (r: bool)
    ensures
        r == has_driver_prefix(name@),
{
    let mut i: usize = 0;
    while i < DRIVER_PREFIXES.len()
        invariant
            i <= DRIVER_PREFIXES@.len(),
            forall|k: int|
                0 <= k < i ==> !(#[trigger] DRIVER_PREFIXES@[k])@.is_prefix_of(name@),
        decreases DRIVER_PREFIXES@.len() - i,
    {
        if starts_with(name, DRIVER_PREFIXES[i]) {
            assert(DRIVER_PREFIXES@[i as int]@.is_prefix_of(name@));
            return true;
        }
        i += 1;
    }
    false
}

/// Tells whether the variable `name`, whose uppercase form is `upper`, is a secret that
/// no driver owns.
pub fn marks_secret(name: &str, upper: &str) -> (r: bool)
    ensures
        r == (!has_driver_prefix(name@) && has_sensitive_suffix(upper@)),
{
    if owned_by_driver(name) {
        return false;
    }
    let mut i: usize = 0;
    while i < SENSITIVE_SUFFIXES.len()
        invariant
            i <= SENSITIVE_SUFFIXES@.len(),
            !has_driver_prefix(name@),
            forall|k: int|
                0 <= k < i ==> !(#[trigger] SENSITIVE_SUFFIXES@[k])@.is_suffix_of(upper@),
        decreases SENSITIVE_SUFFIXES@.len() - i,
    {
        if ends_with(upper, SENSITIVE_SUFFIXES[i]) {
            assert(SENSITIVE_SUFFIXES@[i as int]@.is_suffix_of(upper@));
            return true;
        }
        i += 1;
    }
    false
}

/// Keeps secrets from the process that `cmd` starts: removes the well-known API keys,
/// and of the variables named `inherited` those that are marked as secrets. Everything
/// else stays as it is.
pub fn apply_env_filter(cmd: &mut Command, inherited: &Vec<String>)
    ensures
        final(cmd)@ == (CommandView {
            env: old(cmd)@.env + filter_edits(texts(inherited@)),
            ..old(cmd)@
        }),
{
    let ghost before = cmd@;
    let ghost fixed = always_removed();
    let mut i: usize = 0;
    while i < SENSITIVE_ENV_EXACT.len()
        invariant
            i <= SENSITIVE_ENV_EXACT@.len(),
            fixed == always_removed(),
            cmd@ == (CommandView { env: before.env + removals(fixed.take(i as int)), ..before }),
        decreases SENSITIVE_ENV_EXACT@.len() - i,
    {
        cmd.remove_env(SENSITIVE_ENV_EXACT[i]);
        proof {
            assert(fixed.take(i + 1) =~= fixed.take(i as int).push(fixed[i as int]));
            assert(before.env + removals(fixed.take(i + 1)) =~= (before.env + removals(
                fixed.take(i as int),
            )).push(EnvEditView::Remove { name: fixed[i as int] }));
        }
        i += 1;
    }
    assert(fixed.take(i as int) =~= fixed);
    let ghost names = texts(inherited@);
    let ghost secret = |name: Seq<char>| is_marked_secret(name);
    let ghost base = before.env + removals(fixed);
    let mut j: usize = 0;
    assert(names.take(0).filter(secret) =~= Seq::<Seq<char>>::empty()) by {
        reveal(Seq::filter);
    }
    assert(base =~= base + removals(names.take(0).filter(secret)));
    while j < inherited.len()
        invariant
            j <= inherited@.len(),
            names == texts(inherited@),
            secret == (|name: Seq<char>| is_marked_secret(name)),
            cmd@ == (CommandView {
                env: base + removals(names.take(j as int).filter(secret)),
                ..before
            }),
        decreases inherited@.len() - j,
    {
        let name = inherited[j].as_str();
        let ghost kept = names.take(j as int).filter(secret);
        proof {
            assert(names.take(j + 1).drop_last() =~= names.take(j as int));
            assert(names.take(j + 1).last() == name@);
            reveal(Seq::filter);
        }
        let upper = to_upper(name);
        if marks_secret(name, upper.as_str()) {
            cmd.remove_env(name);
            assert(base + removals(kept.push(name@)) =~= (base + removals(kept)).push(
                EnvEditView::Remove { name: name@ },
            ));
        }
        j += 1;
    }
    assert(names.take(j as int) =~= names);
    assert(base + removals(names.filter(secret)) =~= before.env + filter_edits(names));
}

/// Removing variables takes exactly these away.
proof fn lemma_child_env_removals(parent: Map<Seq<char>, Seq<char>>, names: Seq<Seq<char>>)
    ensures
        forall|k: Seq<char>|
            #[trigger] child_env(parent, removals(names)).dom().contains(k) <==> (
            parent.dom().contains(k) && !names.contains(k)),
        forall|k: Seq<char>|
            child_env(parent, removals(names)).dom().contains(k) ==> #[trigger] child_env(
                parent,
                removals(names),
            )[k] == parent[k],
    decreases names.len(),
{
    if names.len() > 0 {
        let init = names.drop_last();
        lemma_child_env_removals(parent, init);
        assert(removals(names).drop_last() =~= removals(init));
        assert(removals(names).last() == (EnvEditView::Remove { name: names.last() }));
        assert(child_env(parent, removals(names)) == child_env(parent, removals(init)).remove(
            names.last(),
        ));
        assert forall|k: Seq<char>| names.contains(k) <==> (init.contains(k) || k
            == names.last()) by {
            if names.contains(k) {
                let j = choose|j: int| 0 <= j < names.len() && names[j] == k;
                if j < init.len() {
                    assert(init[j] == k);
                }
            }
            if init.contains(k) {
                let j = choose|j: int| 0 <= j < init.len() && init[j] == k;
                assert(names[j] == k);
            }
            assert(names[names.len() - 1] == names.last());
        }
    }
}

/// Changes that are made one after the other compose.
pub(crate) proof fn lemma_child_env_append(
    parent: Map<Seq<char>, Seq<char>>,
    first: Seq<EnvEditView>,
    second: Seq<EnvEditView>,
)
    ensures
        child_env(parent, first + second) == child_env(child_env(parent, first), second),
    decreases second.len(),
{
    if second.len() == 0 {
        assert(first + second =~= first);
    } else {
        lemma_child_env_append(parent, first, second.drop_last());
        assert((first + second).drop_last() =~= first + second.drop_last());
    }
}

/// What filtering makes of one variable of `parent`, which `inherited` names if it is
/// marked as secret.
pub(crate) proof fn lemma_filter_one(
    parent: Map<Seq<char>, Seq<char>>,
    inherited: Seq<Seq<char>>,
    name: Seq<char>,
)
    requires
        parent.dom().contains(name) && is_marked_secret(name) ==> inherited.contains(name),
    ensures
        child_env(parent, filter_edits(inherited)).dom().contains(name) <==> (
        parent.dom().contains(name) && !is_filtered(name)),
        child_env(parent, filter_edits(inherited)).dom().contains(name) ==> child_env(
            parent,
            filter_edits(inherited),
        )[name] == parent[name],
{
    let secret = |name: Seq<char>| is_marked_secret(name);
    let secrets = inherited.filter(secret);
    let first = child_env(parent, removals(always_removed()));
    lemma_child_env_append(parent, removals(always_removed()), removals(secrets));
    lemma_child_env_removals(parent, always_removed());
    lemma_child_env_removals(first, secrets);
    if parent.dom().contains(name) {
        broadcast use vstd::seq_lib::group_filter_ensures;

        if secrets.contains(name) {
            let j = choose|j: int| 0 <= j < secrets.len() && secrets[j] == name;
            assert(secret(secrets[j]));
        }
        if is_marked_secret(name) {
            let j = choose|j: int| 0 <= j < inherited.len() && inherited[j] == name;
            assert(secret(inherited[j]));
        }
    }
    assert(first.dom().contains(name) ==> first[name] == parent[name]);
}

/// What filtering leaves of `parent`, of which `inherited` names all that is marked as
/// secret.
pub(crate) proof fn lemma_filter(
    parent: Map<Seq<char>, Seq<char>>,
    inherited: Seq<Seq<char>>,
)
    requires
        forall|k: Seq<char>| #[trigger]
            parent.dom().contains(k) && is_marked_secret(k) ==> inherited.contains(k),
    ensures
        forall|k: Seq<char>|
            #[trigger] child_env(parent, filter_edits(inherited)).dom().contains(k) <==> (
            parent.dom().contains(k) && !is_filtered(k)),
        forall|k: Seq<char>|
            child_env(parent, filter_edits(inherited)).dom().contains(k)
                ==> #[trigger] child_env(parent, filter_edits(inherited))[k] == parent[k],
{
    assert forall|k: Seq<char>|
        #[trigger] child_env(parent, filter_edits(inherited)).dom().contains(k) <==> (
        parent.dom().contains(k) && !is_filtered(k)) by {
        lemma_filter_one(parent, inherited, k);
    }
    assert forall|k: Seq<char>| child_env(parent, filter_edits(inherited)).dom().contains(k)
        implies #[trigger] child_env(parent, filter_edits(inherited))[k] == parent[k] by {
        lemma_filter_one(parent, inherited, k);
    }
}

/// A filtered process inherits every variable save those that are filtered, with its
/// value unchanged; so no secret gets through and nothing else is lost.
pub proof fn law_filter_removes_exactly_the_secrets(
    parent: Map<Seq<char>, Seq<char>>,
    inherited: Seq<Seq<char>>,
)
    requires
        forall|k: Seq<char>| #[trigger] parent.dom().contains(k) ==> inherited.contains(k),
    ensures
        forall|k: Seq<char>|
            #[trigger] child_env(parent, filter_edits(inherited)).dom().contains(k) <==> (
            parent.dom().contains(k) && !is_filtered(k)),
        forall|k: Seq<char>|
            child_env(parent, filter_edits(inherited)).dom().contains(k)
                ==> #[trigger] child_env(parent, filter_edits(inherited))[k] == parent[k],
{
    lemma_filter(parent, inherited);
}

/// The well-known API keys never reach a child process, whatever variables are named.
pub proof fn law_api_keys_never_get_through(
    parent: Map<Seq<char>, Seq<char>>,
    inherited: Seq<Seq<char>>,
    name: Seq<char>,
)
    requires
        is_always_removed(name),
    ensures
        !child_env(parent, filter_edits(inherited)).dom().contains(name),
{
    let secrets = inherited.filter(|name: Seq<char>| is_marked_secret(name));
    let first = child_env(parent, removals(always_removed()));
    lemma_child_env_append(parent, removals(always_removed()), removals(secrets));
    lemma_child_env_removals(parent, always_removed());
    lemma_child_env_removals(first, secrets);
}

/// A driver's own variable is kept in spite of its end, unless it is one of the
/// well-known API keys.
pub proof fn law_driver_variables_are_kept(name: Seq<char>)
    requires
        has_driver_prefix(name),
    ensures
        is_filtered(name) <==> is_always_removed(name),
{
}

/// The variables that the drivers set themselves are not filtered.
pub(crate) proof fn lemma_own_variables_pass()
    ensures
        !is_filtered("SYSTEM_PROMPT"@),
        !is_filtered("GEMINI_SYSTEM_PROMPT"@),
        !is_filtered("HOME"@),
        "SYSTEM_PROMPT"@ != "HOME"@,
        "GEMINI_SYSTEM_PROMPT"@ != "HOME"@,
{
    reveal_strlit("SYSTEM_PROMPT");
    reveal_strlit("GEMINI_SYSTEM_PROMPT");
    reveal_strlit("HOME");
    reveal_strlit("_SECRET");
    reveal_strlit("_TOKEN");
    reveal_strlit("_PASSWORD");
    reveal_strlit("GEMINI_");
    reveal_strlit("OPENAI_API_KEY");
    reveal_strlit("ANTHROPIC_API_KEY");
    reveal_strlit("GEMINI_API_KEY");
    reveal_strlit("GOOGLE_API_KEY");
    reveal_strlit("GROQ_API_KEY");
    reveal_strlit("DEEPSEEK_API_KEY");
    reveal_strlit("MISTRAL_API_KEY");
    reveal_strlit("TOGETHER_API_KEY");
    reveal_strlit("FIREWORKS_API_KEY");
    reveal_strlit("OPENROUTER_API_KEY");
    reveal_strlit("PERPLEXITY_API_KEY");
    reveal_strlit("COHERE_API_KEY");
    reveal_strlit("AI21_API_KEY");
    reveal_strlit("CEREBRAS_API_KEY");
    reveal_strlit("SAMBANOVA_API_KEY");
    reveal_strlit("HUGGINGFACE_API_KEY");
    reveal_strlit("XAI_API_KEY");
    reveal_strlit("REPLICATE_API_TOKEN");
    reveal_strlit("BRAVE_API_KEY");
    reveal_strlit("TAVILY_API_KEY");
    reveal_strlit("ELEVENLABS_API_KEY");
    assert forall|i: int| 0 <= i < always_removed().len() implies ({
        let c = #[trigger] always_removed()[i].last();
        c == 'Y' || c == 'N'
    }) by {
        assert(always_removed()[i] == SENSITIVE_ENV_EXACT@[i]@);
    }
    assert forall|upper: Seq<char>|
        upper.len() >= 2 && #[trigger] has_sensitive_suffix(upper) implies (upper.last() == 'T'
        && upper[upper.len() - 2] == 'E') || upper.last() == 'N' || upper.last() == 'D' by {
        let i = choose|i: int|
            0 <= i < SENSITIVE_SUFFIXES@.len()
                && (#[trigger] SENSITIVE_SUFFIXES@[i])@.is_suffix_of(upper);
        let suffix = SENSITIVE_SUFFIXES@[i]@;
        assert(upper.last() == suffix.last());
        assert(upper[upper.len() - 2] == suffix[suffix.len() - 2]);
    }
    assert(uppercase("SYSTEM_PROMPT"@) =~= "SYSTEM_PROMPT"@);
    assert("SYSTEM_PROMPT"@[11] == 'P' && "SYSTEM_PROMPT"@.last() == 'T');
    assert(!has_sensitive_suffix("SYSTEM_PROMPT"@));
    assert(uppercase("HOME"@) =~= "HOME"@);
    assert(DRIVER_PREFIXES@[2]@.is_prefix_of("GEMINI_SYSTEM_PROMPT"@)) by {
        assert("GEMINI_SYSTEM_PROMPT"@.subrange(0, 7) =~= "GEMINI_"@);
    }
}

} // verus!
