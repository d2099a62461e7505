//! Putting together the command that runs a tool.

use vstd::prelude::*;
use vstd::string::*;

use crate::command::{child_env, Command, CommandView, EnvEdit, EnvEditView};
use crate::env_filter::{
    apply_env_filter, filter_edits, is_filtered, is_marked_secret, lemma_child_env_append,
    lemma_filter, lemma_own_variables_pass,
};
use crate::text::{same, text_option, texts};

verus! {

/// The path that is used: the one given, unless it is empty, or else `default`.
pub open spec fn chosen_path(given: Option<Seq<char>>, default: Seq<char>) -> Seq<char> {
    match given {
        Some(path) if path.len() > 0 => path,
        _ => default,
    }
}

/// The arguments that name a model; the tool's own default is not named.
pub open spec fn model_args(model: Seq<char>, default: Seq<char>) -> Seq<Seq<char>> {
    if model.len() > 0 && model != default {
        seq!["--model"@, model]
    } else {
        Seq::empty()
    }
}

/// The arguments that set a temperature through the option `flag`.
pub open spec fn temperature_args(flag: Seq<char>, temperature: Option<Seq<char>>) -> Seq<
    Seq<char>,
> {
    match temperature {
        Some(t) => seq![flag, "temperature="@ + t],
        None => Seq::empty(),
    }
}

/// The assignment of `value` to `name`, if there is a value.
pub open spec fn assignment(name: Seq<char>, value: Option<Seq<char>>) -> Seq<EnvEditView> {
    match value {
        Some(value) => seq![EnvEditView::Assign { name, value }],
        None => Seq::empty(),
    }
}

/// The changes to the environment of a tool: the system prompt is handed over in
/// `system_var`, secrets are removed, and the home directory is set.
pub open spec fn launch_edits(
    system_var: Seq<char>,
    system: Option<Seq<char>>,
    inherited: Seq<Seq<char>>,
    home: Option<Seq<char>>,
) -> Seq<EnvEditView> {
    assignment(system_var, system) + filter_edits(inherited) + assignment("HOME"@, home)
}

/// Picks the path to use.
pub(crate) fn choose_path(given: Option<String>, default: &str) -> (r: String)
    ensures
        r@ == chosen_path(text_option(given), default@),
{
    match given {
        Some(path) => if path.as_str().is_empty() {
            default.to_string()
        } else {
            path
        },
        None => default.to_string(),
    }
}

/// Adds an argument.
pub(crate) fn add_arg(args: &mut Vec<String>, arg: &str)
    ensures
        texts(final(args)@) == texts(old(args)@).push(arg@),
{
    let ghost before = args@;
    args.push(arg.to_string());
    assert(texts(args@) =~= texts(before).push(arg@));
}

/// Adds the arguments that name a model.
pub(crate) fn add_model(args: &mut Vec<String>, model: &str, default: &str)
    ensures
        texts(final(args)@) == texts(old(args)@) + model_args(model@, default@),
{
    let ghost before = texts(args@);
    if !model.is_empty() && !same(model, default) {
        add_arg(args, "--model");
        add_arg(args, model);
    }
    assert(texts(args@) =~= before + model_args(model@, default@));
}

/// Adds the arguments that set a temperature.
pub(crate) fn add_temperature(args: &mut Vec<String>, flag: &str, temperature: &Option<String>)
    ensures
        texts(final(args)@) == texts(old(args)@) + temperature_args(
            flag@,
            text_option(*temperature),
        ),
{
    let ghost before = texts(args@);
    if let Some(t) = temperature {
        add_arg(args, flag);
        add_arg(args, "temperature=".to_string().concat(t.as_str()).as_str());
    }
    assert(texts(args@) =~= before + temperature_args(flag@, text_option(*temperature)));
}

/// Puts a command together.
pub(crate) fn launch_command(
    program: &str,
    args: Vec<String>,
    stdin_piped: bool,
    system_var: &str,
    system: &Option<String>,
    inherited: &Vec<String>,
    home: &Option<String>,
) -> (r: Command)
    ensures
        r@ == (CommandView {
            program: program@,
            args: texts(args@),
            env: launch_edits(
                system_var@,
                text_option(*system),
                texts(inherited@),
                text_option(*home),
            ),
            stdin_piped,
        }),
{
    let ghost arg_texts = texts(args@);
    let edits: Vec<EnvEdit> = Vec::new();
    let mut cmd = Command { program: program.to_string(), args, env: edits, stdin_piped };
    assert(cmd@.env =~= Seq::<EnvEditView>::empty());
    if let Some(prompt) = system {
        cmd.set_env(system_var, prompt.as_str());
    }
    assert(cmd@.env =~= assignment(system_var@, text_option(*system)));
    apply_env_filter(&mut cmd, inherited);
    let ghost so_far = cmd@.env;
    if let Some(dir) = home {
        cmd.set_env("HOME", dir.as_str());
    }
    assert(cmd@.env =~= so_far + assignment("HOME"@, text_option(*home)));
    cmd
}

/// The environment of a tool that was started from `parent`: it has the system prompt in
/// `system_var` and the home directory in `HOME`, where there are such; for the rest it
/// has what `parent` has, save the secrets.
pub open spec fn is_launch_env(
    parent: Map<Seq<char>, Seq<char>>,
    system_var: Seq<char>,
    system: Option<Seq<char>>,
    home: Option<Seq<char>>,
    env: Map<Seq<char>, Seq<char>>,
) -> bool {
    &&& system matches Some(prompt) ==> env.dom().contains(system_var) && env[system_var] == prompt
    &&& home matches Some(dir) ==> env.dom().contains("HOME"@) && env["HOME"@] == dir
    &&& forall|k: Seq<char>|
        !(k == system_var && system is Some) && !(k == "HOME"@ && home is Some) ==> (
        #[trigger] env.dom().contains(k) <==> parent.dom().contains(k) && !is_filtered(k))
    &&& forall|k: Seq<char>|
        !(k == system_var && system is Some) && !(k == "HOME"@ && home is Some)
            && env.dom().contains(k) ==> #[trigger] env[k] == parent[k]
}

proof fn lemma_child_env_assignment(
    parent: Map<Seq<char>, Seq<char>>,
    name: Seq<char>,
    value: Option<Seq<char>>,
)
    ensures
        child_env(parent, assignment(name, value)) == (match value {
            Some(v) => parent.insert(name, v),
            None => parent,
        }),
{
    reveal_with_fuel(child_env, 2);
    if let Some(v) = value {
        assert(assignment(name, value).drop_last() =~= Seq::<EnvEditView>::empty());
    }
}

/// A tool gets its system prompt and the home directory, no secret of its parent, and
/// everything else unchanged.
pub proof fn law_launch_env(
    parent: Map<Seq<char>, Seq<char>>,
    system_var: Seq<char>,
    system: Option<Seq<char>>,
    inherited: Seq<Seq<char>>,
    home: Option<Seq<char>>,
)
    requires
        system_var == "SYSTEM_PROMPT"@ || system_var == "GEMINI_SYSTEM_PROMPT"@,
        forall|k: Seq<char>| #[trigger] parent.dom().contains(k) ==> inherited.contains(k),
    ensures
        is_launch_env(
            parent,
            system_var,
            system,
            home,
            child_env(parent, launch_edits(system_var, system, inherited, home)),
        ),
{
    lemma_own_variables_pass();
    let a = assignment(system_var, system);
    let b = filter_edits(inherited);
    let c = assignment("HOME"@, home);
    let prompted = child_env(parent, a);
    let filtered = child_env(prompted, b);
    lemma_child_env_append(parent, a + b, c);
    lemma_child_env_append(parent, a, b);
    lemma_child_env_assignment(parent, system_var, system);
    lemma_child_env_assignment(filtered, "HOME"@, home);
    assert forall|k: Seq<char>| #[trigger]
        prompted.dom().contains(k) && is_marked_secret(k) implies inherited.contains(k) by {
        assert(parent.dom().contains(k));
    }
    lemma_filter(prompted, inherited);
    if system is Some {
        assert(prompted.dom().contains(system_var));
        assert(filtered.dom().contains(system_var));
        assert(filtered[system_var] == prompted[system_var]);
    }
    assert forall|k: Seq<char>|
        !(k == system_var && system is Some) && !(k == "HOME"@ && home is Some) implies (
    #[trigger] child_env(parent, launch_edits(system_var, system, inherited, home)).dom().contains(
        k,
    ) <==> parent.dom().contains(k) && !is_filtered(k)) by {
        assert(prompted.dom().contains(k) <==> parent.dom().contains(k));
        assert(filtered.dom().contains(k) <==> prompted.dom().contains(k) && !is_filtered(k));
    }
    assert forall|k: Seq<char>|
        !(k == system_var && system is Some) && !(k == "HOME"@ && home is Some) && child_env(
            parent,
            launch_edits(system_var, system, inherited, home),
        ).dom().contains(k) implies #[trigger] child_env(
        parent,
        launch_edits(system_var, system, inherited, home),
    )[k] == parent[k] by {
        assert(filtered.dom().contains(k));
        assert(filtered[k] == prompted[k]);
    }
}

} // verus!
