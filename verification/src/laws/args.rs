//! Laws on the commands that run the tools.

use vstd::prelude::*;

use crate::codex_cli::{codex_args, codex_command, law_codex_exec_args};
use crate::gemini_cli::{gemini_args, gemini_command};
use crate::launch::chosen_path;
use crate::message::RequestView;
use crate::prompt::prompt_of;
use crate::text::{lemma_without_prefix, without_prefix};

verus! {

/// `model` is what `asked`, a model with or without its provider in front, means.
pub open spec fn means_model(asked: Seq<char>, provider: Seq<char>, model: Seq<char>) -> bool {
    asked == provider + model || (asked == model && !provider.is_prefix_of(asked))
}

/// The arguments that hand over a temperature behind `flag`, and nothing where there is
/// none.
pub open spec fn tempered(flag: Seq<char>, temperature: Option<Seq<char>>) -> Seq<Seq<char>> {
    if temperature is Some {
        seq![flag, "temperature="@ + temperature->0]
    } else {
        Seq::empty()
    }
}

/// Codex is asked for every model by its whole name, save its default, which goes without
/// saying; then comes the temperature, if there is one, and last the mark for the standard
/// input.
pub proof fn law_codex_is_asked_for_the_model(request: RequestView, model: Seq<char>)
    requires
        means_model(request.model, "codex-local/"@, model),
    ensures
        model.len() > 0 && model != "gpt-5.3-codex"@ ==> codex_args(request) == seq![
            "exec"@,
            "--json"@,
            "--model"@,
            model,
        ] + tempered("-c"@, request.temperature) + seq!["-"@],
        model.len() == 0 || model == "gpt-5.3-codex"@ ==> codex_args(request) == seq![
            "exec"@,
            "--json"@,
        ] + tempered("-c"@, request.temperature) + seq!["-"@],
{
    lemma_without_prefix("codex-local/"@, model);
    assert(without_prefix(request.model, "codex-local/"@) == model);
    if model.len() > 0 && model != "gpt-5.3-codex"@ {
        assert(codex_args(request) =~= seq!["exec"@, "--json"@, "--model"@, model] + tempered(
            "-c"@,
            request.temperature,
        ) + seq!["-"@]);
    } else {
        assert(codex_args(request) =~= seq!["exec"@, "--json"@] + tempered(
            "-c"@,
            request.temperature,
        ) + seq!["-"@]);
    }
}

/// Requests for two models that are neither the same nor the default never get the same
/// arguments from Codex.
pub proof fn law_codex_tells_models_apart(
    one: RequestView,
    other: RequestView,
    model: Seq<char>,
    another: Seq<char>,
)
    requires
        means_model(one.model, "codex-local/"@, model),
        means_model(other.model, "codex-local/"@, another),
        model.len() > 0 && model != "gpt-5.3-codex"@,
        another.len() > 0 && another != "gpt-5.3-codex"@,
        model != another,
    ensures
        codex_args(one) != codex_args(other),
{
    law_codex_is_asked_for_the_model(one, model);
    law_codex_is_asked_for_the_model(other, another);
    assert(codex_args(one)[3] == model);
    assert(codex_args(other)[3] == another);
}

/// The command for Codex runs the given program and writes to it; its arguments are those
/// of the request, with the one that skips approvals in front of the last if these are to
/// be skipped.
pub proof fn law_codex_command(
    program: Seq<char>,
    skip_permissions: bool,
    request: RequestView,
    inherited: Seq<Seq<char>>,
    home: Option<Seq<char>>,
)
    ensures
        ({
            let command = codex_command(program, skip_permissions, request, inherited, home);
            let args = codex_args(request);
            &&& command.program == program
            &&& command.stdin_piped
            &&& !skip_permissions ==> command.args == args
            &&& skip_permissions ==> command.args == args.insert(
                args.len() - 1,
                "--dangerously-bypass-approvals-and-sandbox"@,
            )
        }),
{
    let args = codex_args(request);
    law_codex_exec_args(request, skip_permissions);
    assert(args.last() == "-"@);
    assert(args.insert(args.len() - 1, "--dangerously-bypass-approvals-and-sandbox"@)
        =~= args.drop_last() + seq!["--dangerously-bypass-approvals-and-sandbox"@, "-"@]);
}

/// Gemini is asked for every model by its whole name, save its default, which goes without
/// saying; then it is told to skip approvals if these are to be skipped, to run without a
/// sandbox, the temperature if there is one, and last the prompt.
pub proof fn law_gemini_is_asked_for_the_model(
    request: RequestView,
    model: Seq<char>,
    prompt: Seq<char>,
    skip_permissions: bool,
)
    requires
        means_model(request.model, "gemini-local/"@, model),
    ensures
        ({
            let args = gemini_args(request, prompt, skip_permissions);
            let end = seq!["--sandbox=none"@] + tempered("--config"@, request.temperature) + seq![
                "--prompt"@,
                prompt,
            ];
            let rest = if skip_permissions {
                seq!["--approval-mode"@, "yolo"@] + end
            } else {
                end
            };
            &&& model.len() > 0 && model != "auto"@ ==> args == seq![
                "--output-format"@,
                "stream-json"@,
                "--model"@,
                model,
            ] + rest
            &&& model.len() == 0 || model == "auto"@ ==> args == seq![
                "--output-format"@,
                "stream-json"@,
            ] + rest
        }),
{
    lemma_without_prefix("gemini-local/"@, model);
    assert(without_prefix(request.model, "gemini-local/"@) == model);
    let args = gemini_args(request, prompt, skip_permissions);
    let end = seq!["--sandbox=none"@] + tempered("--config"@, request.temperature) + seq![
        "--prompt"@,
        prompt,
    ];
    let rest = if skip_permissions {
        seq!["--approval-mode"@, "yolo"@] + end
    } else {
        end
    };
    if model.len() > 0 && model != "auto"@ {
        assert(args =~= seq!["--output-format"@, "stream-json"@, "--model"@, model] + rest);
    } else {
        assert(args =~= seq!["--output-format"@, "stream-json"@] + rest);
    }
}

/// Requests for two models that are neither the same nor the default never get the same
/// arguments from Gemini, and neither do two prompts.
pub proof fn law_gemini_tells_requests_apart(
    one: RequestView,
    other: RequestView,
    model: Seq<char>,
    another: Seq<char>,
    prompt: Seq<char>,
    another_prompt: Seq<char>,
    skip_permissions: bool,
)
    requires
        means_model(one.model, "gemini-local/"@, model),
        means_model(other.model, "gemini-local/"@, another),
    ensures
        model.len() > 0 && model != "auto"@ && another.len() > 0 && another != "auto"@ && model
            != another ==> gemini_args(one, prompt, skip_permissions) != gemini_args(
            other,
            another_prompt,
            skip_permissions,
        ),
        prompt != another_prompt ==> gemini_args(one, prompt, skip_permissions) != gemini_args(
            other,
            another_prompt,
            skip_permissions,
        ),
{
    let a = gemini_args(one, prompt, skip_permissions);
    let b = gemini_args(other, another_prompt, skip_permissions);
    law_gemini_is_asked_for_the_model(one, model, prompt, skip_permissions);
    law_gemini_is_asked_for_the_model(other, another, another_prompt, skip_permissions);
    assert(a.last() == prompt);
    assert(b.last() == another_prompt);
    if model.len() > 0 && model != "auto"@ && another.len() > 0 && another != "auto"@ && model
        != another {
        assert(a[3] == model);
        assert(b[3] == another);
    }
}

/// The command for Gemini runs the given program with the prompt of the conversation, and
/// does not write to it.
pub proof fn law_gemini_command(
    program: Seq<char>,
    skip_permissions: bool,
    request: RequestView,
    inherited: Seq<Seq<char>>,
    home: Option<Seq<char>>,
)
    ensures
        ({
            let command = gemini_command(program, skip_permissions, request, inherited, home);
            &&& command.program == program
            &&& !command.stdin_piped
            &&& command.args == gemini_args(
                request,
                prompt_of(request.messages),
                skip_permissions,
            )
        }),
{
}

/// A path that is given and not empty is used as it is; otherwise the tool's own name is.
pub proof fn law_given_path_is_used(path: Seq<char>, default: Seq<char>)
    ensures
        path.len() > 0 ==> chosen_path(Some(path), default) == path,
        path.len() == 0 ==> chosen_path(Some(path), default) == default,
        chosen_path(None, default) == default,
{
}

} // verus!
