//! Laws on the replies that the drivers give.

use vstd::prelude::*;
use vstd::utf8::{decode_utf8, valid_utf8};

use crate::backend::{
    completion_reply, completion_timeout, completion_wait_failure, launch_failure, no_stdout,
    probed_version, stream_failure, stream_timeout, stream_wait_failure, Backend, VersionProbe,
};
use crate::codex_cli::{
    codex_events, codex_result, says_codex_unauthenticated, says_codex_unknown_session,
    without_noise,
};
use crate::gemini_cli::{
    gemini_events, gemini_result, says_gemini_unauthenticated, says_gemini_unknown_session,
};
use crate::message::{ErrorView, ReplyView, ResponseView, StopReason, TokenUsage};
use crate::text::{decimal, decimal_signed, output_text, trimmed};

verus! {

/// What a tool is called, and what it is run as.
pub open spec fn called(backend: Backend) -> (Seq<char>, Seq<char>) {
    match backend {
        Backend::Codex => ("Codex"@, "codex"@),
        Backend::Gemini => ("Gemini"@, "gemini"@),
    }
}

/// A response says one text and ends the turn.
pub open spec fn says(reply: ReplyView, text: Seq<char>, usage: TokenUsage) -> bool {
    reply matches Ok(response) && response == (ResponseView {
        content: seq![text],
        stop_reason: StopReason::EndTurn,
        usage,
    })
}

/// A successful run of Codex is answered with the first error that its output reports, or
/// else with the first message of the agent, or else with the whole output, trimmed; with
/// the counts of the output in either of the latter.
pub proof fn law_codex_answers(code: Option<i32>, stdout: Seq<u8>, stderr: Seq<u8>)
    ensures
        ({
            let reply = completion_reply(Backend::Codex, true, code, stdout, stderr);
            let text = output_text(stdout);
            let read = codex_result(codex_events(text));
            &&& read.error_message matches Some(message) ==> reply == ReplyView::Err(
                ErrorView::Api { status: 0, message },
            )
            &&& read.error_message is None && read.final_text is Some ==> says(
                reply,
                read.final_text->0,
                read.usage,
            )
            &&& read.error_message is None && read.final_text is None ==> says(
                reply,
                trimmed(text),
                read.usage,
            )
        }),
{
}

/// A successful run of Gemini is answered with the first error that its output reports, or
/// else with the text of its events, or else with the whole output, trimmed; with the
/// counts of the output in either of the latter.
pub proof fn law_gemini_answers(code: Option<i32>, stdout: Seq<u8>, stderr: Seq<u8>)
    ensures
        ({
            let reply = completion_reply(Backend::Gemini, true, code, stdout, stderr);
            let text = output_text(stdout);
            let read = gemini_result(gemini_events(text));
            &&& read.error_message matches Some(message) ==> reply == ReplyView::Err(
                ErrorView::Api { status: 0, message },
            )
            &&& read.error_message is None && read.final_text is Some ==> says(
                reply,
                read.final_text->0,
                read.usage,
            )
            &&& read.error_message is None && read.final_text is None ==> says(
                reply,
                trimmed(text),
                read.usage,
            )
        }),
{
}

/// What a tool says when it fails: its error output, trimmed, and only where that is blank
/// its output; for Codex without noise.
pub open spec fn last_words(backend: Backend, stdout: Seq<u8>, stderr: Seq<u8>) -> Seq<char> {
    let (out, err) = match backend {
        Backend::Codex => (
            trimmed(without_noise(output_text(stdout))),
            trimmed(without_noise(output_text(stderr))),
        ),
        Backend::Gemini => (trimmed(output_text(stdout)), trimmed(output_text(stderr))),
    };
    if err.len() > 0 {
        err
    } else {
        out
    }
}

/// A failed run is answered with an error that says what the tool said, and why that is:
/// that it is not authenticated, or else that a session is not there, or else with which
/// code it ended. The status is that code, as far as it fits; a run without a code counts
/// as ended with 1.
pub proof fn law_failures_are_told(
    backend: Backend,
    code: Option<i32>,
    stdout: Seq<u8>,
    stderr: Seq<u8>,
)
    ensures
        ({
            let detail = last_words(backend, stdout, stderr);
            let ended: i32 = if code is Some {
                code->0
            } else {
                1
            };
            let (unauthenticated, lost) = match backend {
                Backend::Codex => (
                    says_codex_unauthenticated(detail),
                    says_codex_unknown_session(detail),
                ),
                Backend::Gemini => (
                    says_gemini_unauthenticated(detail),
                    says_gemini_unknown_session(detail),
                ),
            };
            let (name, program) = called(backend);
            &&& completion_reply(backend, false, code, stdout, stderr) matches Err(
                ErrorView::Api { status, message },
            )
            &&& (ended as int - status as int) % 0x1_0000 == 0
            &&& unauthenticated ==> message == name + " CLI is not authenticated. Run: "@ + program
                + " auth\nDetail: "@ + detail
            &&& !unauthenticated && lost ==> message == name + " session not found or expired: "@
                + detail
            &&& !unauthenticated && !lost ==> message == name + " CLI exited with code "@
                + decimal_signed(ended as int) + ": "@ + detail
        }),
{
}

/// A failed stream is answered with the code that the tool ended with.
pub proof fn law_stream_failures_are_told(backend: Backend, code: Option<i32>)
    ensures
        ({
            let ended: i32 = if code is Some {
                code->0
            } else {
                1
            };
            &&& stream_failure(backend, code) matches ErrorView::Api { status, message }
            &&& (ended as int - status as int) % 0x1_0000 == 0
            &&& message == called(backend).0 + " CLI streaming exited with code "@
                + decimal_signed(ended as int)
        }),
{
}

/// A tool that cannot be run to its end is answered with its name, what went wrong, and
/// how to get it or how long it was given.
pub proof fn law_mishaps_are_told(backend: Backend, reason: Seq<char>, secs: u64)
    ensures
        ({
            let (name, program) = called(backend);
            &&& launch_failure(backend, reason) == ErrorView::Http(
                name + " CLI not found or failed to start ("@ + reason + "). Install: "@ + (
                match backend {
                    Backend::Codex => "npm install -g @openai/codex && codex auth"@,
                    Backend::Gemini => "pip install google-gemini && gemini auth"@,
                }),
            )
            &&& completion_timeout(backend, secs) == ErrorView::Http(
                name + " CLI subprocess timed out after "@ + decimal(secs as nat)
                    + "s — process killed"@,
            )
            &&& stream_timeout(backend, secs) == ErrorView::Http(
                name + " CLI streaming subprocess timed out after "@ + decimal(secs as nat)
                    + "s — process killed"@,
            )
            &&& completion_wait_failure(backend, reason) == ErrorView::Http(
                name + " CLI subprocess failed: "@ + reason,
            )
            &&& stream_wait_failure(backend, reason) == ErrorView::Http(
                name + " CLI wait failed: "@ + reason,
            )
            &&& no_stdout(backend) == ErrorView::Http("No stdout from "@ + program + " CLI"@)
        }),
{
}

/// A tool is there exactly when it could be run and succeeded, and its version is what it
/// printed, trimmed.
pub proof fn law_versions(probe: VersionProbe)
    ensures
        probed_version(None) is None,
        !probe.success ==> probed_version(Some(probe)) is None,
        probe.success ==> probed_version(Some(probe)) == Some(trimmed(output_text(probe.stdout@))),
{
}

/// Output that is valid UTF-8 is read as what it encodes.
pub proof fn law_valid_output_is_decoded(bytes: Seq<u8>)
    requires
        valid_utf8(bytes),
    ensures
        output_text(bytes) == decode_utf8(bytes),
{
}

} // verus!
