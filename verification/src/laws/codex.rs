//! Laws on reading what Codex prints.

use vstd::prelude::*;

use crate::codex_cli::{
    codex_error, codex_event, codex_events, codex_line_told, codex_result, codex_text, codex_told,
    is_rollout_noise, kept_line, says_codex_unauthenticated, says_codex_unknown_session,
    without_noise, CODEX_TRANSIENT_RE,
};
use crate::events::{event_type, events_of_lines, lemma_events_of_lines_append};
use crate::json::{json_text, JsonView};
use crate::laws::json::{count_in, first_of, is_kind, str_in, under};
use crate::laws::text::{law_lines_come_one_by_one, lemma_unended_line};
use crate::message::{StreamEventView, TokenUsage};
use crate::pattern::{pattern_found, regex_search};
use crate::stream::ProgressView;
use crate::text::{
    ascii_uppercase, contains_text, lemma_concatenated_append, lemma_concatenated_one,
    lemma_lines_append, lemma_one_line, lemma_one_raw_line, lemma_raw_lines_append,
    lemma_trimmed_push, lines_of, part_at, raw_lines, said_in_turn, trimmed,
};

verus! {

/// What the agent says in an event that completes a message of it.
pub open spec fn agent_says(event: JsonView) -> Option<Seq<char>> {
    if is_kind(event, "item.completed"@) && under(event.get("item"@), "type"@) == Some(
        JsonView::Str("agent_message"@),
    ) {
        str_in(under(event.get("item"@), "text"@))
    } else {
        None
    }
}

/// What an event complains of.
pub open spec fn complaint(event: JsonView) -> Option<Seq<char>> {
    if is_kind(event, "error"@) || is_kind(event, "turn.failed"@) {
        str_in(under(event.get("error"@), "message"@))
    } else {
        None
    }
}

/// A count after an event that may report another.
pub open spec fn recounted(n: u64, event: JsonView, key: Seq<char>) -> u64 {
    let reported = count_in(under(event.get("usage"@), key));
    if is_kind(event, "turn.completed"@) && reported is Some {
        reported->0
    } else {
        n
    }
}

proof fn lemma_kind_words(event: JsonView)
    ensures
        is_kind(event, "item.completed"@) ==> !is_kind(event, "turn.completed"@) && !is_kind(
            event,
            "error"@,
        ) && !is_kind(event, "turn.failed"@),
        is_kind(event, "error"@) || is_kind(event, "turn.failed"@) ==> !is_kind(
            event,
            "turn.completed"@,
        ),
{
    reveal_strlit("item.completed");
    reveal_strlit("turn.completed");
    reveal_strlit("error");
    reveal_strlit("turn.failed");
    assert("item.completed"@[0] != "turn.completed"@[0]);
    assert("item.completed"@.len() != "error"@.len());
    assert("item.completed"@.len() != "turn.failed"@.len());
    assert("turn.completed"@.len() != "error"@.len());
    assert("turn.completed"@.len() != "turn.failed"@.len());
}

proof fn lemma_kind_is(event: JsonView, kind: Seq<char>)
    requires
        kind.len() > 0,
    ensures
        event_type(event) == kind <==> is_kind(event, kind),
{
}

/// What the agent says and what it complains of is what the events are read for.
proof fn lemma_said(event: JsonView)
    ensures
        codex_text(event) == agent_says(event),
        codex_error(event) == complaint(event),
{
    reveal_strlit("item.completed");
    reveal_strlit("error");
    reveal_strlit("turn.failed");
    reveal_strlit("agent_message");
    lemma_kind_is(event, "item.completed"@);
    lemma_kind_is(event, "error"@);
    lemma_kind_is(event, "turn.failed"@);
    if let Some(item) = event.get("item"@) {
        lemma_kind_is(item, "agent_message"@);
        assert(event_type(item) == item.text_at("type"@));
    }
}

/// Each further event of a run adds to what the events before it say, and changes none of
/// it but the counts: a session, a message of the agent or a complaint counts if there was
/// none before, and a reported count takes the place of the one before.
pub proof fn law_codex_one_more_event(events: Seq<JsonView>, event: JsonView)
    ensures
        ({
            let before = codex_result(events);
            let after = codex_result(events.push(event));
            &&& after.session_id == first_of(
                before.session_id,
                if is_kind(event, "thread.started"@) {
                    str_in(event.get("thread_id"@))
                } else {
                    None
                },
            )
            &&& after.final_text == first_of(before.final_text, agent_says(event))
            &&& after.error_message == first_of(before.error_message, complaint(event))
            &&& after.usage.input_tokens == recounted(
                before.usage.input_tokens,
                event,
                "input_tokens"@,
            )
            &&& after.usage.output_tokens == recounted(
                before.usage.output_tokens,
                event,
                "output_tokens"@,
            )
        }),
        codex_result(Seq::empty()).session_id is None,
        codex_result(Seq::empty()).final_text is None,
        codex_result(Seq::empty()).error_message is None,
        codex_result(Seq::empty()).usage == (TokenUsage { input_tokens: 0, output_tokens: 0 }),
{
    reveal_strlit("thread.started");
    reveal_strlit("turn.completed");
    lemma_kind_is(event, "thread.started"@);
    lemma_kind_is(event, "turn.completed"@);
    lemma_said(event);
    assert(events.push(event).drop_last() =~= events);
    assert(events.push(event).last() == event);
}

/// The event that a line stands for: the JSON value that it is, unless it is noise.
pub open spec fn line_says(line: Seq<char>) -> Seq<JsonView> {
    let text = trimmed(line);
    if text.len() > 0 && !is_noise(text) && json_text(text) is Some {
        seq![json_text(text)->0]
    } else {
        Seq::empty()
    }
}

/// A line that tells of a missing rollout path.
pub open spec fn is_noise(line: Seq<char>) -> bool {
    regex_search(
        r"^\d{4}-\d{2}-\d{2}T[^\s]+\s+ERROR\s+codex_core::rollout::list:\s+state db missing rollout path for thread\s+[a-z0-9-]+$"@,
        line,
    ) == Some(true)
}

proof fn lemma_one_line_says(line: Seq<char>)
    ensures
        events_of_lines(seq![line], |l: Seq<char>| codex_event(l)) == line_says(line),
{
    reveal_with_fuel(events_of_lines, 2);
    assert(seq![line].drop_last() =~= Seq::<Seq<char>>::empty());
    assert(events_of_lines(seq![line], |l: Seq<char>| codex_event(l)) =~= line_says(line));
}

/// An output is read line by line: the events of two stretches of lines follow one another,
/// and one line gives the JSON value that it is, or nothing if it is blank, noise or no
/// JSON.
pub proof fn law_codex_reads_line_by_line(first: Seq<char>, line: Seq<char>, second: Seq<char>)
    requires
        first.len() == 0 || first.last() == '\n',
        !line.contains('\n'),
    ensures
        codex_events(first + second) == codex_events(first) + codex_events(second),
        codex_events(line) == line_says(line),
        codex_events(line.push('\n')) == line_says(line),
{
    let read = |l: Seq<char>| codex_event(l);
    lemma_lines_append(first, second);
    lemma_events_of_lines_append(lines_of(first), lines_of(second), read);
    law_lines_come_one_by_one(line, Seq::empty());
    if line.len() > 0 {
        lemma_one_line_says(line);
    } else {
        assert(line =~= Seq::<char>::empty());
        assert(codex_events(line) =~= line_says(line));
    }
    lemma_one_line(line);
    if line.len() > 0 && line.last() == '\r' {
        assert(line =~= line.drop_last().push('\r'));
        lemma_trimmed_push(line.drop_last(), '\r');
        lemma_one_line_says(line.drop_last());
    } else {
        lemma_one_line_says(line);
    }
}

/// While a response streams, each event adds to it, and has the listener told, what it
/// says itself, whatever came before: a message of the agent is added and told; a complaint
/// is told; counts are kept; everything else goes by.
pub proof fn law_codex_streams_each_event(progress: ProgressView, event: JsonView)
    ensures
        ({
            let told = codex_told(progress, event);
            &&& agent_says(event) matches Some(text) ==> {
                &&& told.progress == (ProgressView {
                    full_text: progress.full_text + text,
                    usage: progress.usage,
                })
                &&& told.events == seq![StreamEventView::TextDelta { text }]
            }
            &&& complaint(event) matches Some(message) ==> {
                &&& told.progress == progress
                &&& told.events == seq![
                    StreamEventView::ToolExecutionResult {
                        id: Seq::empty(),
                        name: "codex"@,
                        result_preview: message,
                        is_error: true,
                    },
                ]
            }
            &&& agent_says(event) is None && complaint(event) is None ==> {
                &&& told.progress == (ProgressView {
                    full_text: progress.full_text,
                    usage: TokenUsage {
                        input_tokens: recounted(
                            progress.usage.input_tokens,
                            event,
                            "input_tokens"@,
                        ),
                        output_tokens: recounted(
                            progress.usage.output_tokens,
                            event,
                            "output_tokens"@,
                        ),
                    },
                })
                &&& told.events == Seq::<StreamEventView>::empty()
            }
        }),
{
    reveal_strlit("turn.completed");
    lemma_kind_words(event);
    lemma_kind_is(event, "turn.completed"@);
    lemma_said(event);
}

/// While a response streams, a line that is JSON counts as the event that it is, a line
/// that is not counts as text, letter for letter, and blank lines and noise go by.
pub proof fn law_codex_streams_each_line(progress: ProgressView, line: Seq<char>)
    ensures
        ({
            let told = codex_line_told(progress, line);
            let heard = trimmed(line).len() > 0 && !is_noise(line);
            &&& !heard ==> told.progress == progress && told.events == Seq::<
                StreamEventView,
            >::empty()
            &&& heard && json_text(line) is Some ==> told == codex_told(
                progress,
                json_text(line)->0,
            )
            &&& heard && json_text(line) is None ==> told.progress == (ProgressView {
                full_text: progress.full_text + line,
                usage: progress.usage,
            }) && told.events == seq![StreamEventView::TextDelta { text: line }]
        }),
{
}

/// Noise is taken out line by line: what is left of two stretches of lines is what is left
/// of each, and of one line nothing is left if it is noise, and all of it if it is not.
pub proof fn law_codex_noise_is_taken_out(first: Seq<char>, line: Seq<char>, second: Seq<char>)
    requires
        first.len() == 0 || first.last() == '\n',
        !line.contains('\n'),
    ensures
        without_noise(first + second) == without_noise(first) + without_noise(second),
        is_noise(trimmed(line)) ==> without_noise(line) == Seq::<char>::empty(),
        is_noise(trimmed(line)) ==> without_noise(line.push('\n')) == Seq::<char>::empty(),
        !is_noise(trimmed(line)) ==> without_noise(line) == line,
        !is_noise(trimmed(line)) ==> without_noise(line.push('\n')) == line.push('\n'),
{
    let keep = |l: Seq<char>| kept_line(l, is_rollout_noise(trimmed(l)));
    lemma_raw_lines_append(first, second);
    let a = raw_lines(first).map_values(keep);
    let b = raw_lines(second).map_values(keep);
    assert(raw_lines(first + second).map_values(keep) =~= a + b);
    lemma_concatenated_append(a, b);
    lemma_one_raw_line(line);
    lemma_trimmed_push(line, '\n');
    let ended = line.push('\n');
    assert(raw_lines(ended).map_values(keep) =~= seq![keep(ended)]);
    lemma_concatenated_one(keep(ended));
    law_lines_come_one_by_one(line, Seq::empty());
    assert(line.skip(0) =~= line);
    lemma_unended_line(line, line);
    if line.len() > 0 {
        assert(raw_lines(line) =~= seq![line]);
        assert(raw_lines(line).map_values(keep) =~= seq![keep(line)]);
        lemma_concatenated_one(keep(line));
    } else {
        assert(raw_lines(line).map_values(keep) =~= Seq::<Seq<char>>::empty());
        assert(without_noise(line) =~= line);
    }
}

/// Trying again may help exactly when the pattern for that is found; a pattern is found
/// only if it is one and matches.
pub proof fn law_codex_passing_troubles(pattern: Seq<char>, detail: Seq<char>)
    ensures
        CODEX_TRANSIENT_RE@
            == r"(?i)high demand|temporary errors|rate.limit|too many requests|429|server overloaded"@,
        pattern_found(pattern, detail) <==> regex_search(pattern, detail) == Some(true),
{
}

/// Codex complains about missing authentication exactly when it speaks of `auth`, of
/// `login` or of `credentials`, and about an unknown session exactly when the pattern for
/// that is found or it says of a session that it has expired.
pub proof fn law_codex_complaints(detail: Seq<char>)
    ensures
        says_codex_unauthenticated(detail) <==> contains_text(detail, "auth"@) || contains_text(
            detail,
            "login"@,
        ) || contains_text(detail, "credentials"@),
        says_codex_unknown_session(detail) <==> regex_search(
            r"(?i)unknown (session|thread)|session .* not found|thread .* not found|conversation .* not found|missing rollout path|no rollout found for thread id"@,
            detail,
        ) == Some(true) || said_in_turn(ascii_uppercase(detail), "SESSION"@, "EXPIRED"@)
            || contains_text(ascii_uppercase(detail), "EXPIRED SESSION"@),
{
    if contains_text(detail, "not authenticated"@) {
        reveal_strlit("not authenticated");
        reveal_strlit("auth");
        let i = choose|i: int| #[trigger] part_at(detail, "not authenticated"@, i);
        let found = detail.subrange(i, i + 17);
        assert(found.subrange(4, 8) =~= "auth"@);
        assert(detail.subrange(i + 4, i + 8) =~= found.subrange(4, 8));
        assert(part_at(detail, "auth"@, i + 4));
    }
}

} // verus!
