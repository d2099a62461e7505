//! Laws on reading what Gemini prints.

use vstd::prelude::*;

use crate::events::{event_type, events_of_lines, lemma_events_of_lines_append};
use crate::gemini_cli::{
    block_chunks, block_line, block_lines, gemini_event, gemini_events, gemini_line_told,
    gemini_result, gemini_text, gemini_texts, gemini_told, law_gemini_event_tells_what_it_adds,
    message_blocks, says_gemini_unauthenticated, says_gemini_unknown_session,
};
use crate::json::{json_text, JsonView};
use crate::laws::json::{count_in, first_of, is_kind, number_in, str_in, under};
use crate::laws::text::law_lines_come_one_by_one;
use crate::message::{StreamEventView, TokenUsage};
use crate::pattern::regex_search;
use crate::stream::{delta_text, ProgressView};
use crate::text::{
    ascii_uppercase, concatenated, contains_text, lemma_concatenated_append, lemma_concatenated_one,
    lemma_lines_append, lemma_one_line, lemma_trimmed_push, lines_of, said_in_turn, trimmed,
};

verus! {

/// The text of a member, trimmed; nothing where there is no such string.
pub open spec fn trimmed_at(v: JsonView, key: Seq<char>) -> Seq<char> {
    if str_in(v.get(key)) is Some {
        trimmed(str_in(v.get(key))->0)
    } else {
        Seq::empty()
    }
}

/// The text of a member; nothing where there is no such string.
pub open spec fn plain_at(v: JsonView, key: Seq<char>) -> Seq<char> {
    if str_in(v.get(key)) is Some {
        str_in(v.get(key))->0
    } else {
        Seq::empty()
    }
}

/// A message of the assistant in these blocks.
pub open spec fn assistant_in_blocks(event: JsonView, blocks: Seq<JsonView>) -> bool {
    is_kind(event, "assistant"@) && under(event.get("message"@), "content"@) == Some(
        JsonView::Array(blocks),
    )
}

/// A block that says something in writing.
pub open spec fn is_written(block: JsonView) -> bool {
    is_kind(block, "text"@) || is_kind(block, "content"@)
}

proof fn lemma_kind_is(event: JsonView, kind: Seq<char>)
    requires
        kind.len() > 0,
    ensures
        event_type(event) == kind <==> is_kind(event, kind),
{
}

/// The kinds of events have different names.
proof fn lemma_kinds(event: JsonView)
    ensures
        event_type(event) == "assistant"@ <==> is_kind(event, "assistant"@),
        event_type(event) == "text"@ <==> is_kind(event, "text"@),
        event_type(event) == "content"@ <==> is_kind(event, "content"@),
        event_type(event) == "result"@ <==> is_kind(event, "result"@),
        event_type(event) == "step_finish"@ <==> is_kind(event, "step_finish"@),
        event_type(event) == "done"@ <==> is_kind(event, "done"@),
        event_type(event) == "complete"@ <==> is_kind(event, "complete"@),
        event_type(event) == "error"@ <==> is_kind(event, "error"@),
        "assistant"@.len() == 9,
        "text"@.len() == 4 && "text"@[0] == 't',
        "content"@.len() == 7,
        "result"@.len() == 6,
        "step_finish"@.len() == 11,
        "done"@.len() == 4 && "done"@[0] == 'd',
        "complete"@.len() == 8,
        "error"@.len() == 5,
{
    reveal_strlit("assistant");
    reveal_strlit("text");
    reveal_strlit("content");
    reveal_strlit("result");
    reveal_strlit("step_finish");
    reveal_strlit("done");
    reveal_strlit("complete");
    reveal_strlit("error");
    lemma_kind_is(event, "assistant"@);
    lemma_kind_is(event, "text"@);
    lemma_kind_is(event, "content"@);
    lemma_kind_is(event, "result"@);
    lemma_kind_is(event, "step_finish"@);
    lemma_kind_is(event, "done"@);
    lemma_kind_is(event, "complete"@);
    lemma_kind_is(event, "error"@);
}

/// An event of a kind that only closes something.
pub open spec fn is_closing(event: JsonView) -> bool {
    is_kind(event, "step_finish"@) || is_kind(event, "done"@) || is_kind(event, "complete"@)
}

/// Text is collected from all events, in their order, and none takes away what another
/// said: what two stretches of events say is what the first says, followed by what the
/// second says. The response is that, trimmed, if anything is left.
pub proof fn law_gemini_text_is_collected(a: Seq<JsonView>, b: Seq<JsonView>)
    ensures
        gemini_texts(a + b) == gemini_texts(a) + gemini_texts(b),
        gemini_texts(Seq::empty()) == Seq::<char>::empty(),
        ({
            let said = trimmed(gemini_texts(a) + gemini_texts(b));
            &&& said.len() > 0 ==> gemini_result(a + b).final_text == Some(said)
            &&& said.len() == 0 ==> gemini_result(a + b).final_text is None
        }),
{
    let says = |e: JsonView| gemini_text(e);
    assert((a + b).map_values(says) =~= a.map_values(says) + b.map_values(says));
    lemma_concatenated_append(a.map_values(says), b.map_values(says));
    assert(Seq::<JsonView>::empty().map_values(says) =~= Seq::<Seq<char>>::empty());
}

proof fn lemma_one_text(event: JsonView)
    ensures
        gemini_texts(seq![event]) == gemini_text(event),
{
    assert(seq![event].map_values(|e: JsonView| gemini_text(e)) =~= seq![gemini_text(event)]);
    lemma_concatenated_one(gemini_text(event));
}

/// What one event says, trimmed: of a text its part or, without one, its content; of a
/// result its result; nothing of a closing event or an error; of a message of the assistant
/// without blocks, and of anything else, its content.
pub proof fn law_gemini_text_of_an_event(event: JsonView)
    ensures
        ({
            let said = gemini_texts(seq![event]);
            &&& is_kind(event, "text"@) && event.get("part"@) is Some ==> said == trimmed_at(
                event.get("part"@)->0,
                "text"@,
            )
            &&& is_kind(event, "text"@) && event.get("part"@) is None ==> said == trimmed_at(
                event,
                "content"@,
            )
            &&& is_kind(event, "result"@) ==> said == trimmed_at(event, "result"@)
            &&& is_closing(event) || is_kind(event, "error"@) ==> said == Seq::<char>::empty()
            &&& is_kind(event, "assistant"@) && !(under(event.get("message"@), "content"@) matches Some(
                JsonView::Array(_),
            )) ==> said == trimmed_at(event, "content"@)
            &&& !is_kind(event, "text"@) && !is_kind(event, "result"@) && !is_closing(event)
                && !is_kind(event, "error"@) && !is_kind(event, "assistant"@) ==> said
                == trimmed_at(event, "content"@)
        }),
{
    lemma_one_text(event);
    lemma_kinds(event);
    assert(trimmed(Seq::empty()) == Seq::<char>::empty());
    let none = Seq::<JsonView>::empty();
    assert(none.map_values(|b: JsonView| block_line(b)) =~= Seq::<Seq<char>>::empty());
    assert(block_lines(none) =~= Seq::<char>::empty());
    if is_kind(event, "assistant"@) && !(under(event.get("message"@), "content"@) matches Some(
        JsonView::Array(_),
    )) {
        assert(message_blocks(event) =~= none);
        assert(gemini_text(event) =~= trimmed_at(event, "content"@));
    }
}

/// What a message of the assistant says: one more block adds its text, trimmed, on a line
/// of its own, behind what the blocks before it say, if it is written and not blank; the
/// content of the event comes behind all blocks.
pub proof fn law_gemini_text_of_blocks(
    event: JsonView,
    shorter: JsonView,
    blocks: Seq<JsonView>,
    block: JsonView,
)
    requires
        assistant_in_blocks(event, blocks.push(block)),
        assistant_in_blocks(shorter, blocks),
        str_in(shorter.get("content"@)) is None,
    ensures
        gemini_texts(seq![event]) == gemini_texts(seq![shorter]) + (if is_written(block)
            && trimmed_at(block, "text"@).len() > 0 {
            trimmed_at(block, "text"@).push('\n')
        } else {
            Seq::empty()
        }) + trimmed_at(event, "content"@),
        blocks.len() == 0 ==> gemini_texts(seq![shorter]) == Seq::<char>::empty(),
{
    lemma_one_text(event);
    lemma_one_text(shorter);
    lemma_kinds(event);
    lemma_kinds(shorter);
    lemma_kinds(block);
    assert(trimmed(Seq::empty()) == Seq::<char>::empty());
    let line = |b: JsonView| block_line(b);
    let lines = blocks.push(block).map_values(line);
    assert(lines.drop_last() =~= blocks.map_values(line));
    assert(lines.last() == block_line(block));
    assert(block_lines(blocks.push(block)) == block_lines(blocks) + block_line(block));
    assert(gemini_text(shorter) =~= block_lines(blocks));
    assert(gemini_text(event) =~= block_lines(blocks) + block_line(block) + trimmed_at(
        event,
        "content"@,
    ));
    if blocks.len() == 0 {
        assert(blocks.map_values(line) =~= Seq::<Seq<char>>::empty());
    }
}

/// The session that an event names.
pub open spec fn names_session(event: JsonView) -> Option<Seq<char>> {
    str_in(
        if event.get("session_id"@) is Some {
            event.get("session_id"@)
        } else {
            event.get("sessionId"@)
        },
    )
}

/// What an event complains of: an error, its error, message or content, if that is not
/// empty; a result that is marked as an error, its error or message.
pub open spec fn complains(event: JsonView) -> Option<Seq<char>> {
    let told = first_of(str_in(event.get("error"@)), str_in(event.get("message"@)));
    let anything = first_of(told, str_in(event.get("content"@)));
    let marked = event.get("is_error"@) == Some(JsonView::Bool(true)) || (str_in(
        event.get("subtype"@),
    ) is Some && ascii_uppercase(str_in(event.get("subtype"@))->0) == "ERROR"@);
    if is_kind(event, "error"@) && anything is Some && anything->0.len() > 0 {
        anything
    } else if is_kind(event, "result"@) && marked {
        told
    } else {
        None
    }
}

/// The cost that a result or a closing event gives.
pub open spec fn gives_cost(event: JsonView) -> Option<Seq<char>> {
    if is_kind(event, "result"@) || is_closing(event) {
        number_in(
            if event.get("total_cost_usd"@) is Some {
                event.get("total_cost_usd"@)
            } else {
                event.get("cost_usd"@)
            },
        )
    } else {
        None
    }
}

/// A count that a report replaces.
pub open spec fn over(n: u64, report: Option<u64>) -> u64 {
    if report is Some {
        report->0
    } else {
        n
    }
}

/// A count that a report fills in while it is zero.
pub open spec fn into_zero(n: u64, report: Option<u64>) -> u64 {
    if n == 0 && report is Some {
        report->0
    } else {
        n
    }
}

/// A count after an event: a result replaces it by its `usage`, a closing event only fills
/// it in; where it is zero even then, `usage_metadata` fills it in.
pub open spec fn counted(n: u64, event: JsonView, key: Seq<char>, meta_key: Seq<char>) -> u64 {
    let report = count_in(under(event.get("usage"@), key));
    let meta = count_in(under(event.get("usage_metadata"@), meta_key));
    if is_kind(event, "result"@) {
        into_zero(over(n, report), meta)
    } else if is_closing(event) {
        into_zero(into_zero(n, report), meta)
    } else {
        n
    }
}

/// Each further event of a run adds to what the events before it say: a session, a
/// complaint or a cost counts if there was none before, a result replaces the counts, and a
/// closing event fills in those that are zero.
pub proof fn law_gemini_one_more_event(events: Seq<JsonView>, event: JsonView)
    ensures
        ({
            let before = gemini_result(events);
            let after = gemini_result(events.push(event));
            &&& after.session_id == first_of(before.session_id, names_session(event))
            &&& after.error_message == first_of(before.error_message, complains(event))
            &&& after.cost_usd == first_of(before.cost_usd, gives_cost(event))
            &&& after.usage.input_tokens == counted(
                before.usage.input_tokens,
                event,
                "input_tokens"@,
                "prompt_token_count"@,
            )
            &&& after.usage.output_tokens == counted(
                before.usage.output_tokens,
                event,
                "output_tokens"@,
                "candidates_token_count"@,
            )
        }),
        gemini_result(Seq::empty()).session_id is None,
        gemini_result(Seq::empty()).final_text is None,
        gemini_result(Seq::empty()).error_message is None,
        gemini_result(Seq::empty()).cost_usd is None,
        gemini_result(Seq::empty()).usage == (TokenUsage { input_tokens: 0, output_tokens: 0 }),
{
    lemma_kinds(event);
    law_gemini_text_is_collected(Seq::empty(), Seq::empty());
    assert(Seq::<JsonView>::empty() + Seq::<JsonView>::empty() =~= Seq::<JsonView>::empty());
    assert(Seq::<char>::empty() + Seq::<char>::empty() =~= Seq::<char>::empty());
    assert(trimmed(Seq::empty()) == Seq::<char>::empty());
    assert(events.push(event).drop_last() =~= events);
    assert(events.push(event).last() == event);
    reveal_strlit("ERROR");
    assert(ascii_uppercase("error"@) =~= "ERROR"@) by {
        reveal_strlit("error");
    }
}

/// The event that a line stands for: the JSON value that it is.
pub open spec fn line_says(line: Seq<char>) -> Seq<JsonView> {
    let text = trimmed(line);
    if text.len() > 0 && json_text(text) is Some {
        seq![json_text(text)->0]
    } else {
        Seq::empty()
    }
}

proof fn lemma_one_line_says(line: Seq<char>)
    ensures
        events_of_lines(seq![line], |l: Seq<char>| gemini_event(l)) == line_says(line),
{
    reveal_with_fuel(events_of_lines, 2);
    assert(seq![line].drop_last() =~= Seq::<Seq<char>>::empty());
    assert(events_of_lines(seq![line], |l: Seq<char>| gemini_event(l)) =~= line_says(line));
}

/// An output is read line by line: the events of two stretches of lines follow one another,
/// and one line gives the JSON value that it is, or nothing if it is blank or no JSON.
pub proof fn law_gemini_reads_line_by_line(first: Seq<char>, line: Seq<char>, second: Seq<char>)
    requires
        first.len() == 0 || first.last() == '\n',
        !line.contains('\n'),
    ensures
        gemini_events(first + second) == gemini_events(first) + gemini_events(second),
        gemini_events(line) == line_says(line),
        gemini_events(line.push('\n')) == line_says(line),
{
    let read = |l: Seq<char>| gemini_event(l);
    lemma_lines_append(first, second);
    lemma_events_of_lines_append(lines_of(first), lines_of(second), read);
    law_lines_come_one_by_one(line, Seq::empty());
    if line.len() > 0 {
        lemma_one_line_says(line);
    } else {
        assert(line =~= Seq::<char>::empty());
        assert(gemini_events(line) =~= line_says(line));
    }
    lemma_one_line(line);
    if line.len() > 0 && line.last() == '\r' {
        assert(line =~= line.drop_last().push('\r'));
        lemma_trimmed_push(line.drop_last(), '\r');
        lemma_one_line_says(line.drop_last());
    } else {
        lemma_one_line_says(line);
    }
}

/// While a response streams, a message of the assistant is heard whatever came before: one
/// more block adds its text, as it is, behind that of the blocks before it, and has the
/// listener told of it, if it is written and not empty. A message without blocks goes by.
pub proof fn law_gemini_streams_each_block(
    progress: ProgressView,
    event: JsonView,
    shorter: JsonView,
    blocks: Seq<JsonView>,
    block: JsonView,
)
    requires
        assistant_in_blocks(event, blocks.push(block)),
        assistant_in_blocks(shorter, blocks),
    ensures
        ({
            let told = gemini_told(progress, event);
            let before = gemini_told(progress, shorter);
            let text = plain_at(block, "text"@);
            let heard = is_written(block) && text.len() > 0;
            &&& told.progress.usage == progress.usage
            &&& heard ==> told.progress.full_text == before.progress.full_text + text
                && told.events == before.events.push(StreamEventView::TextDelta { text })
            &&& !heard ==> told.progress.full_text == before.progress.full_text && told.events
                == before.events
            &&& blocks.len() == 0 ==> before.progress == progress && before.events == Seq::<
                StreamEventView,
            >::empty()
        }),
{
    lemma_kinds(event);
    lemma_kinds(shorter);
    lemma_kinds(block);
    assert(blocks.push(block).drop_last() =~= blocks);
    let chunks = block_chunks(blocks);
    let text = plain_at(block, "text"@);
    assert(chunks.push(text).drop_last() =~= chunks);
    let told = gemini_told(progress, event);
    let before = gemini_told(progress, shorter);
    if is_written(block) && text.len() > 0 {
        assert(block_chunks(blocks.push(block)) == chunks.push(text));
        assert(told.progress.full_text =~= before.progress.full_text + text);
        assert(told.events =~= before.events.push(StreamEventView::TextDelta { text }));
    }
    if blocks.len() == 0 {
        assert(chunks =~= Seq::<Seq<char>>::empty());
        assert(before.progress.full_text =~= progress.full_text);
        assert(before.events =~= Seq::<StreamEventView>::empty());
    }
}

/// What an event of text adds to a response that streams: its content, or where that is
/// empty, the text of its part.
pub open spec fn chunk_of(event: JsonView) -> Seq<char> {
    if plain_at(event, "content"@).len() > 0 {
        plain_at(event, "content"@)
    } else if str_in(under(event.get("part"@), "text"@)) is Some {
        str_in(under(event.get("part"@), "text"@))->0
    } else {
        Seq::empty()
    }
}

/// While a response streams, each event adds to it, and has the listener told, what it
/// says itself: text is added and told; a result replaces the counts, and is text itself
/// where there was none; an error is told; everything else goes by.
pub proof fn law_gemini_streams_each_event(progress: ProgressView, event: JsonView)
    ensures
        ({
            let told = gemini_told(progress, event);
            let nothing = Seq::<StreamEventView>::empty();
            let finishing = is_kind(event, "result"@) || is_kind(event, "done"@) || is_kind(
                event,
                "complete"@,
            );
            let whole = str_in(event.get("result"@));
            let texts = is_kind(event, "text"@) || is_kind(event, "content"@);
            &&& texts && chunk_of(event).len() > 0 ==> {
                &&& told.progress == (ProgressView {
                    full_text: progress.full_text + chunk_of(event),
                    usage: progress.usage,
                })
                &&& told.events == seq![StreamEventView::TextDelta { text: chunk_of(event) }]
            }
            &&& texts && chunk_of(event).len() == 0 ==> told.progress == progress && told.events
                == nothing
            &&& finishing ==> {
                &&& told.progress.usage.input_tokens == into_zero(
                    over(
                        progress.usage.input_tokens,
                        count_in(under(event.get("usage"@), "input_tokens"@)),
                    ),
                    count_in(under(event.get("usage_metadata"@), "prompt_token_count"@)),
                )
                &&& told.progress.usage.output_tokens == into_zero(
                    over(
                        progress.usage.output_tokens,
                        count_in(under(event.get("usage"@), "output_tokens"@)),
                    ),
                    count_in(under(event.get("usage_metadata"@), "candidates_token_count"@)),
                )
                &&& whole is Some && progress.full_text.len() == 0 ==> told.progress.full_text
                    == whole->0 && told.events == seq![
                    StreamEventView::TextDelta { text: whole->0 },
                ]
                &&& !(whole is Some && progress.full_text.len() == 0)
                    ==> told.progress.full_text == progress.full_text && told.events == nothing
            }
            &&& is_kind(event, "error"@) ==> told.progress == progress && (if str_in(
                event.get("error"@),
            ) is Some {
                told.events == seq![
                    StreamEventView::ToolExecutionResult {
                        id: Seq::empty(),
                        name: "gemini"@,
                        result_preview: str_in(event.get("error"@))->0,
                        is_error: true,
                    },
                ]
            } else {
                told.events == nothing
            })
            &&& !texts && !finishing && !is_kind(event, "error"@) && (!is_kind(
                event,
                "assistant"@,
            ) || !(under(event.get("message"@), "content"@) matches Some(JsonView::Array(_))))
                ==> told.progress == progress && told.events == nothing
        }),
{
    lemma_kinds(event);
    let whole = str_in(event.get("result"@));
    if whole is Some && progress.full_text.len() == 0 {
        assert(progress.full_text + whole->0 =~= whole->0);
    }
    if is_kind(event, "assistant"@) && !(under(event.get("message"@), "content"@) matches Some(
        JsonView::Array(_),
    )) {
        assert(message_blocks(event) =~= Seq::<JsonView>::empty());
        let none = Seq::<Seq<char>>::empty();
        assert(block_chunks(message_blocks(event)) =~= none);
        assert(progress.full_text + concatenated(none) =~= progress.full_text);
        assert(gemini_told(progress, event).events =~= Seq::<StreamEventView>::empty());
    }
}

/// A message of the assistant adds the same text and has the listener told the same,
/// whatever came before it.
pub proof fn law_gemini_assistant_is_always_heard(
    one: ProgressView,
    other: ProgressView,
    event: JsonView,
)
    requires
        is_kind(event, "assistant"@),
    ensures
        gemini_told(one, event).events == gemini_told(other, event).events,
        gemini_told(one, event).progress.full_text == one.full_text + delta_text(
            gemini_told(other, event).events,
        ),
        gemini_told(one, event).progress.usage == one.usage,
{
    lemma_kinds(event);
    law_gemini_event_tells_what_it_adds(one, event);
}

/// While a response streams, a line that is JSON counts as the event that it is, a line
/// that is not counts as text, letter for letter, and blank lines go by.
pub proof fn law_gemini_streams_each_line(progress: ProgressView, line: Seq<char>)
    ensures
        ({
            let told = gemini_line_told(progress, line);
            let heard = trimmed(line).len() > 0;
            &&& !heard ==> told.progress == progress && told.events == Seq::<
                StreamEventView,
            >::empty()
            &&& heard && json_text(line) is Some ==> told == gemini_told(
                progress,
                json_text(line)->0,
            )
            &&& heard && json_text(line) is None ==> told.progress == (ProgressView {
                full_text: progress.full_text + line,
                usage: progress.usage,
            }) && told.events == seq![StreamEventView::TextDelta { text: line }]
        }),
{
}

/// Gemini complains about missing authentication exactly when the pattern for that is
/// found, and about an unknown session exactly when the pattern for that is found or it
/// says of a session that it has expired.
pub proof fn law_gemini_complaints(detail: Seq<char>)
    ensures
        says_gemini_unauthenticated(detail) <==> regex_search(
            r"(?i)not\s+authenticated|please\s+authenticate|api[_ ]?key\s+(?:required|missing|invalid)|authentication\s+required|unauthorized|invalid\s+credentials|not\s+logged\s+in|login\s+required|run\s+`?gemini\s+auth"@,
            detail,
        ) == Some(true),
        says_gemini_unknown_session(detail) <==> regex_search(
            r"(?i)unknown\s+session|session\s+.*\s+not\s+found|resume\s+.*\s+not\s+found|checkpoint\s+.*\s+not\s+found|cannot\s+resume|failed\s+to\s+resume"@,
            detail,
        ) == Some(true) || said_in_turn(ascii_uppercase(detail), "SESSION"@, "EXPIRED"@)
            || contains_text(ascii_uppercase(detail), "EXPIRED SESSION"@),
{
}

} // verus!
