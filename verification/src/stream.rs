//! What has been said so far while a response streams in.

use vstd::prelude::*;
use vstd::string::*;

use crate::message::{event_views, no_usage, StreamEvent, StreamEventView, TokenUsage};
use crate::text::concatenated;

verus! {

/// The text and the token counts of a response that is still coming in.
pub struct StreamProgress {
    pub full_text: String,
    pub usage: TokenUsage,
}

/// The state of a response that is still coming in, as contracts see it.
pub struct ProgressView {
    pub full_text: Seq<char>,
    pub usage: TokenUsage,
}

impl View for StreamProgress {
    type V = ProgressView;

    open spec fn view(&self) -> ProgressView {
        ProgressView { full_text: self.full_text@, usage: self.usage }
    }
}

/// A response of which nothing has come in yet.
pub open spec fn no_progress() -> ProgressView {
    ProgressView { full_text: Seq::empty(), usage: no_usage() }
}

/// The state after some input, and what the listener is told about it.
pub struct Told {
    pub progress: ProgressView,
    pub events: Seq<StreamEventView>,
}

/// Nothing happened.
pub open spec fn nothing_told(progress: ProgressView) -> Told {
    Told { progress, events: Seq::empty() }
}

/// The text `text` has come in and is passed on.
pub open spec fn text_told(progress: ProgressView, text: Seq<char>) -> Told {
    Told {
        progress: ProgressView { full_text: progress.full_text + text, ..progress },
        events: seq![StreamEventView::TextDelta { text }],
    }
}

/// The text `text` has come in and is passed on, unless it is empty.
pub open spec fn some_text_told(progress: ProgressView, text: Seq<char>) -> Told {
    if text.len() == 0 {
        nothing_told(progress)
    } else {
        text_told(progress, text)
    }
}

/// The pieces `chunks` of text have come in and each is passed on.
pub open spec fn chunks_told(progress: ProgressView, chunks: Seq<Seq<char>>) -> Told {
    Told {
        progress: ProgressView {
            full_text: progress.full_text + concatenated(chunks),
            ..progress
        },
        events: chunks.map_values(|text: Seq<char>| StreamEventView::TextDelta { text }),
    }
}

/// The text that events carry, one after the other.
pub open spec fn delta_text(events: Seq<StreamEventView>) -> Seq<char>
    decreases events.len(),
{
    if events.len() == 0 {
        Seq::empty()
    } else {
        let before = delta_text(events.drop_last());
        match events.last() {
            StreamEventView::TextDelta { text } => before + text,
            _ => before,
        }
    }
}

/// What the listener is told is what is added to the text.
pub open spec fn tells_what_it_adds(before: ProgressView, told: Told) -> bool {
    told.progress.full_text == before.full_text + delta_text(told.events)
}

impl StreamProgress {
    /// Nothing has come in yet.
    pub fn new() -> (r: Self)
        ensures
            r@ == no_progress(),
    {
        StreamProgress {
            full_text: String::new(),
            usage: TokenUsage { input_tokens: 0, output_tokens: 0 },
        }
    }

    /// Takes in `text` and passes it on.
    pub(crate) fn say(&mut self, text: &str) -> (r: Vec<StreamEvent>)
        ensures
            (Told { progress: final(self)@, events: event_views(r@) }) == text_told(
                old(self)@,
                text@,
            ),
    {
        self.full_text.append(text);
        let mut events: Vec<StreamEvent> = Vec::new();
        events.push(StreamEvent::TextDelta { text: text.to_string() });
        assert(event_views(events@) =~= seq![StreamEventView::TextDelta { text: text@ }]);
        events
    }

    /// Takes in `text` and passes it on, unless it is empty.
    pub(crate) fn say_some(&mut self, text: &str) -> (r: Vec<StreamEvent>)
        ensures
            (Told { progress: final(self)@, events: event_views(r@) }) == some_text_told(
                old(self)@,
                text@,
            ),
    {
        if text.is_empty() {
            silence()
        } else {
            self.say(text)
        }
    }
}

/// No events.
pub(crate) fn silence() -> (r: Vec<StreamEvent>)
    ensures
        event_views(r@) == Seq::<StreamEventView>::empty(),
{
    let events: Vec<StreamEvent> = Vec::new();
    assert(event_views(events@) =~= Seq::<StreamEventView>::empty());
    events
}

/// The text of two stretches of events follows one another.
pub proof fn lemma_delta_text_append(first: Seq<StreamEventView>, second: Seq<StreamEventView>)
    ensures
        delta_text(first + second) == delta_text(first) + delta_text(second),
    decreases second.len(),
{
    if second.len() == 0 {
        assert(first + second =~= first);
        assert(delta_text(first) + delta_text(second) =~= delta_text(first));
    } else {
        lemma_delta_text_append(first, second.drop_last());
        assert((first + second).drop_last() =~= first + second.drop_last());
        assert(delta_text(first + second) =~= delta_text(first) + delta_text(second));
    }
}

/// An event of this kind carries no text.
pub open spec fn carries_no_text(event: StreamEventView) -> bool {
    event !is TextDelta
}

pub(crate) proof fn lemma_delta_text_one(event: StreamEventView)
    ensures
        carries_no_text(event) ==> delta_text(seq![event]) == Seq::<char>::empty(),
        event matches StreamEventView::TextDelta { text } ==> delta_text(seq![event]) == text,
{
    reveal_with_fuel(delta_text, 2);
    assert(seq![event].drop_last() =~= Seq::<StreamEventView>::empty());
    assert(delta_text(seq![event]) =~= (match event {
        StreamEventView::TextDelta { text } => text,
        _ => Seq::<char>::empty(),
    }));
}

pub(crate) proof fn lemma_text_told(progress: ProgressView, text: Seq<char>)
    ensures
        tells_what_it_adds(progress, nothing_told(progress)),
        tells_what_it_adds(progress, text_told(progress, text)),
        tells_what_it_adds(progress, some_text_told(progress, text)),
{
    lemma_delta_text_one(StreamEventView::TextDelta { text });
    assert(progress.full_text =~= progress.full_text + Seq::<char>::empty());
}

pub(crate) proof fn lemma_chunks_told(progress: ProgressView, chunks: Seq<Seq<char>>)
    ensures
        tells_what_it_adds(progress, chunks_told(progress, chunks)),
    decreases chunks.len(),
{
    let events = chunks_told(progress, chunks).events;
    if chunks.len() == 0 {
        assert(progress.full_text =~= progress.full_text + Seq::<char>::empty());
    } else {
        let init = chunks.drop_last();
        lemma_chunks_told(progress, init);
        assert(events.drop_last() =~= chunks_told(progress, init).events);
        assert(progress.full_text + concatenated(init) == progress.full_text + delta_text(
            events.drop_last(),
        ));
        assert(progress.full_text + concatenated(chunks) =~= (progress.full_text + concatenated(
            init,
        )) + chunks.last());
        assert(progress.full_text + delta_text(events) =~= (progress.full_text + delta_text(
            events.drop_last(),
        )) + chunks.last());
    }
}

} // verus!
