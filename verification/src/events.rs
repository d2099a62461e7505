//! Reading facts off a sequence of JSON events.

use vstd::prelude::*;

use crate::json::{Json, JsonView};
use crate::text::{lemma_lines_append, lemma_one_line, lines_of, without_carriage_return};

verus! {

/// The kind of an event: the text of its member `type`, empty if it has none.
pub open spec fn event_type(event: JsonView) -> Seq<char> {
    event.text_at("type"@)
}

/// What `fact` says of the first event of which it says something.
pub open spec fn first_fact<T>(events: Seq<JsonView>, fact: spec_fn(JsonView) -> Option<T>) -> Option<
    T,
>
    decreases events.len(),
{
    if events.len() == 0 {
        None
    } else {
        match first_fact(events.drop_last(), fact) {
            Some(t) => Some(t),
            None => fact(events.last()),
        }
    }
}

/// What `fact` says of the last event of which it says something.
pub open spec fn last_fact<T>(events: Seq<JsonView>, fact: spec_fn(JsonView) -> Option<T>) -> Option<
    T,
>
    decreases events.len(),
{
    if events.len() == 0 {
        None
    } else {
        match fact(events.last()) {
            Some(t) => Some(t),
            None => last_fact(events.drop_last(), fact),
        }
    }
}

/// `n`, or zero if there is none.
pub open spec fn or_zero(n: Option<u64>) -> u64 {
    match n {
        Some(n) => n,
        None => 0,
    }
}

/// A count that is replaced by a reported one.
pub open spec fn replaced(n: u64, reported: Option<u64>) -> u64 {
    match reported {
        Some(m) => m,
        None => n,
    }
}

/// What each line stands for, without the lines that stand for no event.
pub open spec fn events_of_lines(
    lines: Seq<Seq<char>>,
    read: spec_fn(Seq<char>) -> Option<JsonView>,
) -> Seq<JsonView>
    decreases lines.len(),
{
    if lines.len() == 0 {
        Seq::empty()
    } else {
        let before = events_of_lines(lines.drop_last(), read);
        match read(lines.last()) {
            Some(event) => before.push(event),
            None => before,
        }
    }
}

/// The kind of an event.
pub fn kind_of(event: &Json) -> (r: String)
    ensures
        r@ == event_type(event@),
{
    event.text_at("type")
}

/// The events of two stretches of lines follow one another.
pub proof fn lemma_events_of_lines_append(
    first: Seq<Seq<char>>,
    second: Seq<Seq<char>>,
    read: spec_fn(Seq<char>) -> Option<JsonView>,
)
    ensures
        events_of_lines(first + second, read) == events_of_lines(first, read) + events_of_lines(
            second,
            read,
        ),
    decreases second.len(),
{
    if second.len() == 0 {
        assert(first + second =~= first);
        assert(events_of_lines(first, read) + events_of_lines(second, read) =~= events_of_lines(
            first,
            read,
        ));
    } else {
        lemma_events_of_lines_append(first, second.drop_last(), read);
        assert((first + second).drop_last() =~= first + second.drop_last());
        assert(events_of_lines(first + second, read) =~= events_of_lines(first, read)
            + events_of_lines(second, read));
    }
}

/// The first fact is what the earliest event says of which the fact says something.
pub proof fn lemma_first_fact<T>(
    events: Seq<JsonView>,
    fact: spec_fn(JsonView) -> Option<T>,
    i: int,
)
    requires
        0 <= i < events.len(),
        fact(events[i]) is Some,
        forall|j: int| 0 <= j < i ==> fact(#[trigger] events[j]) is None,
    ensures
        first_fact(events, fact) == fact(events[i]),
    decreases events.len(),
{
    let init = events.drop_last();
    if i == events.len() - 1 {
        assert forall|j: int| 0 <= j < init.len() implies fact(#[trigger] init[j]) is None by {
            assert(init[j] == events[j]);
        }
        lemma_no_fact(init, fact);
    } else {
        assert(init[i] == events[i]);
        assert forall|j: int| 0 <= j < i implies fact(#[trigger] init[j]) is None by {
            assert(init[j] == events[j]);
        }
        lemma_first_fact(init, fact, i);
    }
}

/// If the fact says nothing of any event, there is no first.
pub proof fn lemma_no_fact<T>(events: Seq<JsonView>, fact: spec_fn(JsonView) -> Option<T>)
    requires
        forall|j: int| 0 <= j < events.len() ==> fact(#[trigger] events[j]) is None,
    ensures
        first_fact(events, fact) is None,
    decreases events.len(),
{
    if events.len() > 0 {
        let init = events.drop_last();
        assert forall|j: int| 0 <= j < init.len() implies fact(#[trigger] init[j]) is None by {
            assert(init[j] == events[j]);
        }
        lemma_no_fact(init, fact);
    }
}

/// Lines of which none stands for an event have no events.
pub proof fn lemma_no_events(
    lines: Seq<Seq<char>>,
    read: spec_fn(Seq<char>) -> Option<JsonView>,
)
    requires
        forall|j: int| 0 <= j < lines.len() ==> read(#[trigger] lines[j]) is None,
    ensures
        events_of_lines(lines, read) == Seq::<JsonView>::empty(),
    decreases lines.len(),
{
    if lines.len() > 0 {
        let init = lines.drop_last();
        assert forall|j: int| 0 <= j < init.len() implies read(#[trigger] init[j]) is None by {
            assert(init[j] == lines[j]);
        }
        lemma_no_events(init, read);
    }
}

/// A line of a text that stands for no event, with or without a carriage return at its
/// end, changes nothing of what the text says.
pub proof fn lemma_silent_line(
    first: Seq<char>,
    line: Seq<char>,
    second: Seq<char>,
    read: spec_fn(Seq<char>) -> Option<JsonView>,
)
    requires
        first.len() == 0 || first.last() == '\n',
        !line.contains('\n'),
        read(without_carriage_return(line)) is None,
    ensures
        events_of_lines(lines_of(first + line.push('\n') + second), read) == events_of_lines(
            lines_of(first + second),
            read,
        ),
{
    let whole = first + line.push('\n') + second;
    lemma_lines_append(first, second);
    lemma_lines_append(first, line.push('\n'));
    lemma_lines_append(first + line.push('\n'), second);
    lemma_one_line(line);
    let a = lines_of(first);
    let b = seq![without_carriage_return(line)];
    let c = lines_of(second);
    assert(lines_of(whole) == a + b + c);
    lemma_events_of_lines_append(a + b, c, read);
    lemma_events_of_lines_append(a, b, read);
    lemma_events_of_lines_append(a, c, read);
    assert forall|j: int| 0 <= j < b.len() implies read(#[trigger] b[j]) is None by {}
    lemma_no_events(b, read);
    assert(events_of_lines(a, read) + Seq::<JsonView>::empty() =~= events_of_lines(a, read));
}

/// A first fact stays what it is, whatever events follow.
pub proof fn law_first_fact_stays<T>(
    events: Seq<JsonView>,
    more: Seq<JsonView>,
    fact: spec_fn(JsonView) -> Option<T>,
)
    requires
        first_fact(events, fact) is Some,
    ensures
        first_fact(events + more, fact) == first_fact(events, fact),
    decreases more.len(),
{
    if more.len() == 0 {
        assert(events + more =~= events);
    } else {
        law_first_fact_stays(events, more.drop_last(), fact);
        assert((events + more).drop_last() =~= events + more.drop_last());
    }
}

/// A last fact that the later of two stretches of events gives wins; if that gives none,
/// the fact of the earlier stays.
pub proof fn law_last_fact_wins<T>(
    events: Seq<JsonView>,
    more: Seq<JsonView>,
    fact: spec_fn(JsonView) -> Option<T>,
)
    ensures
        last_fact(events + more, fact) == (match last_fact(more, fact) {
            Some(t) => Some(t),
            None => last_fact(events, fact),
        }),
    decreases more.len(),
{
    if more.len() == 0 {
        assert(events + more =~= events);
    } else {
        law_last_fact_wins(events, more.drop_last(), fact);
        assert((events + more).drop_last() =~= events + more.drop_last());
    }
}

} // verus!
