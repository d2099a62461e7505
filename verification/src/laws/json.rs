//! Laws on JSON values, and the words in which the laws on events are put.

use vstd::prelude::*;

use crate::json::{member, JsonView};

verus! {

/// The text, where there is a value and it is a string.
pub open spec fn str_in(v: Option<JsonView>) -> Option<Seq<char>> {
    match v {
        Some(JsonView::Str(s)) => Some(s),
        _ => None,
    }
}

/// The count, where there is a value and it is an integer from zero to `u64::MAX`.
pub open spec fn count_in(v: Option<JsonView>) -> Option<u64> {
    match v {
        Some(JsonView::Number { unsigned, .. }) => unsigned,
        _ => None,
    }
}

/// The number written out, where there is a value and it is a number.
pub open spec fn number_in(v: Option<JsonView>) -> Option<Seq<char>> {
    match v {
        Some(JsonView::Number { text, .. }) => Some(text),
        _ => None,
    }
}

/// The member `inner` of a value, where there is one.
pub open spec fn under(v: Option<JsonView>, inner: Seq<char>) -> Option<JsonView> {
    match v {
        Some(v) => v.get(inner),
        None => None,
    }
}

/// The first of two, where it is there, or else the second.
pub open spec fn first_of<T>(a: Option<T>, b: Option<T>) -> Option<T> {
    if a is Some {
        a
    } else {
        b
    }
}

/// `event` says of itself that it is of the kind `kind`.
pub open spec fn is_kind(event: JsonView, kind: Seq<char>) -> bool {
    event.get("type"@) == Some(JsonView::Str(kind))
}

proof fn lemma_member(
    before: Seq<(Seq<char>, JsonView)>,
    key: Seq<char>,
    value: JsonView,
    after: Seq<(Seq<char>, JsonView)>,
)
    requires
        forall|i: int| 0 <= i < before.len() ==> (#[trigger] before[i]).0 != key,
    ensures
        member(before + seq![(key, value)] + after, key) == Some(value),
        member(before, key) is None,
    decreases before.len(),
{
    let whole = before + seq![(key, value)] + after;
    if before.len() > 0 {
        let rest = before.drop_first();
        assert forall|i: int| 0 <= i < rest.len() implies (#[trigger] rest[i]).0 != key by {
            assert(rest[i] == before[i + 1]);
        }
        lemma_member(rest, key, value, after);
        assert(whole.first() == before[0]);
        assert(whole.drop_first() =~= rest + seq![(key, value)] + after);
    } else {
        assert(whole.first() == (key, value));
    }
}

/// A member is found by its name, the first where there are several; what is not there is
/// not found, and only objects have members.
pub proof fn law_members_are_found(
    before: Seq<(Seq<char>, JsonView)>,
    key: Seq<char>,
    value: JsonView,
    after: Seq<(Seq<char>, JsonView)>,
    other: JsonView,
)
    requires
        forall|i: int| 0 <= i < before.len() ==> (#[trigger] before[i]).0 != key,
        other !is Object,
    ensures
        JsonView::Object(before + seq![(key, value)] + after).get(key) == Some(value),
        JsonView::Object(before).get(key) is None,
        other.get(key) is None,
{
    lemma_member(before, key, value, after);
}

/// What a value is asked for it gives if it is of that kind, and only then; a member of a
/// member is asked for in two steps.
pub proof fn law_values_give_what_they_are(v: JsonView, key: Seq<char>, inner: Seq<char>)
    ensures
        v.as_str() == str_in(Some(v)),
        v.as_u64() == count_in(Some(v)),
        v.as_number_text() == number_in(Some(v)),
        v.as_bool() == (match v {
            JsonView::Bool(b) => Some(b),
            _ => None,
        }),
        v matches JsonView::Array(items) ==> v.items() == items,
        v !is Array ==> v.items() == Seq::<JsonView>::empty(),
        v.str_at(key) == str_in(v.get(key)),
        v.u64_at(key) == count_in(v.get(key)),
        v.get2(key, inner) == under(v.get(key), inner),
        v.str_at2(key, inner) == str_in(under(v.get(key), inner)),
        v.u64_at2(key, inner) == count_in(under(v.get(key), inner)),
        str_in(v.get(key)) is Some ==> v.text_at(key) == str_in(v.get(key))->0,
        str_in(v.get(key)) is None ==> v.text_at(key) == Seq::<char>::empty(),
{
}

} // verus!
