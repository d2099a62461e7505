//! Laws on the table of processes.

use vstd::prelude::*;

use crate::message::TokenUsage;
use crate::pids::{
    entries_held, entry_of, ever_contents, label_listed, labels_distinct, once_absent, once_held,
    others_absent, put_under, starts_empty, taken_from, taken_out,
};
use crate::stream::{no_progress, ProgressView};

verus! {

/// A process that was noted stands in the table at some moment, and what it displaced stood
/// there under the same label the moment before, or nothing did.
pub proof fn law_noted_processes_are_in_the_table(
    table: dashmap::DashMap<String, u32>,
    label: Seq<char>,
    pid: u32,
    displaced: Option<u32>,
)
    requires
        put_under(table, label, pid, displaced),
    ensures
        exists|m: Map<Seq<char>, u32>| #[trigger]
            ever_contents(table).contains(m) && ever_contents(table).contains(m.insert(label, pid))
                && (displaced matches Some(before) ==> m.dom().contains(label) && m[label]
                == before) && (displaced is None ==> !m.dom().contains(label)),
{
    let m = choose|m: Map<Seq<char>, u32>| #[trigger]
        ever_contents(table).contains(m) && ever_contents(table).contains(m.insert(label, pid))
            && displaced == entry_of(m, label);
    assert(ever_contents(table).contains(m));
}

/// A label that was taken out is missing from the table at some moment, and what was taken
/// out stood there under it the moment before, or nothing did.
pub proof fn law_released_processes_are_gone(
    table: dashmap::DashMap<String, u32>,
    label: Seq<char>,
    taken: Option<(String, u32)>,
)
    requires
        taken_out(table, label, taken),
    ensures
        taken matches Some(entry) ==> entry.0@ == label,
        exists|m: Map<Seq<char>, u32>| #[trigger]
            ever_contents(table).contains(m) && ever_contents(table).contains(m.remove(label)) && (
            taken matches Some(entry) ==> m.dom().contains(label) && m[label] == entry.1) && (
            taken is None ==> !m.dom().contains(label)),
{
    let m = choose|m: Map<Seq<char>, u32>| #[trigger]
        ever_contents(table).contains(m) && ever_contents(table).contains(m.remove(label))
            && taken_from(m, label, taken);
    assert(ever_contents(table).contains(m));
}

/// A process that is listed stands in the table at some moment, under its label; no other
/// is listed under that; and a label that is not listed is missing at some moment.
pub proof fn law_listed_processes_are_in_the_table(
    table: dashmap::DashMap<String, u32>,
    entries: Seq<(String, u32)>,
    i: int,
    j: int,
    label: Seq<char>,
)
    requires
        labels_distinct(entries),
        entries_held(table, entries),
        others_absent(table, entries),
        0 <= i < entries.len(),
        0 <= j < entries.len(),
    ensures
        i != j ==> entries[i].0@ != entries[j].0@,
        exists|m: Map<Seq<char>, u32>| #[trigger]
            ever_contents(table).contains(m) && m.dom().contains(entries[i].0@) && m[entries[i].0@]
                == entries[i].1,
        (forall|k: int| 0 <= k < entries.len() ==> (#[trigger] entries[k]).0@ != label) ==> exists|
            m: Map<Seq<char>, u32>,
        | #[trigger] ever_contents(table).contains(m) && !m.dom().contains(label),
{
    assert(once_held(table, entries[i].0@, entries[i].1));
    assert(label_listed(entries, label) || once_absent(table, label));
}

/// A new table begins with nothing in it, and a stream with nothing said.
pub proof fn law_beginnings_are_empty(table: dashmap::DashMap<String, u32>)
    requires
        starts_empty(table),
    ensures
        ever_contents(table).contains(Map::empty()),
        no_progress() == (ProgressView {
            full_text: Seq::empty(),
            usage: TokenUsage { input_tokens: 0, output_tokens: 0 },
        }),
{
}

} // verus!
