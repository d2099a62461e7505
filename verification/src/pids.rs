//! The shared table of running child processes.
//!
//! The table is a concurrent map from labels to process ids. Whoever holds a handle to
//! it may change it at any time, from any thread. What it holds when a call returns is
//! therefore nothing a contract can speak of; contracts speak of what it holds at one
//! moment or another of its life.

use std::sync::Arc;

use vstd::prelude::*;

verus! {

/// The concurrent map of `dashmap`.
#[verifier::external_type_specification]
#[verifier::external_body]
#[verifier::reject_recursive_types(K)]
#[verifier::reject_recursive_types(V)]
#[verifier::reject_recursive_types(S)]
pub struct ExDashMap<K, V, S>(dashmap::DashMap<K, V, S>);

/// What a table holds at one moment or another of its life: from each label to its
/// process, for each such moment.
pub uninterp spec fn ever_contents(table: dashmap::DashMap<String, u32>) -> Set<
    Map<Seq<char>, u32>,
>;

/// `pid` stands in the table under `label` at some moment.
pub open spec fn once_held(
    table: dashmap::DashMap<String, u32>,
    label: Seq<char>,
    pid: u32,
) -> bool {
    exists|m: Map<Seq<char>, u32>| #[trigger]
        ever_contents(table).contains(m) && m.dom().contains(label) && m[label] == pid
}

/// The table has no entry for `label` at some moment.
pub open spec fn once_absent(table: dashmap::DashMap<String, u32>, label: Seq<char>) -> bool {
    exists|m: Map<Seq<char>, u32>| #[trigger]
        ever_contents(table).contains(m) && !m.dom().contains(label)
}

/// What `contents` have under `label`.
pub open spec fn entry_of(contents: Map<Seq<char>, u32>, label: Seq<char>) -> Option<u32> {
    if contents.dom().contains(label) {
        Some(contents[label])
    } else {
        None
    }
}

/// No label occurs twice.
pub open spec fn labels_distinct(entries: Seq<(String, u32)>) -> bool {
    forall|i: int, j: int|
        0 <= i < j < entries.len() ==> (#[trigger] entries[i]).0@ != (#[trigger] entries[j]).0@
}

/// Each entry stands in the table at some moment.
pub open spec fn entries_held(
    table: dashmap::DashMap<String, u32>,
    entries: Seq<(String, u32)>,
) -> bool {
    forall|i: int|
        0 <= i < entries.len() ==> once_held(table, (#[trigger] entries[i]).0@, entries[i].1)
}

/// One of the entries has this label.
pub open spec fn label_listed(entries: Seq<(String, u32)>, label: Seq<char>) -> bool {
    exists|i: int| 0 <= i < entries.len() && (#[trigger] entries[i]).0@ == label
}

/// For each label that none of the entries has, there is a moment at which the table has
/// none for it.
pub open spec fn others_absent(
    table: dashmap::DashMap<String, u32>,
    entries: Seq<(String, u32)>,
) -> bool {
    forall|label: Seq<char>|
        label_listed(entries, label) || #[trigger] once_absent(table, label)
}

/// The table is without any entry at some moment.
pub open spec fn starts_empty(table: dashmap::DashMap<String, u32>) -> bool {
    ever_contents(table).contains(Map::empty())
}

/// `pid` was put in the table under `label`, from one moment to the next; `displaced` is
/// what it took the place of.
pub open spec fn put_under(
    table: dashmap::DashMap<String, u32>,
    label: Seq<char>,
    pid: u32,
    displaced: Option<u32>,
) -> bool {
    exists|m: Map<Seq<char>, u32>| #[trigger]
        ever_contents(table).contains(m) && ever_contents(table).contains(m.insert(label, pid))
            && displaced == entry_of(m, label)
}

/// The entry of `label` was taken out of the table, from one moment to the next; `taken` is
/// what it was.
pub open spec fn taken_out(
    table: dashmap::DashMap<String, u32>,
    label: Seq<char>,
    taken: Option<(String, u32)>,
) -> bool {
    exists|m: Map<Seq<char>, u32>| #[trigger]
        ever_contents(table).contains(m) && ever_contents(table).contains(m.remove(label))
            && taken_from(m, label, taken)
}

/// `taken` is the entry that `contents` have under `label`.
pub open spec fn taken_from(
    contents: Map<Seq<char>, u32>,
    label: Seq<char>,
    taken: Option<(String, u32)>,
) -> bool {
    match taken {
        Some(entry) => entry.0@ == label && entry_of(contents, label) == Some(entry.1),
        None => entry_of(contents, label) is None,
    }
}

/// `DashMap::new`: a table of its own, with nothing in it.
#[verifier::external_body]
pub(crate) fn new_table() -> (r: dashmap::DashMap<String, u32>)
    ensures
        ever_contents(r).contains(Map::empty()),
{
    dashmap::DashMap::new()
}

/// `Arc::clone`: another handle to the same table.
#[verifier::external_body]
pub(crate) fn share(table: &Arc<dashmap::DashMap<String, u32>>) -> (r: Arc<
    dashmap::DashMap<String, u32>,
>)
    ensures
        r == *table,
{
    Arc::clone(table)
}

/// `DashMap::iter`: entries of the table, in no particular order. Each shard is read
/// under its lock, and a label belongs to one shard, so no label comes twice, and a label
/// that does not come is in no entry while its shard is read. Which entries come depends
/// on who else changes the table, and is not stated.
#[verifier::external_body]
pub(crate) fn entries(table: &dashmap::DashMap<String, u32>) -> (r: Vec<(String, u32)>)
    ensures
        labels_distinct(r@),
        forall|i: int|
            0 <= i < r@.len() ==> exists|m: Map<Seq<char>, u32>| #[trigger]
                ever_contents(*table).contains(m) && m.dom().contains((#[trigger] r@[i]).0@)
                    && m[r@[i].0@] == r@[i].1,
        forall|label: Seq<char>|
            #[trigger] label_listed(r@, label) || exists|m: Map<Seq<char>, u32>| #[trigger]
                ever_contents(*table).contains(m) && !m.dom().contains(label),
{
    table.iter().map(|entry| (entry.key().clone(), *entry.value())).collect()
}

/// `DashMap::insert`: puts `pid` in the table under `label`, and gives what it took the
/// place of; the shard is locked meanwhile, so that it happens from one moment to the
/// next. How long the entry stays depends on who else changes the table, and is not
/// stated.
#[verifier::external_body]
pub(crate) fn insert(
    table: &dashmap::DashMap<String, u32>,
    label: String,
    pid: u32,
) -> (displaced: Option<u32>)
    ensures
        match displaced {
            Some(before) => exists|m: Map<Seq<char>, u32>| #[trigger]
                ever_contents(*table).contains(m) && ever_contents(*table).contains(
                    m.insert(label@, pid),
                ) && entry_of(m, label@) == Some(before),
            None => exists|m: Map<Seq<char>, u32>| #[trigger]
                ever_contents(*table).contains(m) && ever_contents(*table).contains(
                    m.insert(label@, pid),
                ) && entry_of(m, label@) is None,
        },
{
    table.insert(label, pid)
}

/// `DashMap::remove`: takes the entry of `label` out of the table, if there is one, and
/// gives it; the shard is locked meanwhile, so that it happens from one moment to the
/// next. How long the label stays out depends on who else changes the table, and is not
/// stated.
#[verifier::external_body]
pub(crate) fn remove(table: &dashmap::DashMap<String, u32>, label: &String) -> (taken: Option<
    (String, u32),
>)
    ensures
        match taken {
            Some(entry) => entry.0@ == label@ && exists|m: Map<Seq<char>, u32>| #[trigger]
                ever_contents(*table).contains(m) && ever_contents(*table).contains(
                    m.remove(label@),
                ) && entry_of(m, label@) == Some(entry.1),
            None => exists|m: Map<Seq<char>, u32>| #[trigger]
                ever_contents(*table).contains(m) && ever_contents(*table).contains(
                    m.remove(label@),
                ) && entry_of(m, label@) is None,
        },
{
    table.remove(label)
}

} // verus!
