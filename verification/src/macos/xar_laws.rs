//! What holds of every archive that a builder makes: how its entries are
//! numbered, and that its heap holds every file once.

use vstd::prelude::*;

use crate::macos::xar::{
    entry_added, find_directory, heap_files, new_entry, XarBuilder, XarEntryView,
};
use crate::models::error::PackageError;

verus! {

/// Whether the entries are as a builder numbers and places them: the ids
/// count up from 1 in the order of the entries, and the parent of an entry
/// is a directory that stands before it.
pub open spec fn is_numbered(entries: Seq<XarEntryView>) -> bool {
    forall|j: int|
        0 <= j < entries.len() ==> {
            &&& (#[trigger] entries[j]).id == j + 1
            &&& entries[j].parent_id matches Some(parent) ==> 1 <= parent <= j && !entries[parent
                - 1].is_file
        }
}

/// The lengths of the data of the files at or after `from`, added up.
pub open spec fn files_length(entries: Seq<XarEntryView>, from: int) -> int
    decreases entries.len() - from,
{
    if from < 0 || from >= entries.len() {
        0
    } else if entries[from].is_file {
        entries[from].data.len() + files_length(entries, from + 1)
    } else {
        files_length(entries, from + 1)
    }
}

/// The parent that stands for the number `number`: the top for 0, else the
/// directory with that id.
pub open spec fn parent_numbered(number: int) -> Option<u64> {
    if number <= 0 {
        None
    } else {
        Some(number as u64)
    }
}

/// The number that stands for a parent.
pub open spec fn number_of_parent(parent: Option<u64>) -> int {
    match parent {
        None => 0,
        Some(id) => id as int,
    }
}

/// The lengths of the heaps at or after `from` under the parents numbered 0
/// to `last`, added up.
pub open spec fn heaps_length(entries: Seq<XarEntryView>, from: int, last: int) -> int
    decreases last + 1,
{
    if last < 0 {
        0
    } else {
        heaps_length(entries, from, last - 1) + heap_files(
            entries,
            parent_numbered(last),
            from,
        ).len()
    }
}

/// Under a parent that no entry at or after `from` has, the heap is empty.
proof fn lemma_heap_without_children(entries: Seq<XarEntryView>, parent: Option<u64>, from: int)
    requires
        0 <= from,
        forall|j: int| from <= j < entries.len() ==> (#[trigger] entries[j]).parent_id != parent,
    ensures
        heap_files(entries, parent, from) == Seq::<u8>::empty(),
    decreases entries.len() - from,
{
    if from < entries.len() {
        lemma_heap_without_children(entries, parent, from + 1);
    }
}

/// What the entry at `from` adds to the heap of its parent: its data, or,
/// for a directory, the heap under it.
pub open spec fn added_length(entries: Seq<XarEntryView>, from: int) -> int {
    if entries[from].is_file {
        entries[from].data.len() as int
    } else {
        heap_files(entries, Some(entries[from].id), from + 1).len() as int
    }
}

/// The entry at `from` adds to the heap of its parent and to no other.
proof fn lemma_heaps_step(entries: Seq<XarEntryView>, from: int, last: int)
    requires
        is_numbered(entries),
        0 <= from < entries.len(),
        -1 <= last <= from,
    ensures
        heaps_length(entries, from, last) == heaps_length(entries, from + 1, last) + if number_of_parent(
            entries[from].parent_id,
        ) <= last {
            added_length(entries, from)
        } else {
            0
        },
    decreases last + 1,
{
    if last >= 0 {
        lemma_heaps_step(entries, from, last - 1);
        let parent = parent_numbered(last);
        let e = entries[from];
        assert(e.id == from + 1);
        if e.parent_id == parent {
            assert(number_of_parent(e.parent_id) == last);
            assert(heap_files(entries, parent, from).len() == added_length(entries, from)
                + heap_files(entries, parent, from + 1).len());
        } else {
            assert(number_of_parent(e.parent_id) != last);
            assert(heap_files(entries, parent, from) == heap_files(entries, parent, from + 1));
        }
    }
}

/// The heaps under the top and under the directories before `from` hold the
/// files at or after `from`, each once.
proof fn lemma_heaps_hold_files(entries: Seq<XarEntryView>, from: int)
    requires
        is_numbered(entries),
        0 <= from <= entries.len(),
    ensures
        heaps_length(entries, from, from) == files_length(entries, from),
    decreases entries.len() - from,
{
    if from == entries.len() {
        lemma_heaps_at_end(entries, from);
    } else {
        lemma_heaps_hold_files(entries, from + 1);
        lemma_heaps_step(entries, from, from);
        let e = entries[from];
        assert(e.id == from + 1);
        assert(number_of_parent(e.parent_id) <= from);
        assert(parent_numbered(from + 1) == Some(e.id));
        if e.is_file {
            assert forall|j: int| from + 1 <= j < entries.len() implies (#[trigger] entries[j]).parent_id
                != Some(e.id) by {
                if entries[j].parent_id == Some(e.id) {
                    assert(!entries[e.id - 1].is_file);
                }
            }
            lemma_heap_without_children(entries, Some(e.id), from + 1);
        }
    }
}

/// After the last entry every heap is empty.
proof fn lemma_heaps_at_end(entries: Seq<XarEntryView>, last: int)
    ensures
        heaps_length(entries, entries.len() as int, last) == 0,
    decreases last + 1,
{
    if last >= 0 {
        lemma_heaps_at_end(entries, last - 1);
    }
}

/// The heap of an archive holds the data of every file, each once: its
/// length is the lengths of the data of the files, added up.
pub proof fn lemma_heap_holds_every_file(entries: Seq<XarEntryView>)
    requires
        is_numbered(entries),
    ensures
        heap_files(entries, None, 0).len() == files_length(entries, 0),
{
    lemma_heaps_hold_files(entries, 0);
    reveal_with_fuel(heaps_length, 2);
}

/// Whether a builder numbers its entries as it should: the next id is one
/// more than the number of its entries, and the entries are numbered.
pub open spec fn is_counting(builder: XarBuilder) -> bool {
    builder.next_id() == builder@.len() + 1 && is_numbered(builder@)
}

/// A directory that is found stands among the entries searched.
proof fn lemma_found_directory(entries: Seq<XarEntryView>, path: Seq<char>, from: int)
    requires
        0 <= from,
    ensures
        find_directory(entries, path, from) matches Some(id) ==> exists|k: int|
            from <= k < entries.len() && !(#[trigger] entries[k]).is_file && entries[k].id == id,
    decreases entries.len() - from,
{
    if from < entries.len() {
        if entries[from].path == path && !entries[from].is_file {
        } else {
            lemma_found_directory(entries, path, from + 1);
        }
    }
}

/// A builder that numbers its entries as it should still does so after an
/// entry was added.
pub proof fn lemma_adding_keeps_numbering(
    before: XarBuilder,
    after: XarBuilder,
    result: Result<(), PackageError>,
    path: Seq<char>,
    is_file: bool,
    data: Seq<u8>,
)
    requires
        entry_added(before, after, result, path, is_file, data),
        is_counting(before),
    ensures
        is_counting(after),
{
    if before.next_id() < u64::MAX {
        let added = new_entry(before@, path, is_file, data, before.next_id());
        lemma_found_directory(before@, path.subrange(0, crate::text::last_index_of(path, '/')), 0);
        assert forall|j: int| 0 <= j < after@.len() implies {
            &&& (#[trigger] after@[j]).id == j + 1
            &&& after@[j].parent_id matches Some(parent) ==> 1 <= parent <= j && !after@[parent
                - 1].is_file
        } by {
            if j < before@.len() {
                assert(after@[j] == before@[j]);
                if after@[j].parent_id is Some {
                    let parent = after@[j].parent_id->0;
                    assert(after@[parent - 1] == before@[parent - 1]);
                }
            } else {
                assert(after@[j] == added);
                if added.parent_id is Some {
                    let parent = added.parent_id->0;
                    let k = choose|k: int|
                        0 <= k < before@.len() && !(#[trigger] before@[k]).is_file && before@[k].id
                            == parent;
                    assert(before@[k].id == k + 1);
                    assert(after@[parent - 1] == before@[k]);
                }
            }
        }
    }
}

} // verus!
