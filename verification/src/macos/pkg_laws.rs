//! What holds of the archive of every package: which entries it has, and
//! what its table of contents lists.

use vstd::prelude::*;

use crate::macos::{pkg_entries, with_entry};
use crate::macos::xar::{
    data_section, file_opening, find_directory, toc_entries, XarEntryView,
};
use crate::macos::xar_laws::is_numbered;
use crate::xml_text::{indent, markup_line};
use crate::text::last_index_of;

verus! {

/// Whether `entry` is a file with the name, the id and the data given, at
/// the top of the archive (`parent` is `None`) or inside the directory
/// `parent`.
pub open spec fn is_file_entry(
    entry: XarEntryView,
    name: Seq<char>,
    id: u64,
    parent: Option<u64>,
    data: Seq<u8>,
) -> bool {
    entry.is_file && entry.name == name && entry.id == id && entry.parent_id == parent
        && entry.data == data
}

/// The path `base.pkg` names itself and stands at the top.
proof fn lemma_base_path()
    ensures
        last_index_of("Distribution"@, '/') == -1,
        last_index_of("base.pkg"@, '/') == -1,
        "Distribution"@.len() == 12,
        "base.pkg"@.len() == 8,
{
    reveal_strlit("Distribution");
    reveal_strlit("base.pkg");
    reveal_with_fuel(last_index_of, 14);
}

/// A path inside `base.pkg` has its `/` at position 8.
proof fn lemma_inner_paths()
    ensures
        last_index_of("base.pkg/Bom"@, '/') == 8,
        last_index_of("base.pkg/Payload"@, '/') == 8,
        last_index_of("base.pkg/PackageInfo"@, '/') == 8,
        last_index_of("base.pkg/Scripts"@, '/') == 8,
        "base.pkg/Bom"@.subrange(0, 8) == "base.pkg"@,
        "base.pkg/Payload"@.subrange(0, 8) == "base.pkg"@,
        "base.pkg/PackageInfo"@.subrange(0, 8) == "base.pkg"@,
        "base.pkg/Scripts"@.subrange(0, 8) == "base.pkg"@,
        "base.pkg/Bom"@.subrange(9, 12) == "Bom"@,
        "base.pkg/Payload"@.subrange(9, 16) == "Payload"@,
        "base.pkg/PackageInfo"@.subrange(9, 20) == "PackageInfo"@,
        "base.pkg/Scripts"@.subrange(9, 16) == "Scripts"@,
        "base.pkg/Bom"@.len() == 12,
        "base.pkg/Payload"@.len() == 16,
        "base.pkg/PackageInfo"@.len() == 20,
        "base.pkg/Scripts"@.len() == 16,
        "Distribution"@ != "base.pkg"@,
{
    reveal_strlit("Distribution");
    reveal_strlit("base.pkg");
    reveal_strlit("base.pkg/Bom");
    reveal_strlit("base.pkg/Payload");
    reveal_strlit("base.pkg/PackageInfo");
    reveal_strlit("base.pkg/Scripts");
    reveal_strlit("Bom");
    reveal_strlit("Payload");
    reveal_strlit("PackageInfo");
    reveal_strlit("Scripts");
    reveal_with_fuel(last_index_of, 14);
    assert("base.pkg/Bom"@.subrange(0, 8) =~= "base.pkg"@);
    assert("base.pkg/Payload"@.subrange(0, 8) =~= "base.pkg"@);
    assert("base.pkg/PackageInfo"@.subrange(0, 8) =~= "base.pkg"@);
    assert("base.pkg/Scripts"@.subrange(0, 8) =~= "base.pkg"@);
    assert("base.pkg/Bom"@.subrange(9, 12) =~= "Bom"@);
    assert("base.pkg/Payload"@.subrange(9, 16) =~= "Payload"@);
    assert("base.pkg/PackageInfo"@.subrange(9, 20) =~= "PackageInfo"@);
    assert("base.pkg/Scripts"@.subrange(9, 16) =~= "Scripts"@);
    assert("Distribution"@.len() != "base.pkg"@.len());
}

/// The archive of a package holds `Distribution` at its top, the directory
/// `base.pkg` beside it, and inside `base.pkg` the BOM, the payload and
/// `PackageInfo`, in this order and under the ids 1 to 5. Where there are
/// scripts, their archive follows inside `base.pkg` as `Scripts`, under the
/// id 6; where there are none, the archive holds nothing else.
pub proof fn lemma_pkg_entries_named(
    distribution: Seq<u8>,
    bom: Seq<u8>,
    payload: Seq<u8>,
    package_info: Seq<u8>,
    scripts: Option<Seq<u8>>,
)
    ensures
        ({
            let entries = pkg_entries(distribution, bom, payload, package_info, scripts);
            &&& entries.len() == if scripts is Some { 6int } else { 5int }
            &&& is_file_entry(entries[0], "Distribution"@, 1, None, distribution)
            &&& !entries[1].is_file && entries[1].name == "base.pkg"@ && entries[1].id == 2
                && entries[1].parent_id is None
            &&& is_file_entry(entries[2], "Bom"@, 3, Some(2u64), bom)
            &&& is_file_entry(entries[3], "Payload"@, 4, Some(2u64), payload)
            &&& is_file_entry(entries[4], "PackageInfo"@, 5, Some(2u64), package_info)
            &&& scripts matches Some(archive) ==> is_file_entry(
                entries[5],
                "Scripts"@,
                6,
                Some(2u64),
                archive,
            )
        }),
{
    lemma_base_path();
    lemma_inner_paths();
    reveal_with_fuel(find_directory, 3);
    assert("Distribution"@.subrange(0, 12) =~= "Distribution"@);
    assert("base.pkg"@.subrange(0, 8) =~= "base.pkg"@);
    let one = with_entry(Seq::empty(), "Distribution"@, true, distribution);
    assert(is_file_entry(one[0], "Distribution"@, 1, None, distribution));
    let two = with_entry(one, "base.pkg"@, false, Seq::empty());
    assert(two[0] == one[0]);
    assert(two[1].name == "base.pkg"@ && two[1].id == 2 && two[1].parent_id is None);
    assert(two[1].path == "base.pkg"@ && two[0].path == "Distribution"@);
    let three = with_entry(two, "base.pkg/Bom"@, true, bom);
    assert(three[0] == two[0] && three[1] == two[1]);
    assert(find_directory(two, "base.pkg"@, 0) == Some(2u64));
    assert(is_file_entry(three[2], "Bom"@, 3, Some(2u64), bom));
    let four = with_entry(three, "base.pkg/Payload"@, true, payload);
    assert(four[0] == two[0] && four[1] == two[1] && four[2] == three[2]);
    assert(find_directory(three, "base.pkg"@, 0) == Some(2u64));
    assert(is_file_entry(four[3], "Payload"@, 4, Some(2u64), payload));
    let five = with_entry(four, "base.pkg/PackageInfo"@, true, package_info);
    assert(five[0] == two[0] && five[1] == two[1] && five[2] == three[2] && five[3] == four[3]);
    assert(find_directory(four, "base.pkg"@, 0) == Some(2u64));
    assert(is_file_entry(five[4], "PackageInfo"@, 5, Some(2u64), package_info));
    match scripts {
        Some(archive) => {
            let six = with_entry(five, "base.pkg/Scripts"@, true, archive);
            assert(six[0] == two[0] && six[1] == two[1] && six[2] == three[2] && six[3] == four[3]
                && six[4] == five[4]);
            assert(find_directory(five, "base.pkg"@, 0) == Some(2u64));
            assert(is_file_entry(six[5], "Scripts"@, 6, Some(2u64), archive));
        },
        None => {},
    }
}

/// The entries of a package are numbered as a builder numbers them, so the
/// heap of its archive holds every file once.
pub proof fn lemma_pkg_entries_numbered(
    distribution: Seq<u8>,
    bom: Seq<u8>,
    payload: Seq<u8>,
    package_info: Seq<u8>,
    scripts: Option<Seq<u8>>,
)
    ensures
        is_numbered(pkg_entries(distribution, bom, payload, package_info, scripts)),
{
    lemma_pkg_entries_named(distribution, bom, payload, package_info, scripts);
    let entries = pkg_entries(distribution, bom, payload, package_info, scripts);
    assert forall|j: int| 0 <= j < entries.len() implies {
        &&& (#[trigger] entries[j]).id == j + 1
        &&& entries[j].parent_id matches Some(parent) ==> 1 <= parent <= j && !entries[parent
            - 1].is_file
    } by {
        if j == 0 {
        } else if j == 1 {
        } else if j == 2 {
        } else if j == 3 {
        } else if j == 4 {
        } else {
        }
    }
}

/// The `<file>` element of a file in the table of contents: its opening
/// with name and type, its `<data>` element for data at the heap offset
/// `offset`, and its closing tag.
pub open spec fn file_element(depth: nat, entry: XarEntryView, offset: int) -> Seq<char> {
    file_opening(depth, entry) + data_section(depth + 1, offset, entry.data) + markup_line(
        indent(depth),
        "</file>"@,
    )
}

/// The table of contents of a package without scripts lists `Distribution`
/// and then `base.pkg`, and inside `base.pkg` the BOM, the payload and
/// `PackageInfo`, each file at the heap offset where the one before it
/// ends, the first after the 20 bytes of the checksum; and it lists nothing
/// else, so no `Scripts`.
pub proof fn lemma_pkg_table_without_scripts(
    distribution: Seq<u8>,
    bom: Seq<u8>,
    payload: Seq<u8>,
    package_info: Seq<u8>,
)
    ensures
        ({
            let entries = pkg_entries(distribution, bom, payload, package_info, None);
            let at_bom: int = 20 + distribution.len() as int;
            let at_payload: int = at_bom + bom.len();
            let at_info: int = at_payload + payload.len();
            toc_entries(entries, None, 0, 20, 2) == (
                file_element(2, entries[0], 20) + file_opening(2, entries[1]) + file_element(
                    3,
                    entries[2],
                    at_bom,
                ) + file_element(3, entries[3], at_payload) + file_element(3, entries[4], at_info)
                    + markup_line(indent(2), "</file>"@),
                at_info + package_info.len(),
            )
        }),
{
    lemma_pkg_entries_named(distribution, bom, payload, package_info, None);
    let entries = pkg_entries(distribution, bom, payload, package_info, None);
    let at_bom: int = 20 + distribution.len() as int;
    let at_payload: int = at_bom + bom.len();
    let at_info: int = at_payload + payload.len();
    let end: int = at_info + package_info.len();
    let inside = Some(2u64);
    reveal_with_fuel(toc_entries, 2);
    assert(toc_entries(entries, inside, 5, end, 3) == (Seq::<char>::empty(), end));
    assert(toc_entries(entries, inside, 4, at_info, 3).0 =~= file_element(3, entries[4], at_info));
    assert(toc_entries(entries, inside, 3, at_payload, 3).0 =~= file_element(
        3,
        entries[3],
        at_payload,
    ) + file_element(3, entries[4], at_info));
    assert(toc_entries(entries, inside, 2, at_bom, 3).0 =~= file_element(3, entries[2], at_bom)
        + file_element(3, entries[3], at_payload) + file_element(3, entries[4], at_info));
    assert(toc_entries(entries, inside, 2, at_bom, 3).1 == end);
    assert(toc_entries(entries, None, 5, end, 2) == (Seq::<char>::empty(), end));
    assert(toc_entries(entries, None, 4, end, 2) == (Seq::<char>::empty(), end));
    assert(toc_entries(entries, None, 3, end, 2) == (Seq::<char>::empty(), end));
    assert(toc_entries(entries, None, 2, end, 2) == (Seq::<char>::empty(), end));
    assert(toc_entries(entries, None, 1, at_bom, 2).0 =~= file_opening(2, entries[1])
        + file_element(3, entries[2], at_bom) + file_element(3, entries[3], at_payload)
        + file_element(3, entries[4], at_info) + markup_line(indent(2), "</file>"@));
    assert(toc_entries(entries, None, 1, at_bom, 2).1 == end);
    assert(toc_entries(entries, None, 0, 20, 2).0 =~= file_element(2, entries[0], 20)
        + file_opening(2, entries[1]) + file_element(3, entries[2], at_bom) + file_element(
        3,
        entries[3],
        at_payload,
    ) + file_element(3, entries[4], at_info) + markup_line(indent(2), "</file>"@));
}

} // verus!
