//! What holds of every BOM that the writer produces.

use vstd::prelude::*;
use vstd::utf8::encode_utf8;

use crate::bytes::{be32, be32_value, lemma_be32_value, zeros};
use crate::macos::bom::{
    add_components, block_data, block_table, bom_blocks, bom_bytes, bom_fits, bom_header,
    bom_info, bom_magic, bom_paths, bom_paths_upto, bom_store, bom_store_len, bom_vars, find_path,
    index_offset, path_components, prefix_of, root_node, table_entries, var_entries, var_entry,
    vars_table, BomEntry, BomEntryView, PathNode, views,
};

verus! {

/// The five variable entries in their fixed order, for a store of `n` paths.
pub open spec fn fixed_var_entries(n: int) -> Seq<u8> {
    var_entry((encode_utf8("BomInfo"@), 1u32)) + var_entry(
        (encode_utf8("Paths"@), (3 * n + 3) as u32),
    ) + var_entry((encode_utf8("HLIndex"@), (3 * n + 5) as u32)) + var_entry(
        (encode_utf8("VIndex"@), (3 * n + 8) as u32),
    ) + var_entry((encode_utf8("Size64"@), (3 * n + 10) as u32))
}

proof fn lemma_table_entries_first(blocks: Seq<Seq<u8>>, start: int, k: int)
    requires
        1 <= k,
    ensures
        table_entries(blocks, start, k).len() == 8 * k,
        table_entries(blocks, start, k).subrange(0, 8) == be32(0) + be32(0),
    decreases k,
{
    if k > 1 {
        lemma_table_entries_first(blocks, start, k - 1);
        let prev = table_entries(blocks, start, k - 1);
        assert(table_entries(blocks, start, k).subrange(0, 8) =~= prev.subrange(0, 8));
    } else {
        assert(table_entries(blocks, start, k).subrange(0, 8) =~= be32(0) + be32(0));
    }
}

proof fn lemma_header_parts(
    a: Seq<u8>,
    b: Seq<u8>,
    c: Seq<u8>,
    d: Seq<u8>,
    e: Seq<u8>,
    f: Seq<u8>,
    g: Seq<u8>,
    z: Seq<u8>,
)
    requires
        a.len() == 8,
        b.len() == 4,
        c.len() == 4,
        d.len() == 4,
        e.len() == 4,
        f.len() == 4,
        g.len() == 4,
        z.len() == 480,
    ensures
        ({
            let h = a + b + c + d + e + f + g + z;
            &&& h.len() == 512
            &&& h.subrange(0, 8) == a
            &&& h.subrange(8, 12) == b
            &&& h.subrange(16, 20) == d
            &&& h.subrange(24, 28) == f
            &&& h.subrange(28, 32) == g
            &&& h.subrange(32, 512) == z
        }),
{
    let h = a + b + c + d + e + f + g + z;
    assert(h.subrange(0, 8) =~= a);
    assert(h.subrange(8, 12) =~= b);
    assert(h.subrange(16, 20) =~= d);
    assert(h.subrange(24, 28) =~= f);
    assert(h.subrange(28, 32) =~= g);
    assert(h.subrange(32, 512) =~= z);
}

proof fn lemma_store_parts(h: Seq<u8>, vt: Seq<u8>, data: Seq<u8>, table: Seq<u8>)
    requires
        h.len() == 512,
        table.len() >= 12,
    ensures
        ({
            let s = h + vt + data + table;
            let off = 512 + vt.len() as int + data.len();
            &&& s.len() == off + table.len()
            &&& forall|i: int, j: int| 0 <= i <= j <= 512 ==> #[trigger] s.subrange(i, j) == h.subrange(i, j)
            &&& s.subrange(512, 512 + vt.len() as int) == vt
            &&& s.subrange(off + 4, off + 12) == table.subrange(4, 12)
        }),
{
    let s = h + vt + data + table;
    let off = 512 + vt.len() as int + data.len();
    assert forall|i: int, j: int| 0 <= i <= j <= 512 implies #[trigger] s.subrange(i, j) == h.subrange(i, j) by {
        assert(s.subrange(i, j) =~= h.subrange(i, j));
    }
    assert(s.subrange(512, 512 + vt.len() as int) =~= vt);
    assert(s.subrange(off + 4, off + 12) =~= table.subrange(4, 12));
}

proof fn lemma_fixed_vars(n: int)
    ensures
        vars_table(bom_vars(n)) == be32(5) + fixed_var_entries(n),
{
    reveal_with_fuel(var_entries, 6);
    assert(vars_table(bom_vars(n)) =~= be32(5) + fixed_var_entries(n));
}

proof fn lemma_table_head(blocks: Seq<Seq<u8>>, start: int)
    requires
        blocks.len() >= 1,
    ensures
        block_table(blocks, start).len() == 8 + 8 * blocks.len(),
        block_table(blocks, start).subrange(4, 12) == be32(0) + be32(0),
{
    lemma_table_entries_first(blocks, start, blocks.len() as int);
    let entries = table_entries(blocks, start, blocks.len() as int);
    assert(block_table(blocks, start).subrange(4, 12) =~= entries.subrange(0, 8));
}

proof fn lemma_be32_len(v: u32)
    ensures
        be32(v).len() == 4,
{
}

/// The layout of a store with at least the null block that fits 32-bit
/// offsets.
proof fn lemma_store_layout(blocks: Seq<Seq<u8>>, vars: Seq<(Seq<u8>, u32)>)
    requires
        blocks.len() >= 1,
        bom_store_len(blocks, vars) <= u32::MAX,
    ensures
        ({
            let bytes = bom_store(blocks, vars);
            let vt = vars_table(vars);
            let table_at = be32_value(bytes.subrange(16, 20));
            &&& bytes.len() >= 512 + vt.len()
            &&& bytes.subrange(0, 8) == bom_magic()
            &&& bytes.subrange(8, 12) == be32(1)
            &&& bytes.subrange(24, 28) == be32(512)
            &&& be32_value(bytes.subrange(28, 32)) == vt.len()
            &&& bytes.subrange(32, 512) == zeros(480)
            &&& bytes.subrange(512, 512 + vt.len() as int) == vt
            &&& 512 + vt.len() <= table_at
            &&& table_at + 12 <= bytes.len()
            &&& bytes.subrange(table_at + 4, table_at + 12) == be32(0) + be32(0)
        }),
{
    let vt = vars_table(vars);
    let data = block_data(blocks, blocks.len() as int);
    let table = block_table(blocks, 512 + vt.len() as int);
    let off = index_offset(blocks, vars);
    let a = bom_magic();
    let b = be32(1);
    let c = be32((blocks.len() - 1) as u32);
    let d = be32(off as u32);
    let e = be32((8 + 8 * blocks.len()) as u32);
    let f = be32(512);
    let g = be32(vt.len() as u32);
    let z = zeros(480);
    lemma_be32_len(1);
    lemma_be32_len((blocks.len() - 1) as u32);
    lemma_be32_len(off as u32);
    lemma_be32_len((8 + 8 * blocks.len()) as u32);
    lemma_be32_len(512);
    lemma_be32_len(vt.len() as u32);
    assert(a.len() == 8);
    assert(z.len() == 480);
    lemma_table_head(blocks, 512 + vt.len() as int);
    lemma_header_parts(a, b, c, d, e, f, g, z);
    let header = a + b + c + d + e + f + g + z;
    assert(bom_header(blocks, vars) == header);
    lemma_store_parts(header, vt, data, table);
    assert(bom_store(blocks, vars) == header + vt + data + table);
    lemma_be32_value(off as u32);
    lemma_be32_value(vt.len() as u32);
}

/// The layout of every BOM: it begins with the magic `BOMStore`; its version
/// is 1; its variables start at offset 512; the variables table there holds
/// exactly the five variables `BomInfo`, `Paths`, `HLIndex`, `VIndex` and
/// `Size64`, in this order; the header gives that table's length; and the
/// block table, at the offset that the header gives, starts with the null
/// block at address 0 with length 0.
pub proof fn lemma_bom_layout(entries: Seq<BomEntryView>)
    requires
        entries.len() > 0,
        bom_fits(entries),
    ensures
        ({
            let bytes = bom_bytes(entries);
            let n = bom_paths(entries).len() as int;
            let vars = be32(5) + fixed_var_entries(n);
            let table_at = be32_value(bytes.subrange(16, 20));
            &&& bytes.len() >= 512 + vars.len()
            &&& bytes.subrange(0, 8) == bom_magic()
            &&& bytes.subrange(8, 12) == be32(1)
            &&& bytes.subrange(24, 28) == be32(512)
            &&& be32_value(bytes.subrange(28, 32)) == vars.len()
            &&& bytes.subrange(32, 512) == zeros(480)
            &&& bytes.subrange(512, 512 + vars.len() as int) == vars
            &&& 512 + vars.len() <= table_at
            &&& table_at + 12 <= bytes.len()
            &&& bytes.subrange(table_at + 4, table_at + 12) == be32(0) + be32(0)
        }),
{
    let nodes = bom_paths(entries);
    let n = nodes.len() as int;
    let blocks = bom_blocks(nodes, entries);
    let vars = bom_vars(n);
    assert(blocks.len() >= 1);
    lemma_fixed_vars(n);
    lemma_store_layout(blocks, vars);
}

/// A text of ASCII characters has one byte for each character.
proof fn lemma_ascii_length(text: Seq<char>)
    requires
        forall|i: int| 0 <= i < text.len() ==> (#[trigger] text[i]) as u32 <= 0x7F,
    ensures
        encode_utf8(text).len() == text.len(),
    decreases text.len(),
{
    if text.len() > 0 {
        lemma_ascii_length(text.drop_first());
    }
}

/// The variables table of every BOM has 60 bytes: the count, and for each of
/// the five variables its block index, the length of its name and its name.
pub proof fn lemma_vars_table_length(n: int)
    ensures
        (be32(5) + fixed_var_entries(n)).len() == 60,
{
    reveal_strlit("BomInfo");
    reveal_strlit("Paths");
    reveal_strlit("HLIndex");
    reveal_strlit("VIndex");
    reveal_strlit("Size64");
    lemma_ascii_length("BomInfo"@);
    lemma_ascii_length("Paths"@);
    lemma_ascii_length("HLIndex"@);
    lemma_ascii_length("VIndex"@);
    lemma_ascii_length("Size64"@);
}

proof fn lemma_header_counts(
    a: Seq<u8>,
    b: Seq<u8>,
    c: Seq<u8>,
    d: Seq<u8>,
    e: Seq<u8>,
    f: Seq<u8>,
    g: Seq<u8>,
    z: Seq<u8>,
)
    requires
        a.len() == 8,
        b.len() == 4,
        c.len() == 4,
        d.len() == 4,
        e.len() == 4,
    ensures
        ({
            let h = a + b + c + d + e + f + g + z;
            &&& h.subrange(12, 16) == c
            &&& h.subrange(20, 24) == e
        }),
{
    let h = a + b + c + d + e + f + g + z;
    assert(h.subrange(12, 16) =~= c);
    assert(h.subrange(20, 24) =~= e);
}

proof fn lemma_store_ends(h: Seq<u8>, vt: Seq<u8>, data: Seq<u8>, table: Seq<u8>)
    requires
        h.len() == 512,
        table.len() >= 12,
    ensures
        ({
            let s = h + vt + data + table;
            let off = 512 + vt.len() as int + data.len();
            &&& s.subrange(off, off + 4) == table.subrange(0, 4)
            &&& s.subrange(s.len() - 4, s.len() as int) == table.subrange(
                table.len() - 4,
                table.len() as int,
            )
        }),
{
    let s = h + vt + data + table;
    let off = 512 + vt.len() as int + data.len();
    assert(s.subrange(off, off + 4) =~= table.subrange(0, 4));
    assert(s.subrange(s.len() - 4, s.len() as int) =~= table.subrange(
        table.len() - 4,
        table.len() as int,
    ));
}

proof fn lemma_table_ends(blocks: Seq<Seq<u8>>, start: int)
    requires
        blocks.len() >= 1,
    ensures
        ({
            let table = block_table(blocks, start);
            &&& table.subrange(0, 4) == be32(blocks.len() as u32)
            &&& table.subrange(table.len() - 4, table.len() as int) == be32(0)
        }),
{
    lemma_table_head(blocks, start);
    let table = block_table(blocks, start);
    assert(table.subrange(0, 4) =~= be32(blocks.len() as u32));
    assert(table.subrange(table.len() - 4, table.len() as int) =~= be32(0));
}

/// The block table of a store with at least the null block that fits 32-bit
/// offsets.
proof fn lemma_store_table(blocks: Seq<Seq<u8>>, vars: Seq<(Seq<u8>, u32)>)
    requires
        blocks.len() >= 1,
        bom_store_len(blocks, vars) <= u32::MAX,
    ensures
        ({
            let bytes = bom_store(blocks, vars);
            let count = be32_value(bytes.subrange(12, 16));
            let table_at = be32_value(bytes.subrange(16, 20));
            let table_length = be32_value(bytes.subrange(20, 24));
            &&& count == blocks.len() - 1
            &&& table_at + table_length == bytes.len()
            &&& table_length == 4 + 8 * (count + 1) + 4
            &&& 0 <= table_at
            &&& bytes.subrange(table_at, table_at + 4) == be32((count + 1) as u32)
            &&& bytes.subrange(bytes.len() - 4, bytes.len() as int) == be32(0)
        }),
{
    let vt = vars_table(vars);
    let data = block_data(blocks, blocks.len() as int);
    let table = block_table(blocks, 512 + vt.len() as int);
    let off = index_offset(blocks, vars);
    let a = bom_magic();
    let b = be32(1);
    let c = be32((blocks.len() - 1) as u32);
    let d = be32(off as u32);
    let e = be32((8 + 8 * blocks.len()) as u32);
    let f = be32(512);
    let g = be32(vt.len() as u32);
    let z = zeros(480);
    lemma_be32_len(1);
    lemma_be32_len((blocks.len() - 1) as u32);
    lemma_be32_len(off as u32);
    lemma_be32_len((8 + 8 * blocks.len()) as u32);
    lemma_be32_len(512);
    lemma_be32_len(vt.len() as u32);
    assert(a.len() == 8);
    assert(z.len() == 480);
    lemma_table_head(blocks, 512 + vt.len() as int);
    lemma_table_ends(blocks, 512 + vt.len() as int);
    lemma_header_parts(a, b, c, d, e, f, g, z);
    lemma_header_counts(a, b, c, d, e, f, g, z);
    let header = a + b + c + d + e + f + g + z;
    assert(bom_header(blocks, vars) == header);
    lemma_store_parts(header, vt, data, table);
    lemma_store_ends(header, vt, data, table);
    assert(bom_store(blocks, vars) == header + vt + data + table);
    lemma_be32_value(off as u32);
    lemma_be32_value((blocks.len() - 1) as u32);
    lemma_be32_value((8 + 8 * blocks.len()) as u32);
}

/// The block table of every BOM: the header gives the number of blocks
/// without the null block, and where the table starts and how long it is;
/// the table ends the bytes; it starts with the number of its entries, one
/// more than the header's count; it has eight bytes for each entry between
/// that number and the four bytes of its free list; and the free list is
/// empty.
pub proof fn lemma_bom_block_table(entries: Seq<BomEntryView>)
    requires
        entries.len() > 0,
        bom_fits(entries),
    ensures
        ({
            let bytes = bom_bytes(entries);
            let count = be32_value(bytes.subrange(12, 16));
            let table_at = be32_value(bytes.subrange(16, 20));
            let table_length = be32_value(bytes.subrange(20, 24));
            &&& count >= 0
            &&& 0 <= table_at
            &&& table_at + table_length == bytes.len()
            &&& table_length == 4 + 8 * (count + 1) + 4
            &&& be32_value(bytes.subrange(table_at, table_at + 4)) == count + 1
            &&& bytes.subrange(bytes.len() - 4, bytes.len() as int) == be32(0)
        }),
{
    let nodes = bom_paths(entries);
    let blocks = bom_blocks(nodes, entries);
    let vars = bom_vars(nodes.len() as int);
    assert(blocks.len() >= 1);
    lemma_store_table(blocks, vars);
    let bytes = bom_bytes(entries);
    let count = be32_value(bytes.subrange(12, 16));
    lemma_be32_value((count + 1) as u32);
}

/// The same entries always give the same BOM: whether a BOM exists, and its
/// bytes, depend on nothing but the entries' paths and numbers, in order.
pub proof fn lemma_bom_deterministic(first: Seq<BomEntry>, second: Seq<BomEntry>)
    requires
        views(first) == views(second),
    ensures
        bom_fits(views(first)) == bom_fits(views(second)),
        bom_bytes(views(first)) == bom_bytes(views(second)),
{
}

/// The paths of the nodes, in id order.
pub open spec fn node_paths(nodes: Seq<PathNode>) -> Seq<Seq<u8>> {
    Seq::new(nodes.len(), |i: int| nodes[i].path)
}

/// The prefixes of a path that end after component `k` or later.
pub open spec fn prefixes_from(comps: Seq<Seq<u8>>, k: int) -> Set<Seq<u8>> {
    Set::new(|p: Seq<u8>| exists|j: int| k < j <= comps.len() && p == prefix_of(comps, j))
}

/// Every prefix of a path: its first component, its first two, and so on.
pub open spec fn path_prefixes(path: Seq<u8>) -> Set<Seq<u8>> {
    prefixes_from(path_components(path), 0)
}

/// Every prefix of the paths of the first `n` entries.
pub open spec fn all_prefixes(entries: Seq<BomEntryView>, n: int) -> Set<Seq<u8>> {
    Set::new(
        |p: Seq<u8>| exists|i: int| 0 <= i < n && path_prefixes(#[trigger] entries[i].path).contains(p),
    )
}

proof fn lemma_find_path(nodes: Seq<PathNode>, path: Seq<u8>, from: int)
    requires
        0 <= from,
    ensures
        ({
            let r = find_path(nodes, path, from);
            &&& r == -1 || (from <= r < nodes.len() && nodes[r].path == path)
            &&& r == -1 ==> forall|i: int| from <= i < nodes.len() ==> nodes[i].path != path
        }),
    decreases nodes.len() - from,
{
    if from < nodes.len() && nodes[from].path != path {
        lemma_find_path(nodes, path, from + 1);
    }
}

proof fn lemma_add_components_paths(
    nodes: Seq<PathNode>,
    comps: Seq<Seq<u8>>,
    k: int,
    parent: int,
    raw: Seq<u8>,
    idx: int,
)
    requires
        0 <= k <= comps.len(),
        node_paths(nodes).no_duplicates(),
    ensures
        ({
            let out = add_components(nodes, comps, k, parent, raw, idx);
            &&& node_paths(out).no_duplicates()
            &&& node_paths(out).to_set() == node_paths(nodes).to_set().union(
                prefixes_from(comps, k),
            )
        }),
    decreases comps.len() - k,
{
    let before = node_paths(nodes);
    if k >= comps.len() {
        assert(before.to_set().union(prefixes_from(comps, k)) =~= before.to_set());
    } else {
        let p = prefix_of(comps, k + 1);
        lemma_find_path(nodes, p, 0);
        let at = find_path(nodes, p, 0);
        assert(prefixes_from(comps, k) =~= prefixes_from(comps, k + 1).insert(p)) by {
            assert forall|q: Seq<u8>| prefixes_from(comps, k).contains(q) implies prefixes_from(
                comps,
                k + 1,
            ).insert(p).contains(q) by {
                let j = choose|j: int| k < j <= comps.len() && q == prefix_of(comps, j);
                if j > k + 1 {
                    assert(k + 1 < j <= comps.len() && q == prefix_of(comps, j));
                }
            }
            assert forall|q: Seq<u8>|
                prefixes_from(comps, k + 1).insert(p).contains(q) implies prefixes_from(
                comps,
                k,
            ).contains(q) by {
                if q == p {
                    assert(k < k + 1 <= comps.len() && q == prefix_of(comps, k + 1));
                } else {
                    let j = choose|j: int| k + 1 < j <= comps.len() && q == prefix_of(comps, j);
                    assert(k < j <= comps.len() && q == prefix_of(comps, j));
                }
            }
        }
        if at >= 0 {
            lemma_add_components_paths(nodes, comps, k + 1, at + 1, raw, idx);
            assert(before[at] == p);
            assert(before.to_set().contains(p));
            assert(before.to_set().union(prefixes_from(comps, k)) =~= before.to_set().union(
                prefixes_from(comps, k + 1),
            ));
        } else {
            let node = PathNode {
                path: p,
                name: comps[k],
                parent,
                entry: if p == raw {
                    Some(idx)
                } else {
                    None
                },
            };
            let grown = nodes.push(node);
            assert(node_paths(grown) =~= before.push(p));
            assert(!before.contains(p));
            assert(before.push(p).no_duplicates());
            lemma_add_components_paths(grown, comps, k + 1, nodes.len() as int + 1, raw, idx);
            assert(before.push(p).to_set() =~= before.to_set().insert(p)) by {
                assert forall|q: Seq<u8>| before.push(p).to_set().contains(q) implies before.to_set().insert(
                    p,
                ).contains(q) by {
                    let i = choose|i: int| 0 <= i < before.push(p).len() && before.push(p)[i] == q;
                    if i < before.len() {
                        assert(before[i] == q);
                    }
                }
                assert forall|q: Seq<u8>| before.to_set().insert(p).contains(q) implies before.push(
                    p,
                ).to_set().contains(q) by {
                    if q == p {
                        assert(before.push(p)[before.len() as int] == q);
                    } else {
                        let i = choose|i: int| 0 <= i < before.len() && before[i] == q;
                        assert(before.push(p)[i] == q);
                    }
                }
            }
            assert(before.to_set().union(prefixes_from(comps, k)) =~= before.push(p).to_set().union(
                prefixes_from(comps, k + 1),
            ));
        }
    }
}

proof fn lemma_bom_paths_upto(entries: Seq<BomEntryView>, n: int)
    requires
        0 <= n <= entries.len(),
    ensures
        node_paths(bom_paths_upto(entries, n)).no_duplicates(),
        node_paths(bom_paths_upto(entries, n)).to_set() == all_prefixes(entries, n).insert(
            root_node().path,
        ),
    decreases n,
{
    if n == 0 {
        let start = node_paths(bom_paths_upto(entries, 0));
        assert(start =~= seq![root_node().path]);
        assert(start.to_set() =~= all_prefixes(entries, 0).insert(root_node().path)) by {
            assert(start[0] == root_node().path);
        }
    } else {
        lemma_bom_paths_upto(entries, n - 1);
        let before = bom_paths_upto(entries, n - 1);
        let path = entries[n - 1].path;
        lemma_add_components_paths(before, path_components(path), 0, 1, path, n - 1);
        assert(all_prefixes(entries, n) =~= all_prefixes(entries, n - 1).union(
            path_prefixes(path),
        )) by {
            assert forall|q: Seq<u8>| all_prefixes(entries, n).contains(q) implies all_prefixes(
                entries,
                n - 1,
            ).union(path_prefixes(path)).contains(q) by {
                let i = choose|i: int|
                    0 <= i < n && path_prefixes(#[trigger] entries[i].path).contains(q);
                if i < n - 1 {
                    assert(all_prefixes(entries, n - 1).contains(q));
                }
            }
            assert forall|q: Seq<u8>|
                all_prefixes(entries, n - 1).union(path_prefixes(path)).contains(
                    q,
                ) implies all_prefixes(entries, n).contains(q) by {
                if path_prefixes(path).contains(q) {
                    assert(path_prefixes(entries[n - 1].path).contains(q));
                } else {
                    let i = choose|i: int|
                        0 <= i < n - 1 && path_prefixes(#[trigger] entries[i].path).contains(q);
                    assert(0 <= i < n && path_prefixes(entries[i].path).contains(q));
                }
            }
        }
        assert(node_paths(bom_paths_upto(entries, n)).to_set() =~= all_prefixes(entries, n).insert(
            root_node().path,
        ));
    }
}

/// The number of paths of a BOM, which its `BomInfo` block records, is the
/// number of distinct paths among the root `.` and every prefix of every
/// entry's path. Where no prefix is `.` itself, that is one more than the
/// number of distinct prefixes.
pub proof fn lemma_bom_path_count(entries: Seq<BomEntryView>)
    ensures
        ({
            let nodes = bom_paths(entries);
            let prefixes = all_prefixes(entries, entries.len() as int);
            &&& prefixes.finite()
            &&& nodes.len() == prefixes.insert(root_node().path).len()
            &&& !prefixes.contains(root_node().path) ==> nodes.len() == 1 + prefixes.len()
            &&& bom_blocks(nodes, entries)[1] == bom_info(nodes.len() as u32)
        }),
{
    let nodes = bom_paths(entries);
    let prefixes = all_prefixes(entries, entries.len() as int);
    let paths = node_paths(nodes);
    lemma_bom_paths_upto(entries, entries.len() as int);
    paths.unique_seq_to_set();
    vstd::seq_lib::seq_to_set_is_finite(paths);
    let all = prefixes.insert(root_node().path);
    assert(all.finite());
    if prefixes.contains(root_node().path) {
        assert(all =~= prefixes);
    } else {
        assert(all.remove(root_node().path) =~= prefixes);
        vstd::set::axiom_set_remove_finite(all, root_node().path);
        vstd::set::axiom_set_insert_len(prefixes, root_node().path);
    }
}

} // verus!
