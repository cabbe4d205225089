//! Bill of Materials (BOM) writer.
//!
//! A BOM is the manifest of a macOS package: a block store with a 512-byte
//! header, a table of named variables, the blocks themselves and a block
//! table. All integers are big-endian.

use vstd::prelude::*;
use vstd::string::StringExecFns;
use vstd::utf8::encode_utf8;

use crate::bytes::{be16, be32, bytes_equal, copy_bytes, push_be16, push_be32, push_bytes, push_zeros, zeros};
use crate::models::error::PackageError;

verus! {

/// One filesystem object of the manifest.
#[derive(Debug, Clone)]
pub struct BomEntry {
    /// Path relative to the install location, with `/` between components.
    pub path: String,
    /// Unix mode, file-type bits included.
    pub mode: u32,
    /// User id.
    pub uid: u32,
    /// Group id.
    pub gid: u32,
    /// Size in bytes.
    pub size: u64,
}

/// What the writer reads of an entry: the path as UTF-8 bytes, and the numbers.
pub struct BomEntryView {
    pub path: Seq<u8>,
    pub mode: u32,
    pub uid: u32,
    pub gid: u32,
    pub size: u64,
}

impl View for BomEntry {
    type V = BomEntryView;

    open spec fn view(&self) -> BomEntryView {
        BomEntryView {
            path: encode_utf8(self.path@),
            mode: self.mode,
            uid: self.uid,
            gid: self.gid,
            size: self.size,
        }
    }
}

/// The views of a sequence of entries.
pub open spec fn views(entries: Seq<BomEntry>) -> Seq<BomEntryView> {
    Seq::new(entries.len(), |i: int| entries[i]@)
}

/// Path separator, `/`.
pub const SEP: u8 = 0x2f;

/// Type tag of a regular file.
pub const TYPE_FILE: u8 = 1;

/// Type tag of a directory.
pub const TYPE_DIR: u8 = 2;

/// Block size recorded in the `Paths`, `HLIndex` and `Size64` trees.
pub const TREE_BLOCK_SIZE: u32 = 4096;

/// Block size recorded in the `VIndex` tree.
pub const VINDEX_BLOCK_SIZE: u32 = 128;

/// A store with this many blocks or more cannot be addressed with 32 bits:
/// its block table alone takes eight bytes per block.
pub const MAX_BLOCKS: usize = 0x2000_0000;

// ---------------------------------------------------------------------------
// Path enumeration
// ---------------------------------------------------------------------------

/// The non-empty pieces between the separators of `path`, left to right.
pub open spec fn path_components(path: Seq<u8>) -> Seq<Seq<u8>>
    decreases path.len(),
{
    if path.len() == 0 {
        Seq::empty()
    } else {
        let init = path.drop_last();
        let before = path_components(init);
        let b = path.last();
        if b == SEP {
            before
        } else if init.len() > 0 && init.last() != SEP && before.len() > 0 {
            before.drop_last().push(before.last().push(b))
        } else {
            before.push(seq![b])
        }
    }
}

/// The first `k` components joined by separators.
pub open spec fn prefix_of(comps: Seq<Seq<u8>>, k: int) -> Seq<u8>
    decreases k,
{
    if k <= 0 {
        Seq::empty()
    } else if k == 1 {
        comps[0]
    } else {
        prefix_of(comps, k - 1) + seq![SEP] + comps[k - 1]
    }
}

/// A path of the manifest. Its id is its position in the enumeration plus one.
pub struct PathNode {
    /// The full path from the root.
    pub path: Seq<u8>,
    /// The last component.
    pub name: Seq<u8>,
    /// Id of the parent: 0 for the root, 1 for the children of the root.
    pub parent: int,
    /// The entry that was given for this very path, if any.
    pub entry: Option<int>,
}

/// The synthetic root, `.`, with id 1.
pub open spec fn root_node() -> PathNode {
    PathNode { path: seq![0x2eu8], name: seq![0x2eu8], parent: 0, entry: None }
}

/// Position of the first node at or after `from` whose path is `path`, or -1.
pub open spec fn find_path(nodes: Seq<PathNode>, path: Seq<u8>, from: int) -> int
    decreases nodes.len() - from,
{
    if from < 0 || from >= nodes.len() {
        -1
    } else if nodes[from].path == path {
        from
    } else {
        find_path(nodes, path, from + 1)
    }
}

/// Adds the prefixes of one path, from its component `k` on, each exactly
/// once: a prefix that is already known keeps its id. `parent` is the id of
/// the prefix that ends before component `k`; `raw` is the path as given and
/// `idx` the position of its entry.
pub open spec fn add_components(
    nodes: Seq<PathNode>,
    comps: Seq<Seq<u8>>,
    k: int,
    parent: int,
    raw: Seq<u8>,
    idx: int,
) -> Seq<PathNode>
    decreases comps.len() - k,
{
    if k < 0 || k >= comps.len() {
        nodes
    } else {
        let p = prefix_of(comps, k + 1);
        let at = find_path(nodes, p, 0);
        if at >= 0 {
            add_components(nodes, comps, k + 1, at + 1, raw, idx)
        } else {
            let node = PathNode {
                path: p,
                name: comps[k],
                parent,
                entry: if p == raw {
                    Some(idx)
                } else {
                    None
                },
            };
            add_components(nodes.push(node), comps, k + 1, nodes.len() as int + 1, raw, idx)
        }
    }
}

/// The enumeration after the first `n` entries.
pub open spec fn bom_paths_upto(entries: Seq<BomEntryView>, n: int) -> Seq<PathNode>
    decreases n,
{
    if n <= 0 {
        seq![root_node()]
    } else {
        add_components(
            bom_paths_upto(entries, n - 1),
            path_components(entries[n - 1].path),
            0,
            1,
            entries[n - 1].path,
            n - 1,
        )
    }
}

/// Every path of the manifest in id order: the root, then each prefix of each
/// entry's path at its first occurrence.
pub open spec fn bom_paths(entries: Seq<BomEntryView>) -> Seq<PathNode> {
    bom_paths_upto(entries, entries.len() as int)
}

// ---------------------------------------------------------------------------
// Blocks
// ---------------------------------------------------------------------------

/// Whether the file-type bits of `mode` say directory.
pub open spec fn mode_is_dir(mode: u32) -> bool {
    mode & 0o170000 == 0o040000
}

/// The 21-byte `PathInfo2` record of a path.
pub open spec fn path_info2(node: PathNode, entries: Seq<BomEntryView>) -> Seq<u8> {
    match node.entry {
        Some(i) => {
            let e = entries[i];
            seq![if mode_is_dir(e.mode) { TYPE_DIR } else { TYPE_FILE }, 1u8] + be16(3) + be16(
                (e.mode & 0xFFFF) as u16,
            ) + be32(e.uid) + be32(e.gid) + be32(0) + be32((e.size % 0x1_0000_0000) as u32)
                + seq![1u8] + be32(0) + be32(0)
        },
        None => seq![TYPE_DIR, 1u8] + be16(3) + be16(0o40755) + be32(0) + be32(80) + be32(0)
            + be32(0) + seq![1u8] + be32(0) + be32(0),
    }
}

/// The 8-byte `PathInfo1` record: the id and the block of the `PathInfo2`.
pub open spec fn path_info1(id: u32, info2_block: u32) -> Seq<u8> {
    be32(id) + be32(info2_block)
}

/// The `BOMFile` record: parent id, name, and a zero byte.
pub open spec fn bom_file(node: PathNode) -> Seq<u8> {
    be32(node.parent as u32) + node.name + seq![0u8]
}

/// The index pairs of the paths leaf for the first `k` of `n` paths.
pub open spec fn leaf_pairs(n: int, k: int) -> Seq<u8>
    decreases k,
{
    if k <= 0 {
        Seq::empty()
    } else {
        leaf_pairs(n, k - 1) + be32((2 + n + (k - 1)) as u32) + be32((2 + 2 * n + (k - 1)) as u32)
    }
}

/// The paths leaf: header, then one pair of block indices per path. The
/// header counts the paths in 16 bits, so a BOM is made only of as many
/// paths as it can count (see `bom_fits`).
pub open spec fn paths_leaf(n: int) -> Seq<u8> {
    be16(1) + be16((n % 0x1_0000) as u16) + be32(0) + be32(0) + leaf_pairs(n, n)
}

/// A leaf without entries.
pub open spec fn empty_leaf() -> Seq<u8> {
    be16(1) + be16(0) + be32(0) + be32(0)
}

/// The letters `tree`.
pub open spec fn tree_magic() -> Seq<u8> {
    seq![0x74u8, 0x72u8, 0x65u8, 0x65u8]
}

/// A tree block.
pub open spec fn tree_block(child: u32, block_size: u32, path_count: u32) -> Seq<u8> {
    tree_magic() + be32(1) + be32(child) + be32(block_size) + be32(path_count) + seq![0u8]
}

/// The 13-byte `VIndex` descriptor.
pub open spec fn vindex_block(tree: u32) -> Seq<u8> {
    be32(1) + be32(tree) + be32(0) + seq![0u8]
}

/// The 28-byte `BomInfo` block.
pub open spec fn bom_info(path_count: u32) -> Seq<u8> {
    be32(1) + be32(path_count) + be32(1) + zeros(16)
}

/// The `PathInfo2` blocks of the first `k` paths.
pub open spec fn info2_blocks(nodes: Seq<PathNode>, entries: Seq<BomEntryView>, k: int) -> Seq<
    Seq<u8>,
> {
    Seq::new(k as nat, |i: int| path_info2(nodes[i], entries))
}

/// The `PathInfo1` blocks of the first `k` paths.
pub open spec fn info1_blocks(k: int) -> Seq<Seq<u8>> {
    Seq::new(k as nat, |i: int| path_info1((i + 1) as u32, (2 + i) as u32))
}

/// The `BOMFile` blocks of the first `k` paths.
pub open spec fn file_blocks(nodes: Seq<PathNode>, k: int) -> Seq<Seq<u8>> {
    Seq::new(k as nat, |i: int| bom_file(nodes[i]))
}

/// The nine blocks that follow the per-path blocks of `n` paths: the paths
/// leaf and tree, the `HLIndex` leaf and tree, the `VIndex` leaf, tree and
/// descriptor, the `Size64` leaf and tree.
pub open spec fn index_blocks(n: int) -> Seq<Seq<u8>> {
    seq![
        paths_leaf(n),
        tree_block((3 * n + 2) as u32, TREE_BLOCK_SIZE, n as u32),
        empty_leaf(),
        tree_block((3 * n + 4) as u32, TREE_BLOCK_SIZE, 0),
        empty_leaf(),
        tree_block((3 * n + 6) as u32, VINDEX_BLOCK_SIZE, 0),
        vindex_block((3 * n + 7) as u32),
        empty_leaf(),
        tree_block((3 * n + 9) as u32, TREE_BLOCK_SIZE, 0),
    ]
}

/// Every block of the store for the given paths, block 0 (the null block)
/// first.
pub open spec fn bom_blocks(nodes: Seq<PathNode>, entries: Seq<BomEntryView>) -> Seq<Seq<u8>> {
    let n = nodes.len() as int;
    seq![Seq::<u8>::empty(), bom_info(n as u32)] + info2_blocks(nodes, entries, n) + info1_blocks(
        n,
    ) + file_blocks(nodes, n) + index_blocks(n)
}

/// The five variables, in their fixed order, for a store of `n` paths.
pub open spec fn bom_vars(n: int) -> Seq<(Seq<u8>, u32)> {
    seq![
        (encode_utf8("BomInfo"@), 1u32),
        (encode_utf8("Paths"@), (3 * n + 3) as u32),
        (encode_utf8("HLIndex"@), (3 * n + 5) as u32),
        (encode_utf8("VIndex"@), (3 * n + 8) as u32),
        (encode_utf8("Size64"@), (3 * n + 10) as u32),
    ]
}

// ---------------------------------------------------------------------------
// The store
// ---------------------------------------------------------------------------

/// The magic `BOMStore`.
pub open spec fn bom_magic() -> Seq<u8> {
    seq![0x42u8, 0x4fu8, 0x4du8, 0x53u8, 0x74u8, 0x6fu8, 0x72u8, 0x65u8]
}

/// One entry of the variables table: block index, length of the name, name.
pub open spec fn var_entry(v: (Seq<u8>, u32)) -> Seq<u8> {
    be32(v.1) + seq![(v.0.len() % 256) as u8] + v.0
}

/// The entries of the first `k` variables.
pub open spec fn var_entries(vars: Seq<(Seq<u8>, u32)>, k: int) -> Seq<u8>
    decreases k,
{
    if k <= 0 {
        Seq::empty()
    } else {
        var_entries(vars, k - 1) + var_entry(vars[k - 1])
    }
}

/// The variables table: the count, then the entries in insertion order.
pub open spec fn vars_table(vars: Seq<(Seq<u8>, u32)>) -> Seq<u8> {
    be32(vars.len() as u32) + var_entries(vars, vars.len() as int)
}

/// The data of blocks `1 .. k`, one after another.
pub open spec fn block_data(blocks: Seq<Seq<u8>>, k: int) -> Seq<u8>
    decreases k,
{
    if k <= 1 {
        Seq::empty()
    } else {
        block_data(blocks, k - 1) + blocks[k - 1]
    }
}

/// The address and length pairs of blocks `0 .. k`, where the data of block 1
/// starts at `start`. The null block is at `(0, 0)`.
pub open spec fn table_entries(blocks: Seq<Seq<u8>>, start: int, k: int) -> Seq<u8>
    decreases k,
{
    if k <= 0 {
        Seq::empty()
    } else if k == 1 {
        be32(0) + be32(0)
    } else {
        table_entries(blocks, start, k - 1) + be32((start + block_data(blocks, k - 1).len()) as u32)
            + be32(blocks[k - 1].len() as u32)
    }
}

/// The block table: the number of entries, the entries, and an empty free
/// list.
pub open spec fn block_table(blocks: Seq<Seq<u8>>, start: int) -> Seq<u8> {
    be32(blocks.len() as u32) + table_entries(blocks, start, blocks.len() as int) + be32(0)
}

/// Where the block table starts.
pub open spec fn index_offset(blocks: Seq<Seq<u8>>, vars: Seq<(Seq<u8>, u32)>) -> int {
    512 + vars_table(vars).len() as int + block_data(blocks, blocks.len() as int).len()
}

/// The length of the whole store.
pub open spec fn bom_store_len(blocks: Seq<Seq<u8>>, vars: Seq<(Seq<u8>, u32)>) -> int {
    index_offset(blocks, vars) + 8 + 8 * blocks.len()
}

/// The 512-byte header.
pub open spec fn bom_header(blocks: Seq<Seq<u8>>, vars: Seq<(Seq<u8>, u32)>) -> Seq<u8> {
    bom_magic() + be32(1) + be32((blocks.len() - 1) as u32) + be32(
        index_offset(blocks, vars) as u32,
    ) + be32((8 + 8 * blocks.len()) as u32) + be32(512) + be32(vars_table(vars).len() as u32)
        + zeros(480)
}

/// The whole store: header, variables, block data, block table.
pub open spec fn bom_store(blocks: Seq<Seq<u8>>, vars: Seq<(Seq<u8>, u32)>) -> Seq<u8> {
    bom_header(blocks, vars) + vars_table(vars) + block_data(blocks, blocks.len() as int)
        + block_table(blocks, 512 + vars_table(vars).len() as int)
}

/// The most paths that a BOM holds: the leaf of its paths counts them in 16
/// bits.
pub const MAX_PATHS: usize = 0xFFFF;

/// Whether these entries have more paths than a BOM holds.
pub open spec fn has_too_many_paths(entries: Seq<BomEntryView>) -> bool {
    bom_paths(entries).len() > MAX_PATHS
}

/// Whether a BOM can be made of these entries: it holds their paths, and its
/// store can be addressed with 32-bit offsets.
pub open spec fn bom_fits(entries: Seq<BomEntryView>) -> bool {
    let nodes = bom_paths(entries);
    !has_too_many_paths(entries) && bom_store_len(
        bom_blocks(nodes, entries),
        bom_vars(nodes.len() as int),
    ) <= u32::MAX
}

/// Why no BOM can be made of entries that do not fit.
pub open spec fn bom_failure(entries: Seq<BomEntryView>) -> Seq<char> {
    if has_too_many_paths(entries) {
        "BOM holds more than 65535 paths"@
    } else {
        "BOM does not fit 32-bit offsets"@
    }
}

/// The bytes of the BOM for these entries.
pub open spec fn bom_bytes(entries: Seq<BomEntryView>) -> Seq<u8> {
    let nodes = bom_paths(entries);
    bom_store(bom_blocks(nodes, entries), bom_vars(nodes.len() as int))
}

// ---------------------------------------------------------------------------
// Lemmas on lengths
// ---------------------------------------------------------------------------

proof fn lemma_var_entries_len(vars: Seq<(Seq<u8>, u32)>, j: int, k: int)
    requires
        0 <= j <= k <= vars.len(),
    ensures
        var_entries(vars, j).len() + 5 * (k - j) <= var_entries(vars, k).len(),
    decreases k - j,
{
    if j < k {
        lemma_var_entries_len(vars, j, k - 1);
    }
}

proof fn lemma_block_data_len(blocks: Seq<Seq<u8>>, j: int, k: int)
    requires
        0 <= j <= k <= blocks.len(),
    ensures
        block_data(blocks, j).len() <= block_data(blocks, k).len(),
    decreases k - j,
{
    if j < k {
        lemma_block_data_len(blocks, j, k - 1);
    }
}

proof fn lemma_table_entries_len(blocks: Seq<Seq<u8>>, start: int, k: int)
    requires
        0 <= k,
    ensures
        table_entries(blocks, start, k).len() == 8 * k,
    decreases k,
{
    if k > 1 {
        lemma_table_entries_len(blocks, start, k - 1);
    }
}

// ---------------------------------------------------------------------------
// The writer
// ---------------------------------------------------------------------------

/// The views of a sequence of byte vectors.
pub open spec fn seqs_of(v: Seq<Vec<u8>>) -> Seq<Seq<u8>> {
    Seq::new(v.len(), |i: int| v[i]@)
}

/// The variables as the store holds them: name bytes and block index.
pub open spec fn vars_of(v: Seq<(String, u32)>) -> Seq<(Seq<u8>, u32)> {
    Seq::new(v.len(), |i: int| (encode_utf8(v[i].0@), v[i].1))
}

/// Collects blocks and named variables, and lays the store out.
pub struct BomWriter {
    /// Data blocks. Block 0 is the null block.
    pub blocks: Vec<Vec<u8>>,
    /// Named variables, in insertion order.
    pub vars: Vec<(String, u32)>,
}

impl BomWriter {
    /// The blocks as byte sequences.
    pub open spec fn blocks_view(&self) -> Seq<Seq<u8>> {
        seqs_of(self.blocks@)
    }

    /// The variables as name bytes and block index.
    pub open spec fn vars_view(&self) -> Seq<(Seq<u8>, u32)> {
        vars_of(self.vars@)
    }

    /// A writer that holds the null block and no variable.
    pub fn new() -> (writer: Self)
        ensures
            writer.blocks.len() == 1,
            writer.blocks_view() == seq![Seq::<u8>::empty()],
            writer.vars_view() == Seq::<(Seq<u8>, u32)>::empty(),
    {
        let mut blocks: Vec<Vec<u8>> = Vec::new();
        blocks.push(Vec::new());
        let writer = BomWriter { blocks, vars: Vec::new() };
        assert(writer.blocks_view() =~= seq![Seq::<u8>::empty()]);
        assert(writer.vars_view() =~= Seq::<(Seq<u8>, u32)>::empty());
        writer
    }

    /// Adds a data block and returns its index.
    pub fn add_block(&mut self, data: Vec<u8>) -> (index: u32)
        requires
            old(self).blocks.len() < u32::MAX,
        ensures
            index == old(self).blocks.len(),
            final(self).blocks.len() == old(self).blocks.len() + 1,
            final(self).blocks_view() == old(self).blocks_view().push(data@),
            final(self).vars == old(self).vars,
    {
        let index: u32 = self.blocks.len() as u32;
        self.blocks.push(data);
        assert(self.blocks_view() =~= old(self).blocks_view().push(data@));
        index
    }

    /// Replaces the data of block `index`.
    pub fn set_block(&mut self, index: u32, data: Vec<u8>)
        requires
            index < old(self).blocks.len(),
        ensures
            final(self).blocks.len() == old(self).blocks.len(),
            final(self).blocks_view() == old(self).blocks_view().update(index as int, data@),
            final(self).vars == old(self).vars,
    {
        self.blocks.set(index as usize, data);
        assert(self.blocks_view() =~= old(self).blocks_view().update(index as int, data@));
    }

    /// Adds a named variable that points to a block.
    pub fn add_var(&mut self, name: &str, block_index: u32)
        ensures
            final(self).vars_view() == old(self).vars_view().push(
                (encode_utf8(name@), block_index),
            ),
            final(self).vars.len() == old(self).vars.len() + 1,
            final(self).blocks == old(self).blocks,
    {
        self.vars.push((String::from_str(name), block_index));
        assert(self.vars_view() =~= old(self).vars_view().push((encode_utf8(name@), block_index)));
    }

    /// Appends a 32-bit big-endian value.
    pub fn write_u32_be(buf: &mut Vec<u8>, val: u32)
        ensures
            final(buf)@ == old(buf)@ + be32(val),
    {
        push_be32(buf, val);
    }

    /// Appends a 16-bit big-endian value.
    pub fn write_u16_be(buf: &mut Vec<u8>, val: u16)
        ensures
            final(buf)@ == old(buf)@ + be16(val),
    {
        push_be16(buf, val);
    }

    /// Adds a tree block with the given block size and returns its index.
    fn add_tree(&mut self, child_block: u32, block_size: u32, path_count: u32) -> (index: u32)
        requires
            old(self).blocks.len() < u32::MAX,
        ensures
            index == old(self).blocks.len(),
            final(self).blocks.len() == old(self).blocks.len() + 1,
            final(self).blocks_view() == old(self).blocks_view().push(
                tree_block(child_block, block_size, path_count),
            ),
            final(self).vars == old(self).vars,
    {
        let mut data: Vec<u8> = Vec::new();
        data.push(0x74u8);
        data.push(0x72u8);
        data.push(0x65u8);
        data.push(0x65u8);
        Self::write_u32_be(&mut data, 1);
        Self::write_u32_be(&mut data, child_block);
        Self::write_u32_be(&mut data, block_size);
        Self::write_u32_be(&mut data, path_count);
        data.push(0u8);
        assert(data@ =~= tree_block(child_block, block_size, path_count));
        self.add_block(data)
    }

    /// Adds a leaf without entries and returns its index.
    fn add_empty_leaf(&mut self) -> (index: u32)
        requires
            old(self).blocks.len() < u32::MAX,
        ensures
            index == old(self).blocks.len(),
            final(self).blocks.len() == old(self).blocks.len() + 1,
            final(self).blocks_view() == old(self).blocks_view().push(empty_leaf()),
            final(self).vars == old(self).vars,
    {
        let mut leaf_data: Vec<u8> = Vec::new();
        Self::write_u16_be(&mut leaf_data, 1);
        Self::write_u16_be(&mut leaf_data, 0);
        Self::write_u32_be(&mut leaf_data, 0);
        Self::write_u32_be(&mut leaf_data, 0);
        assert(leaf_data@ =~= empty_leaf());
        self.add_block(leaf_data)
    }

    /// Adds the tree of the paths, which points to the leaf `child_block`.
    pub fn build_tree(&mut self, child_block: u32, path_count: u32) -> (index: u32)
        requires
            old(self).blocks.len() < u32::MAX,
        ensures
            index == old(self).blocks.len(),
            final(self).blocks.len() == old(self).blocks.len() + 1,
            final(self).blocks_view() == old(self).blocks_view().push(
                tree_block(child_block, TREE_BLOCK_SIZE, path_count),
            ),
            final(self).vars == old(self).vars,
    {
        self.add_tree(child_block, TREE_BLOCK_SIZE, path_count)
    }

    /// Adds an empty tree: an empty leaf and a tree that points to it.
    /// Returns the index of the tree.
    pub fn build_empty_tree(&mut self) -> (index: u32)
        requires
            old(self).blocks.len() + 1 < u32::MAX,
        ensures
            index == old(self).blocks.len() + 1,
            final(self).blocks.len() == old(self).blocks.len() + 2,
            final(self).blocks_view() == old(self).blocks_view().push(empty_leaf()).push(
                tree_block(old(self).blocks.len() as u32, TREE_BLOCK_SIZE, 0),
            ),
            final(self).vars == old(self).vars,
    {
        let empty_leaf: u32 = self.add_empty_leaf();
        self.build_tree(empty_leaf, 0)
    }

    /// Adds the `VIndex` structure: an empty leaf, a tree with the block size
    /// of that index, and the descriptor. Returns the index of the descriptor.
    pub fn build_vindex(&mut self) -> (index: u32)
        requires
            old(self).blocks.len() + 2 < u32::MAX,
        ensures
            index == old(self).blocks.len() + 2,
            final(self).blocks.len() == old(self).blocks.len() + 3,
            final(self).blocks_view() == old(self).blocks_view().push(empty_leaf()).push(
                tree_block(old(self).blocks.len() as u32, VINDEX_BLOCK_SIZE, 0),
            ).push(vindex_block((old(self).blocks.len() + 1) as u32)),
            final(self).vars == old(self).vars,
    {
        let empty_leaf: u32 = self.add_empty_leaf();
        let tree_block: u32 = self.add_tree(empty_leaf, VINDEX_BLOCK_SIZE, 0);
        let mut vindex_data: Vec<u8> = Vec::new();
        Self::write_u32_be(&mut vindex_data, 1);
        Self::write_u32_be(&mut vindex_data, tree_block);
        Self::write_u32_be(&mut vindex_data, 0);
        vindex_data.push(0u8);
        assert(vindex_data@ =~= vindex_block(tree_block));
        self.add_block(vindex_data)
    }

    /// The length of the store, if 32 bits can hold it.
    pub fn store_len(&self) -> (len: Option<u32>)
        requires
            self.blocks.len() >= 1,
        ensures
            match len {
                Some(l) => l == bom_store_len(self.blocks_view(), self.vars_view()),
                None => bom_store_len(self.blocks_view(), self.vars_view()) > u32::MAX,
            },
    {
        let ghost bv = self.blocks_view();
        let ghost vv = self.vars_view();
        let limit: u64 = 0xFFFF_FFFF;
        let mut total: u64 = 516;
        let mut j: usize = 0;
        while j < self.vars.len()
            invariant
                j <= self.vars.len(),
                vv == self.vars_view(),
                limit == 0xFFFF_FFFFu64,
                total == 516 + var_entries(vv, j as int).len(),
                total <= limit,
            decreases self.vars.len() - j,
        {
            let name_len: usize = self.vars[j].0.as_str().as_bytes().len();
            proof {
                lemma_var_entries_len(vv, j + 1, vv.len() as int);
                lemma_block_data_len(bv, 0, bv.len() as int);
            }
            if name_len as u64 > limit - total || name_len as u64 + 5 > limit - total {
                return None;
            }
            total = total + name_len as u64 + 5;
            j += 1;
        }
        proof {
            lemma_block_data_len(bv, 0, bv.len() as int);
        }
        if 8 > limit - total {
            return None;
        }
        total = total + 8;
        let mut i: usize = 1;
        while i < self.blocks.len()
            invariant
                1 <= i <= self.blocks.len(),
                bv == self.blocks_view(),
                vv == self.vars_view(),
                limit == 0xFFFF_FFFFu64,
                total == 512 + vars_table(vv).len() + block_data(bv, i as int).len() + 8 * i,
                total <= limit,
            decreases self.blocks.len() - i,
        {
            let block_len: usize = self.blocks[i].len();
            proof {
                lemma_block_data_len(bv, i + 1, bv.len() as int);
            }
            if block_len as u64 > limit - total || block_len as u64 + 8 > limit - total {
                return None;
            }
            total = total + block_len as u64 + 8;
            i += 1;
        }
        if 8 > limit - total {
            return None;
        }
        Some((total + 8) as u32)
    }

    /// Lays the store out: header, variables, blocks, block table.
    pub fn build(self) -> (output: Vec<u8>)
        requires
            self.blocks.len() >= 1,
            bom_store_len(self.blocks_view(), self.vars_view()) <= u32::MAX,
        ensures
            output@ == bom_store(self.blocks_view(), self.vars_view()),
    {
        let ghost bv = self.blocks_view();
        let ghost vv = self.vars_view();
        proof {
            lemma_var_entries_len(vv, 0, vv.len() as int);
            lemma_block_data_len(bv, 0, bv.len() as int);
        }
        // Variables table, in insertion order.
        let mut vars_data: Vec<u8> = Vec::new();
        Self::write_u32_be(&mut vars_data, self.vars.len() as u32);
        let mut j: usize = 0;
        while j < self.vars.len()
            invariant
                j <= self.vars.len(),
                vv == self.vars_view(),
                vars_data@ == be32(vv.len() as u32) + var_entries(vv, j as int),
            decreases self.vars.len() - j,
        {
            let name = self.vars[j].0.as_str().as_bytes();
            Self::write_u32_be(&mut vars_data, self.vars[j].1);
            vars_data.push((name.len() % 256) as u8);
            push_bytes(&mut vars_data, name);
            j += 1;
            assert(vars_data@ =~= be32(vv.len() as u32) + var_entries(vv, j as int));
        }
        let blocks_start: usize = 512 + vars_data.len();
        // Block data and block table side by side.
        let mut data: Vec<u8> = Vec::new();
        let mut block_table: Vec<u8> = Vec::new();
        Self::write_u32_be(&mut block_table, self.blocks.len() as u32);
        Self::write_u32_be(&mut block_table, 0);
        Self::write_u32_be(&mut block_table, 0);
        let mut i: usize = 1;
        assert(block_table@ =~= be32(bv.len() as u32) + table_entries(bv, blocks_start as int, 1));
        while i < self.blocks.len()
            invariant
                1 <= i <= self.blocks.len(),
                bv == self.blocks_view(),
                vv == self.vars_view(),
                blocks_start == 512 + vars_table(vv).len(),
                bom_store_len(bv, vv) <= u32::MAX,
                data@ == block_data(bv, i as int),
                block_table@ == be32(bv.len() as u32) + table_entries(bv, blocks_start as int, i as int),
            decreases self.blocks.len() - i,
        {
            proof {
                lemma_block_data_len(bv, i + 1, bv.len() as int);
                lemma_block_data_len(bv, i as int, bv.len() as int);
            }
            Self::write_u32_be(&mut block_table, (blocks_start + data.len()) as u32);
            Self::write_u32_be(&mut block_table, self.blocks[i].len() as u32);
            push_bytes(&mut data, self.blocks[i].as_slice());
            i += 1;
            assert(block_table@ =~= be32(bv.len() as u32) + table_entries(
                bv,
                blocks_start as int,
                i as int,
            ));
        }
        Self::write_u32_be(&mut block_table, 0);
        proof {
            lemma_table_entries_len(bv, blocks_start as int, bv.len() as int);
        }
        assert(block_table@ =~= super::bom::block_table(bv, blocks_start as int));
        let index_offset: usize = blocks_start + data.len();

        let mut output: Vec<u8> = Vec::new();
        output.push(0x42u8);
        output.push(0x4fu8);
        output.push(0x4du8);
        output.push(0x53u8);
        output.push(0x74u8);
        output.push(0x6fu8);
        output.push(0x72u8);
        output.push(0x65u8);
        Self::write_u32_be(&mut output, 1);
        Self::write_u32_be(&mut output, (self.blocks.len() - 1) as u32);
        Self::write_u32_be(&mut output, index_offset as u32);
        Self::write_u32_be(&mut output, block_table.len() as u32);
        Self::write_u32_be(&mut output, 512);
        Self::write_u32_be(&mut output, vars_data.len() as u32);
        push_zeros(&mut output, 480);
        assert(output@ =~= bom_header(bv, vv));
        push_bytes(&mut output, vars_data.as_slice());
        push_bytes(&mut output, data.as_slice());
        push_bytes(&mut output, block_table.as_slice());
        output
    }
}

// ---------------------------------------------------------------------------
// Enumerating the paths
// ---------------------------------------------------------------------------

/// A path of the manifest as the writer holds it.
pub struct PathRecord {
    pub path: Vec<u8>,
    pub name: Vec<u8>,
    pub parent: usize,
    pub entry: Option<usize>,
}

impl View for PathRecord {
    type V = PathNode;

    open spec fn view(&self) -> PathNode {
        PathNode {
            path: self.path@,
            name: self.name@,
            parent: self.parent as int,
            entry: match self.entry {
                Some(i) => Some(i as int),
                None => None,
            },
        }
    }
}

/// The views of a sequence of records.
pub open spec fn records_view(v: Seq<PathRecord>) -> Seq<PathNode> {
    Seq::new(v.len(), |i: int| v[i]@)
}

/// Every record names an existing parent and an existing entry.
pub open spec fn records_bounded(v: Seq<PathRecord>, entry_count: int) -> bool {
    forall|i: int|
        0 <= i < v.len() ==> {
            &&& (#[trigger] v[i]).parent <= v.len()
            &&& (v[i].entry matches Some(j) ==> j < entry_count)
        }
}

/// Splits a path at its separators, dropping empty pieces.
pub fn split_components(path: &[u8]) -> (comps: Vec<Vec<u8>>)
    ensures
        seqs_of(comps@) == path_components(path@),
{
    let mut done: Vec<Vec<u8>> = Vec::new();
    let mut cur: Vec<u8> = Vec::new();
    let mut i: usize = 0;
    assert(path@.subrange(0, 0) =~= Seq::<u8>::empty());
    assert(seqs_of(done@) =~= Seq::<Seq<u8>>::empty());
    while i < path.len()
        invariant
            i <= path.len(),
            cur@.len() > 0 <==> (i > 0 && path@[i - 1] != SEP),
            path_components(path@.subrange(0, i as int)) == if cur@.len() > 0 {
                seqs_of(done@).push(cur@)
            } else {
                seqs_of(done@)
            },
        decreases path.len() - i,
    {
        let b: u8 = path[i];
        let ghost upto = path@.subrange(0, i + 1);
        let ghost old_done = seqs_of(done@);
        let ghost old_cur = cur@;
        assert(upto.drop_last() =~= path@.subrange(0, i as int));
        assert(upto.last() == b);
        if b == SEP {
            if cur.len() > 0 {
                done.push(cur);
                cur = Vec::new();
                assert(seqs_of(done@) =~= old_done.push(old_cur));
            }
        } else {
            cur.push(b);
            proof {
                if old_cur.len() > 0 {
                    assert(old_done.push(old_cur).drop_last() =~= old_done);
                } else {
                    assert(cur@ =~= seq![b]);
                }
            }
        }
        i += 1;
    }
    assert(path@.subrange(0, path.len() as int) =~= path@);
    if cur.len() > 0 {
        let ghost old_done = seqs_of(done@);
        let ghost old_cur = cur@;
        done.push(cur);
        assert(seqs_of(done@) =~= old_done.push(old_cur));
    }
    done
}

/// Position of the record whose path is `path`, if there is one.
fn find_record(nodes: &Vec<PathRecord>, path: &[u8]) -> (at: Option<usize>)
    ensures
        match at {
            Some(i) => i < nodes.len() && find_path(records_view(nodes@), path@, 0) == i,
            None => find_path(records_view(nodes@), path@, 0) == -1,
        },
{
    let mut i: usize = 0;
    while i < nodes.len()
        invariant
            i <= nodes.len(),
            find_path(records_view(nodes@), path@, 0) == find_path(
                records_view(nodes@),
                path@,
                i as int,
            ),
        decreases nodes.len() - i,
    {
        if bytes_equal(nodes[i].path.as_slice(), path) {
            return Some(i);
        }
        i += 1;
    }
    None
}

/// Adds the prefixes of one entry's path to the enumeration.
fn add_entry_paths(nodes: &mut Vec<PathRecord>, entry: &BomEntry, idx: usize, Ghost(count): Ghost<int>)
    requires
        records_bounded(old(nodes)@, count),
        old(nodes).len() >= 1,
        idx < count,
    ensures
        records_view(final(nodes)@) == add_components(
            records_view(old(nodes)@),
            path_components(entry@.path),
            0,
            1,
            entry@.path,
            idx as int,
        ),
        records_bounded(final(nodes)@, count),
        final(nodes).len() >= 1,
{
    let raw = entry.path.as_str().as_bytes();
    let comps = split_components(raw);
    let ghost cs = seqs_of(comps@);
    let ghost start = records_view(nodes@);
    let mut prefix: Vec<u8> = Vec::new();
    let mut parent: usize = 1;
    let mut k: usize = 0;
    while k < comps.len()
        invariant
            k <= comps.len(),
            cs == seqs_of(comps@),
            raw@ == entry@.path,
            prefix@ == prefix_of(cs, k as int),
            nodes.len() >= 1,
            parent <= nodes.len(),
            idx < count,
            records_bounded(nodes@, count),
            add_components(records_view(nodes@), cs, k as int, parent as int, raw@, idx as int)
                == add_components(start, cs, 0, 1, raw@, idx as int),
        decreases comps.len() - k,
    {
        if k > 0 {
            prefix.push(SEP);
        }
        push_bytes(&mut prefix, comps[k].as_slice());
        assert(prefix@ =~= prefix_of(cs, k + 1));
        match find_record(nodes, prefix.as_slice()) {
            Some(at) => {
                parent = at + 1;
            },
            None => {
                let bound: bool = bytes_equal(prefix.as_slice(), raw);
                let record = PathRecord {
                    path: copy_bytes(prefix.as_slice()),
                    name: copy_bytes(comps[k].as_slice()),
                    parent,
                    entry: if bound {
                        Some(idx)
                    } else {
                        None
                    },
                };
                let ghost before = records_view(nodes@);
                nodes.push(record);
                assert(records_view(nodes@) =~= before.push(record@));
                parent = nodes.len();
            },
        }
        k += 1;
    }
}

/// Enumerates every path of the manifest in id order.
fn enumerate_paths(entries: &[BomEntry]) -> (nodes: Vec<PathRecord>)
    ensures
        records_view(nodes@) == bom_paths(views(entries@)),
        records_bounded(nodes@, entries@.len() as int),
        nodes.len() >= 1,
{
    let mut nodes: Vec<PathRecord> = Vec::new();
    let mut root_path: Vec<u8> = Vec::new();
    root_path.push(0x2eu8);
    let mut root_name: Vec<u8> = Vec::new();
    root_name.push(0x2eu8);
    nodes.push(PathRecord { path: root_path, name: root_name, parent: 0, entry: None });
    assert(records_view(nodes@) =~= seq![root_node()]) by {
        assert(nodes@[0]@.path =~= root_node().path);
        assert(nodes@[0]@.name =~= root_node().name);
    }
    let mut i: usize = 0;
    while i < entries.len()
        invariant
            i <= entries.len(),
            nodes.len() >= 1,
            records_bounded(nodes@, entries@.len() as int),
            records_view(nodes@) == bom_paths_upto(views(entries@), i as int),
        decreases entries.len() - i,
    {
        add_entry_paths(&mut nodes, &entries[i], i, Ghost(entries@.len() as int));
        i += 1;
    }
    nodes
}

/// The `PathInfo2` record of a path.
fn build_path_info2(record: &PathRecord, entries: &[BomEntry]) -> (info2: Vec<u8>)
    requires
        record.entry matches Some(j) ==> j < entries@.len(),
    ensures
        info2@ == path_info2(record@, views(entries@)),
{
    let mut info2: Vec<u8> = Vec::new();
    match record.entry {
        Some(j) => {
            let entry = &entries[j];
            let is_dir: bool = entry.mode & 0o170000 == 0o040000;
            info2.push(if is_dir { TYPE_DIR } else { TYPE_FILE });
            info2.push(1u8);
            BomWriter::write_u16_be(&mut info2, 3);
            BomWriter::write_u16_be(&mut info2, (entry.mode & 0xFFFF) as u16);
            BomWriter::write_u32_be(&mut info2, entry.uid);
            BomWriter::write_u32_be(&mut info2, entry.gid);
            BomWriter::write_u32_be(&mut info2, 0);
            BomWriter::write_u32_be(&mut info2, (entry.size % 0x1_0000_0000) as u32);
            info2.push(1u8);
            BomWriter::write_u32_be(&mut info2, 0);
            BomWriter::write_u32_be(&mut info2, 0);
            assert(info2@ =~= path_info2(record@, views(entries@)));
        },
        None => {
            info2.push(TYPE_DIR);
            info2.push(1u8);
            BomWriter::write_u16_be(&mut info2, 3);
            BomWriter::write_u16_be(&mut info2, 0o40755);
            BomWriter::write_u32_be(&mut info2, 0);
            BomWriter::write_u32_be(&mut info2, 80);
            BomWriter::write_u32_be(&mut info2, 0);
            BomWriter::write_u32_be(&mut info2, 0);
            info2.push(1u8);
            BomWriter::write_u32_be(&mut info2, 0);
            BomWriter::write_u32_be(&mut info2, 0);
            assert(info2@ =~= path_info2(record@, views(entries@)));
        },
    }
    info2
}

/// Adds the `PathInfo2` block of every path.
fn add_info2_blocks(writer: &mut BomWriter, nodes: &Vec<PathRecord>, entries: &[BomEntry])
    requires
        records_bounded(nodes@, entries@.len() as int),
        old(writer).blocks.len() + nodes.len() < u32::MAX,
    ensures
        final(writer).blocks.len() == old(writer).blocks.len() + nodes.len(),
        final(writer).blocks_view() == old(writer).blocks_view() + info2_blocks(
            records_view(nodes@),
            views(entries@),
            nodes.len() as int,
        ),
        final(writer).vars == old(writer).vars,
{
    let ghost nv = records_view(nodes@);
    let ghost ev = views(entries@);
    let ghost head = writer.blocks_view();
    let n: usize = nodes.len();
    let mut i: usize = 0;
    assert(writer.blocks_view() =~= head + info2_blocks(nv, ev, 0));
    while i < n
        invariant
            i <= n,
            n == nodes.len(),
            nv == records_view(nodes@),
            ev == views(entries@),
            records_bounded(nodes@, entries@.len() as int),
            old(writer).blocks.len() + n < u32::MAX,
            writer.blocks.len() == old(writer).blocks.len() + i,
            writer.vars == old(writer).vars,
            writer.blocks_view() == head + info2_blocks(nv, ev, i as int),
        decreases n - i,
    {
        let info2 = build_path_info2(&nodes[i], entries);
        writer.add_block(info2);
        i += 1;
        assert(writer.blocks_view() =~= head + info2_blocks(nv, ev, i as int));
    }
}

/// Adds the `PathInfo1` block of each of `n` paths, whose `PathInfo2` blocks
/// start at block 2.
fn add_info1_blocks(writer: &mut BomWriter, n: usize)
    requires
        n < MAX_BLOCKS,
        old(writer).blocks.len() + n < u32::MAX,
    ensures
        final(writer).blocks.len() == old(writer).blocks.len() + n,
        final(writer).blocks_view() == old(writer).blocks_view() + info1_blocks(n as int),
        final(writer).vars == old(writer).vars,
{
    let ghost head = writer.blocks_view();
    let mut i: usize = 0;
    assert(writer.blocks_view() =~= head + info1_blocks(0));
    while i < n
        invariant
            i <= n,
            n < MAX_BLOCKS,
            old(writer).blocks.len() + n < u32::MAX,
            writer.blocks.len() == old(writer).blocks.len() + i,
            writer.vars == old(writer).vars,
            writer.blocks_view() == head + info1_blocks(i as int),
        decreases n - i,
    {
        let mut info1: Vec<u8> = Vec::new();
        BomWriter::write_u32_be(&mut info1, (i + 1) as u32);
        BomWriter::write_u32_be(&mut info1, (2 + i) as u32);
        assert(info1@ =~= path_info1((i + 1) as u32, (2 + i) as u32));
        writer.add_block(info1);
        i += 1;
        assert(writer.blocks_view() =~= head + info1_blocks(i as int));
    }
}

/// Adds the `BOMFile` block of every path: parent id and name.
fn add_file_blocks(writer: &mut BomWriter, nodes: &Vec<PathRecord>, Ghost(count): Ghost<int>)
    requires
        records_bounded(nodes@, count),
        nodes.len() < MAX_BLOCKS,
        old(writer).blocks.len() + nodes.len() < u32::MAX,
    ensures
        final(writer).blocks.len() == old(writer).blocks.len() + nodes.len(),
        final(writer).blocks_view() == old(writer).blocks_view() + file_blocks(
            records_view(nodes@),
            nodes.len() as int,
        ),
        final(writer).vars == old(writer).vars,
{
    let ghost nv = records_view(nodes@);
    let ghost head = writer.blocks_view();
    let n: usize = nodes.len();
    let mut i: usize = 0;
    assert(writer.blocks_view() =~= head + file_blocks(nv, 0));
    while i < n
        invariant
            i <= n,
            n == nodes.len(),
            n < MAX_BLOCKS,
            nv == records_view(nodes@),
            records_bounded(nodes@, count),
            old(writer).blocks.len() + n < u32::MAX,
            writer.blocks.len() == old(writer).blocks.len() + i,
            writer.vars == old(writer).vars,
            writer.blocks_view() == head + file_blocks(nv, i as int),
        decreases n - i,
    {
        let mut file_data: Vec<u8> = Vec::new();
        BomWriter::write_u32_be(&mut file_data, nodes[i].parent as u32);
        push_bytes(&mut file_data, nodes[i].name.as_slice());
        file_data.push(0u8);
        assert(file_data@ =~= bom_file(nv[i as int]));
        writer.add_block(file_data);
        i += 1;
        assert(writer.blocks_view() =~= head + file_blocks(nv, i as int));
    }
}

/// The paths leaf of `n` paths: one pair of block indices per path.
fn build_paths_leaf(n: usize) -> (paths_data: Vec<u8>)
    requires
        n < MAX_BLOCKS,
    ensures
        paths_data@ == paths_leaf(n as int),
{
    let mut paths_data: Vec<u8> = Vec::new();
    BomWriter::write_u16_be(&mut paths_data, 1);
    BomWriter::write_u16_be(&mut paths_data, (n % 0x1_0000) as u16);
    BomWriter::write_u32_be(&mut paths_data, 0);
    BomWriter::write_u32_be(&mut paths_data, 0);
    let ghost leaf_head = paths_data@;
    let mut i: usize = 0;
    assert(paths_data@ =~= leaf_head + leaf_pairs(n as int, 0));
    while i < n
        invariant
            i <= n,
            n < MAX_BLOCKS,
            paths_data@ == leaf_head + leaf_pairs(n as int, i as int),
        decreases n - i,
    {
        BomWriter::write_u32_be(&mut paths_data, (2 + n + i) as u32);
        BomWriter::write_u32_be(&mut paths_data, (2 + 2 * n + i) as u32);
        i += 1;
        assert(paths_data@ =~= leaf_head + leaf_pairs(n as int, i as int));
    }
    assert(paths_data@ =~= paths_leaf(n as int));
    paths_data
}

/// The `BomInfo` block for `n` paths.
fn build_bom_info(n: u32) -> (data: Vec<u8>)
    ensures
        data@ == bom_info(n),
{
    let mut data: Vec<u8> = Vec::new();
    BomWriter::write_u32_be(&mut data, 1);
    BomWriter::write_u32_be(&mut data, n);
    BomWriter::write_u32_be(&mut data, 1);
    push_zeros(&mut data, 16);
    assert(data@ =~= bom_info(n));
    data
}

/// Adds the blocks that follow the per-path blocks of `n` paths, and the
/// five variables that point into the store.
fn add_index_blocks(writer: &mut BomWriter, n: usize)
    requires
        old(writer).blocks.len() == 3 * n + 2,
        3 * n + 11 < MAX_BLOCKS,
        old(writer).vars_view() == Seq::<(Seq<u8>, u32)>::empty(),
    ensures
        final(writer).blocks.len() == 3 * n + 11,
        final(writer).blocks_view() == old(writer).blocks_view() + index_blocks(n as int),
        final(writer).vars_view() == bom_vars(n as int),
{
    let ghost head = writer.blocks_view();
    let paths_data = build_paths_leaf(n);
    let paths_leaf_block: u32 = writer.add_block(paths_data);
    let paths_tree_block: u32 = writer.build_tree(paths_leaf_block, n as u32);
    let hl_index_block: u32 = writer.build_empty_tree();
    let v_index_block: u32 = writer.build_vindex();
    let size64_block: u32 = writer.build_empty_tree();
    assert(writer.blocks_view() =~= head + index_blocks(n as int));
    let ghost blocks = writer.blocks_view();
    writer.add_var("BomInfo", 1);
    writer.add_var("Paths", paths_tree_block);
    writer.add_var("HLIndex", hl_index_block);
    writer.add_var("VIndex", v_index_block);
    writer.add_var("Size64", size64_block);
    assert(writer.vars_view() =~= bom_vars(n as int));
    assert(writer.blocks_view() == blocks);
}

/// Fills a fresh writer with every block and variable of the store.
fn fill_writer(nodes: &Vec<PathRecord>, entries: &[BomEntry]) -> (writer: BomWriter)
    requires
        records_bounded(nodes@, entries@.len() as int),
        3 * nodes.len() + 11 < MAX_BLOCKS,
    ensures
        writer.blocks_view() == bom_blocks(records_view(nodes@), views(entries@)),
        writer.vars_view() == bom_vars(nodes.len() as int),
        writer.blocks.len() >= 1,
{
    let ghost nv = records_view(nodes@);
    let ghost ev = views(entries@);
    let n: usize = nodes.len();
    let mut writer = BomWriter::new();

    // Block 1 is reserved for BomInfo and filled in once the paths are in.
    let mut reserved: Vec<u8> = Vec::new();
    push_zeros(&mut reserved, 28);
    let info_block: u32 = writer.add_block(reserved);
    let ghost b0 = writer.blocks_view();
    assert(b0.len() == 2);

    add_info2_blocks(&mut writer, nodes, entries);
    add_info1_blocks(&mut writer, n);
    add_file_blocks(&mut writer, nodes, Ghost(entries@.len() as int));
    add_index_blocks(&mut writer, n);
    let ghost filled = writer.blocks_view();
    assert(filled == b0 + info2_blocks(nv, ev, n as int) + info1_blocks(n as int) + file_blocks(
        nv,
        n as int,
    ) + index_blocks(n as int));

    writer.set_block(info_block, build_bom_info(n as u32));
    proof {
        let target = bom_blocks(nv, ev);
        let got = writer.blocks_view();
        assert(got.len() == target.len());
        assert forall|i: int| 0 <= i < got.len() implies got[i] == target[i] by {
            if i == 0 {
                assert(b0[0] =~= Seq::<u8>::empty());
            } else if i == 1 {
            } else {
                assert(got[i] == filled[i]);
            }
        }
        assert(got =~= target);
    }
    writer
}

/// Create a BOM from a list of entries.
///
/// Fails on an empty list, on a list with more than 65535 paths, and on a
/// list whose store would not fit 32-bit offsets; else returns the bytes of
/// the store.
pub fn create_bom(entries: &[BomEntry]) -> (result: Result<Vec<u8>, PackageError>)
    ensures
        entries@.len() == 0 ==> (result matches Err(PackageError::BomError { reason })
            && reason@ == "Cannot create BOM with no entries"@),
        entries@.len() > 0 && !bom_fits(views(entries@)) ==> (result matches Err(
            PackageError::BomError { reason },
        ) && reason@ == bom_failure(views(entries@))),
        entries@.len() > 0 && bom_fits(views(entries@)) ==> (result matches Ok(bytes) && bytes@
            == bom_bytes(views(entries@))),
{
    if entries.len() == 0 {
        return Err(
            PackageError::BomError { reason: String::from_str("Cannot create BOM with no entries") },
        );
    }
    let nodes = enumerate_paths(entries);
    assert(nodes@.len() == bom_paths(views(entries@)).len());
    if nodes.len() > MAX_PATHS {
        return Err(
            PackageError::BomError { reason: String::from_str("BOM holds more than 65535 paths") },
        );
    }
    let writer = fill_writer(&nodes, entries);
    match writer.store_len() {
        Some(_) => Ok(writer.build()),
        None => Err(
            PackageError::BomError { reason: String::from_str("BOM does not fit 32-bit offsets") },
        ),
    }
}

/// Create a BOM from what was found under a directory.
///
/// Fails on an empty directory, on more than 65535 paths, and where the
/// store would not fit 32-bit offsets; else returns the bytes of the store.
pub fn create_bom_from_directory(entries: &[crate::macos::payload::SourceEntry]) -> (result: Result<
    Vec<u8>,
    PackageError,
>)
    ensures
        entries@.len() == 0 ==> (result matches Err(PackageError::BomError { reason })
            && reason@ == "Cannot create BOM with no entries"@),
        entries@.len() > 0 && !bom_fits(crate::macos::payload::bom_entry_views(entries@)) ==> (
        result matches Err(PackageError::BomError { reason }) && reason@ == bom_failure(
            crate::macos::payload::bom_entry_views(entries@),
        )),
        entries@.len() > 0 && bom_fits(crate::macos::payload::bom_entry_views(entries@)) ==> (
        result matches Ok(bytes) && bytes@ == bom_bytes(
            crate::macos::payload::bom_entry_views(entries@),
        )),
{
    let records = crate::macos::payload::bom_entries(entries);
    create_bom(records.as_slice())
}

} // verus!
