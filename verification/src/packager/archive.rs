//! The files of a source folder, as they go into the package.

use vstd::prelude::*;
use vstd::seq_lib::{to_multiset_build, to_multiset_insert};
use vstd::string::StringExecFns;
use vstd::utf8::encode_utf8;

use crate::models::error::{PackageError, PackageResult};
use crate::models::package::{SourceFile, SourcePackage};
use crate::text::{replace_char, replaced, split_on, split_text, texts_of};

verus! {

/// Whether `a` comes before `b`, or is `b`, in the order of the dictionary:
/// the first byte that differs decides, and a text comes before its
/// extensions.
pub open spec fn lex_le(a: Seq<u8>, b: Seq<u8>) -> bool
    decreases a.len(),
{
    if a.len() == 0 {
        true
    } else if b.len() == 0 {
        false
    } else if a[0] != b[0] {
        a[0] < b[0]
    } else {
        lex_le(a.drop_first(), b.drop_first())
    }
}

/// Of two texts, one comes before the other or they are the same.
pub proof fn lemma_lex_le_total(a: Seq<u8>, b: Seq<u8>)
    ensures
        lex_le(a, b) || lex_le(b, a),
    decreases a.len(),
{
    if a.len() > 0 && b.len() > 0 && a[0] == b[0] {
        lemma_lex_le_total(a.drop_first(), b.drop_first());
    }
}

/// What comes before a text comes before what the text comes before.
pub proof fn lemma_lex_le_transitive(a: Seq<u8>, b: Seq<u8>, c: Seq<u8>)
    requires
        lex_le(a, b),
        lex_le(b, c),
    ensures
        lex_le(a, c),
    decreases a.len(),
{
    if a.len() > 0 && b.len() > 0 && c.len() > 0 && a[0] == b[0] && b[0] == c[0] {
        lemma_lex_le_transitive(a.drop_first(), b.drop_first(), c.drop_first());
    }
}

/// Whether `a` comes before `b` or is `b`.
pub fn comes_first(a: &[u8], b: &[u8]) -> (first: bool)
    ensures
        first == lex_le(a@, b@),
{
    let mut i: usize = 0;
    assert(a@.subrange(0, a@.len() as int) =~= a@);
    assert(b@.subrange(0, b@.len() as int) =~= b@);
    while i < a.len() && i < b.len()
        invariant
            i <= a.len(),
            i <= b.len(),
            lex_le(a@, b@) == lex_le(
                a@.subrange(i as int, a@.len() as int),
                b@.subrange(i as int, b@.len() as int),
            ),
        decreases a.len() - i,
    {
        let ghost rest_a = a@.subrange(i as int, a@.len() as int);
        let ghost rest_b = b@.subrange(i as int, b@.len() as int);
        assert(rest_a[0] == a@[i as int] && rest_b[0] == b@[i as int]);
        assert(rest_a.drop_first() =~= a@.subrange(i + 1, a@.len() as int));
        assert(rest_b.drop_first() =~= b@.subrange(i + 1, b@.len() as int));
        if a[i] != b[i] {
            return a[i] < b[i];
        }
        i += 1;
    }
    i == a.len()
}

/// The rank of a byte in the order of paths: the separator `/` comes before
/// every other byte, and the others keep their order among themselves.
pub open spec fn path_rank(byte: u8) -> u8 {
    if byte == 0x2f {
        0
    } else if byte < 0x2f {
        (byte + 1) as u8
    } else {
        byte
    }
}

/// The key of a path: the rank of each of its bytes. In the order of the
/// dictionary, the keys of two paths stand as the paths do when they are
/// compared component by component: the first component that differs
/// decides, and a path comes before what lies below it.
pub open spec fn path_key(path: Seq<u8>) -> Seq<u8> {
    Seq::new(path.len(), |i: int| path_rank(path[i]))
}

/// The key of a path.
pub fn key_of(path: &str) -> (key: Vec<u8>)
    ensures
        key@ == path_key(encode_utf8(path@)),
{
    let bytes = path.as_bytes();
    let mut key: Vec<u8> = Vec::new();
    let mut i: usize = 0;
    while i < bytes.len()
        invariant
            i <= bytes.len(),
            bytes@ == encode_utf8(path@),
            key@.len() == i,
            forall|j: int| 0 <= j < i ==> key@[j] == path_rank(bytes@[j]),
        decreases bytes.len() - i,
    {
        let byte: u8 = bytes[i];
        if byte == 0x2f {
            key.push(0u8);
        } else if byte < 0x2f {
            key.push(byte + 1);
        } else {
            key.push(byte);
        }
        i += 1;
    }
    assert(key@ =~= path_key(encode_utf8(path@)));
    key
}

/// The key of the path of a file, by which the files are ordered.
pub open spec fn sort_key(file: SourceFile) -> Seq<u8> {
    path_key(encode_utf8(file.relative_path@))
}

/// Whether the files stand in the order of their paths, compared component
/// by component.
pub open spec fn is_sorted(files: Seq<SourceFile>) -> bool {
    forall|i: int, j: int|
        0 <= i < j < files.len() ==> lex_le(sort_key(#[trigger] files[i]), sort_key(
            #[trigger] files[j],
        ))
}

/// The files in the order of their paths, compared component by component.
pub fn sort_files(files: &Vec<SourceFile>) -> (sorted: Vec<SourceFile>)
    ensures
        is_sorted(sorted@),
        sorted@.to_multiset() == files@.to_multiset(),
{
    let mut sorted: Vec<SourceFile> = Vec::new();
    let mut k: usize = 0;
    assert(files@.subrange(0, 0) =~= Seq::<SourceFile>::empty());
    while k < files.len()
        invariant
            k <= files.len(),
            is_sorted(sorted@),
            sorted@.to_multiset() == files@.subrange(0, k as int).to_multiset(),
        decreases files.len() - k,
    {
        let file = SourceFile {
            relative_path: files[k].relative_path.clone(),
            size: files[k].size,
            is_setup_file: files[k].is_setup_file,
        };
        assert(file == files@[k as int]);
        let key = key_of(file.relative_path.as_str());
        let mut at: usize = 0;
        while at < sorted.len() && comes_first(
            key_of(sorted[at].relative_path.as_str()).as_slice(),
            key.as_slice(),
        )
            invariant
                at <= sorted.len(),
                key@ == sort_key(file),
                forall|i: int| 0 <= i < at ==> lex_le(sort_key(#[trigger] sorted@[i]), key@),
            decreases sorted.len() - at,
        {
            at += 1;
        }
        let ghost before = sorted@;
        proof {
            assert forall|j: int| at <= j < before.len() implies lex_le(
                sort_key(file),
                sort_key(#[trigger] before[j]),
            ) by {
                lemma_lex_le_total(sort_key(before[at as int]), sort_key(file));
                if j > at {
                    assert(lex_le(sort_key(before[at as int]), sort_key(before[j])));
                    lemma_lex_le_transitive(
                        sort_key(file),
                        sort_key(before[at as int]),
                        sort_key(before[j]),
                    );
                }
            }
            to_multiset_insert(before, at as int, file);
            to_multiset_build(files@.subrange(0, k as int), file);
            assert(files@.subrange(0, k + 1) =~= files@.subrange(0, k as int).push(file));
        }
        sorted.insert(at, file);
        assert(is_sorted(sorted@)) by {
            assert forall|i: int, j: int| 0 <= i < j < sorted@.len() implies lex_le(
                sort_key(#[trigger] sorted@[i]),
                sort_key(#[trigger] sorted@[j]),
            ) by {
                let a = if i < at {
                    i
                } else {
                    i - 1
                };
                let b = if j < at {
                    j
                } else {
                    j - 1
                };
                if i != at && j != at {
                    assert(sorted@[i] == before[a] && sorted@[j] == before[b]);
                    assert(lex_le(sort_key(before[a]), sort_key(before[b])));
                } else if i == at {
                    assert(sorted@[j] == before[b]);
                } else {
                    assert(sorted@[i] == before[a]);
                }
            }
        }
        k += 1;
    }
    assert(files@.subrange(0, files@.len() as int) =~= files@);
    sorted
}

/// Whether the names stand in the order of the dictionary.
pub open spec fn names_sorted(names: Seq<String>) -> bool {
    forall|i: int, j: int|
        0 <= i < j < names.len() ==> lex_le(
            encode_utf8((#[trigger] names[i])@),
            encode_utf8((#[trigger] names[j])@),
        )
}

/// The names in the order of the dictionary.
pub fn sort_names(names: &Vec<String>) -> (sorted: Vec<String>)
    ensures
        names_sorted(sorted@),
        sorted@.to_multiset() == names@.to_multiset(),
{
    let mut sorted: Vec<String> = Vec::new();
    let mut k: usize = 0;
    assert(names@.subrange(0, 0) =~= Seq::<String>::empty());
    while k < names.len()
        invariant
            k <= names.len(),
            names_sorted(sorted@),
            sorted@.to_multiset() == names@.subrange(0, k as int).to_multiset(),
        decreases names.len() - k,
    {
        let name = names[k].clone();
        assert(name == names@[k as int]);
        let key = name.as_str().as_bytes();
        let mut at: usize = 0;
        while at < sorted.len() && comes_first(sorted[at].as_str().as_bytes(), key)
            invariant
                at <= sorted.len(),
                key@ == encode_utf8(name@),
                forall|i: int|
                    0 <= i < at ==> lex_le(encode_utf8((#[trigger] sorted@[i])@), key@),
            decreases sorted.len() - at,
        {
            at += 1;
        }
        let ghost before = sorted@;
        proof {
            assert forall|j: int| at <= j < before.len() implies lex_le(
                encode_utf8(name@),
                encode_utf8((#[trigger] before[j])@),
            ) by {
                lemma_lex_le_total(encode_utf8(before[at as int]@), encode_utf8(name@));
                if j > at {
                    assert(lex_le(encode_utf8(before[at as int]@), encode_utf8(before[j]@)));
                    lemma_lex_le_transitive(
                        encode_utf8(name@),
                        encode_utf8(before[at as int]@),
                        encode_utf8(before[j]@),
                    );
                }
            }
            to_multiset_insert(before, at as int, name);
            to_multiset_build(names@.subrange(0, k as int), name);
            assert(names@.subrange(0, k + 1) =~= names@.subrange(0, k as int).push(name));
        }
        sorted.insert(at, name);
        assert(names_sorted(sorted@)) by {
            assert forall|i: int, j: int| 0 <= i < j < sorted@.len() implies lex_le(
                encode_utf8((#[trigger] sorted@[i])@),
                encode_utf8((#[trigger] sorted@[j])@),
            ) by {
                let a = if i < at {
                    i
                } else {
                    i - 1
                };
                let b = if j < at {
                    j
                } else {
                    j - 1
                };
                if i != at && j != at {
                    assert(sorted@[i] == before[a] && sorted@[j] == before[b]);
                    assert(lex_le(encode_utf8(before[a]@), encode_utf8(before[b]@)));
                } else if i == at {
                    assert(sorted@[j] == before[b]);
                } else {
                    assert(sorted@[i] == before[a]);
                }
            }
        }
        k += 1;
    }
    assert(names@.subrange(0, names@.len() as int) =~= names@);
    sorted
}

/// The number of non-empty pieces among the first `k`.
pub open spec fn non_empty_count(pieces: Seq<Seq<char>>, k: int) -> nat
    decreases k,
{
    if k <= 0 {
        0
    } else {
        non_empty_count(pieces, k - 1) + if pieces[k - 1].len() > 0 {
            1nat
        } else {
            0nat
        }
    }
}

/// Whether a relative path names the setup file: it has one component, so it
/// lies at the root of the source folder, and it is the setup file's name.
pub open spec fn names_setup_file(relative_path: Seq<char>, setup_file: Seq<char>) -> bool {
    let pieces = split_on(relative_path, '/');
    non_empty_count(pieces, pieces.len() as int) == 1 && relative_path == setup_file
}

/// Check if a relative path matches the setup file name.
pub fn is_setup_file(relative_path: &str, setup_file: &str) -> (is_setup: bool)
    ensures
        is_setup == names_setup_file(relative_path@, setup_file@),
{
    let parts = split_text(relative_path, '/');
    let ghost pieces = texts_of(parts@);
    let mut count: usize = 0;
    let mut i: usize = 0;
    while i < parts.len()
        invariant
            i <= parts.len(),
            pieces == texts_of(parts@),
            count == non_empty_count(pieces, i as int),
            count <= i,
        decreases parts.len() - i,
    {
        assert(pieces[i as int] == parts[i as int]@);
        if parts[i].as_str().as_bytes().len() > 0 {
            proof {
                lemma_empty_text(parts[i as int]@);
            }
            count += 1;
        } else {
            proof {
                lemma_empty_text(parts[i as int]@);
            }
        }
        i += 1;
    }
    if count != 1 {
        return false;
    }
    String::from_str(relative_path) == String::from_str(setup_file)
}

/// A text without bytes is a text without characters.
proof fn lemma_empty_text(text: Seq<char>)
    ensures
        encode_utf8(text).len() == 0 <==> text.len() == 0,
{
    if text.len() > 0 {
        vstd::utf8::encode_utf8_first_scalar(text);
        assert(encode_utf8(text).len() > 0);
    }
}

/// Normalize path separators to forward slashes, as ZIP archives have them.
pub fn normalize_path(path: &str) -> (normal: String)
    ensures
        normal@ == replaced(path@, '\\', "/"@),
{
    replace_char(path, '\\', "/")
}

/// A file that was found in the source folder.
pub struct FoundFile {
    /// Path relative to the source folder.
    pub relative_path: String,
    /// Size in bytes.
    pub size: u64,
}

/// The files found, as files of a source package: each with its size, and
/// marked where it is the setup file.
pub open spec fn as_source_files(found: Seq<FoundFile>, setup_file: Seq<char>) -> Seq<SourceFile> {
    Seq::new(
        found.len(),
        |i: int|
            SourceFile {
                relative_path: found[i].relative_path,
                size: found[i].size,
                is_setup_file: names_setup_file(found[i].relative_path@, setup_file),
            },
    )
}

/// The sizes of the first `k` files found, added up.
pub open spec fn sizes_sum(found: Seq<FoundFile>, k: int) -> int
    decreases k,
{
    if k <= 0 {
        0
    } else {
        sizes_sum(found, k - 1) + found[k - 1].size
    }
}

/// Whether one of the first `k` files found is the setup file.
pub open spec fn setup_found(found: Seq<FoundFile>, setup_file: Seq<char>, k: int) -> bool {
    exists|i: int| 0 <= i < k && names_setup_file(#[trigger] found[i].relative_path@, setup_file)
}

proof fn lemma_sizes_sum_grows(found: Seq<FoundFile>, j: int, k: int)
    requires
        0 <= j <= k,
    ensures
        sizes_sum(found, j) <= sizes_sum(found, k),
    decreases k - j,
{
    if j < k {
        lemma_sizes_sum_grows(found, j, k - 1);
    }
}

/// Collect the files of the source folder into a source package.
///
/// `files` are the files found under the folder, directories left out and
/// links followed. The package holds them in the order of their paths, each
/// with its size and marked where it is the setup file, and their sizes
/// added up. The call fails where the folder does not exist, where the sizes
/// do not add up in 64 bits, and where the setup file is not among the
/// files at the root of the folder.
pub fn collect_source_files(
    source_folder: &str,
    folder_exists: bool,
    setup_file: &str,
    files: &[FoundFile],
) -> (result: PackageResult<SourcePackage>)
    ensures
        !folder_exists ==> (result matches Err(PackageError::SourceFolderNotFound { path })
            && path@ == source_folder@),
        folder_exists && sizes_sum(files@, files@.len() as int) > u64::MAX ==> (result matches Err(
            PackageError::SourceReadError { path, reason },
        ) && reason@ == "Total size does not fit 64 bits"@),
        folder_exists && sizes_sum(files@, files@.len() as int) <= u64::MAX && !setup_found(
            files@,
            setup_file@,
            files@.len() as int,
        ) ==> (result matches Err(PackageError::SetupFileNotFound { file, folder }) && file@
            == setup_file@ && folder@ == source_folder@),
        folder_exists && sizes_sum(files@, files@.len() as int) <= u64::MAX && setup_found(
            files@,
            setup_file@,
            files@.len() as int,
        ) ==> (result matches Ok(package) && {
            &&& package.root@ == source_folder@
            &&& package.setup_file@ == setup_file@
            &&& is_sorted(package.files@)
            &&& package.files@.to_multiset() == as_source_files(files@, setup_file@).to_multiset()
            &&& package.total_size == sizes_sum(files@, files@.len() as int)
        }),
{
    if !folder_exists {
        return Err(PackageError::SourceFolderNotFound { path: String::from_str(source_folder) });
    }
    let mut package = SourcePackage::new(
        String::from_str(source_folder),
        String::from_str(setup_file),
    );
    let mut found_setup = false;
    let ghost wanted = as_source_files(files@, setup_file@);
    let mut i: usize = 0;
    assert(package.files@ =~= wanted.subrange(0, 0));
    while i < files.len()
        invariant
            i <= files.len(),
            folder_exists,
            wanted == as_source_files(files@, setup_file@),
            package.root@ == source_folder@,
            package.setup_file@ == setup_file@,
            package.files@ == wanted.subrange(0, i as int),
            package.total_size == sizes_sum(files@, i as int),
            found_setup == setup_found(files@, setup_file@, i as int),
        decreases files.len() - i,
    {
        let file = &files[i];
        let is_setup = is_setup_file(file.relative_path.as_str(), setup_file);
        if file.size > u64::MAX - package.total_size {
            proof {
                lemma_sizes_sum_grows(files@, i + 1, files@.len() as int);
            }
            return Err(
                PackageError::SourceReadError {
                    path: file.relative_path.clone(),
                    reason: String::from_str("Total size does not fit 64 bits"),
                },
            );
        }
        if is_setup {
            found_setup = true;
        }
        package.add_file(file.relative_path.clone(), file.size, is_setup);
        assert(package.files@ =~= wanted.subrange(0, i + 1)) by {
            assert(wanted.subrange(0, i + 1) =~= wanted.subrange(0, i as int).push(
                wanted[i as int],
            ));
        }
        i += 1;
    }
    assert(wanted.subrange(0, files@.len() as int) =~= wanted);
    if !found_setup {
        return Err(
            PackageError::SetupFileNotFound {
                file: String::from_str(setup_file),
                folder: String::from_str(source_folder),
            },
        );
    }
    let sorted = sort_files(&package.files);
    package.files = sorted;
    Ok(package)
}

} // verus!
