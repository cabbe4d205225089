//! Paths as text, with `/` between components, and what is known of a path
//! on disk.

use vstd::prelude::*;
use vstd::string::StringExecFns;

use crate::text::{chars_of, find_last, last_index_of, lemma_last_index_of, slice_text};

verus! {

/// What was found at a path on disk.
#[derive(Debug, Clone, Copy, PartialEq, Eq, Structural)]
pub struct PathFacts {
    /// Something exists at the path.
    pub exists: bool,
    /// It is a directory.
    pub is_dir: bool,
    /// It is a regular file.
    pub is_file: bool,
}

/// `name` inside `folder`. A name that starts with `/` stands for itself,
/// and so does any name inside the empty folder.
pub open spec fn joined(folder: Seq<char>, name: Seq<char>) -> Seq<char> {
    if name.len() > 0 && name[0] == '/' {
        name
    } else if folder.len() == 0 {
        name
    } else if folder.last() == '/' {
        folder + name
    } else {
        folder + "/"@ + name
    }
}

/// The path of `name` inside `folder`.
pub fn join_path(folder: &str, name: &str) -> (path: String)
    ensures
        path@ == joined(folder@, name@),
{
    let name_chars = chars_of(name);
    if name_chars.len() > 0 && name_chars[0] == '/' {
        return String::from_str(name);
    }
    let folder_chars = chars_of(folder);
    if folder_chars.len() == 0 {
        return String::from_str(name);
    }
    let mut path = String::from_str(folder);
    if folder_chars[folder_chars.len() - 1] != '/' {
        path.append("/");
    }
    path.append(name);
    path
}

/// A path without what stands at its end and names nothing: slashes, and a
/// `.` that follows a slash.
pub open spec fn trimmed(path: Seq<char>) -> Seq<char>
    decreases path.len(),
{
    if path.len() > 0 && path.last() == '/' {
        trimmed(path.drop_last())
    } else if path.len() >= 2 && path.last() == '.' && path[path.len() - 2] == '/' {
        trimmed(path.drop_last())
    } else {
        path
    }
}

/// How many of the first `end` characters stay when they are trimmed.
fn trimmed_length(chars: &Vec<char>, end: usize) -> (kept: usize)
    requires
        end <= chars.len(),
    ensures
        kept <= end,
        trimmed(chars@.subrange(0, end as int)) == chars@.subrange(0, kept as int),
{
    let mut kept: usize = end;
    while kept > 0 && (chars[kept - 1] == '/' || (kept >= 2 && chars[kept - 1] == '.' && chars[kept
        - 2] == '/'))
        invariant
            kept <= end <= chars.len(),
            trimmed(chars@.subrange(0, end as int)) == trimmed(chars@.subrange(0, kept as int)),
        decreases kept,
    {
        assert(chars@.subrange(0, kept as int).drop_last() =~= chars@.subrange(0, kept - 1));
        kept -= 1;
    }
    kept
}

/// The last component of a path: what follows the last `/` of the trimmed
/// path.
pub open spec fn last_component(path: Seq<char>) -> Seq<char> {
    let kept = trimmed(path);
    kept.subrange(last_index_of(kept, '/') + 1, kept.len() as int)
}

/// The stem of the file that a path names: its last component without the
/// extension. A name without `.` and a name whose only `.` comes first are
/// their own stems. There is no stem where the last component is empty, `.`
/// or `..`.
pub open spec fn stem_of(path: Seq<char>) -> Option<Seq<char>> {
    let name = last_component(path);
    if name.len() == 0 || name == seq!['.'] || name == seq!['.', '.'] {
        None
    } else {
        let dot = last_index_of(name, '.');
        if dot <= 0 {
            Some(name)
        } else {
            Some(name.subrange(0, dot))
        }
    }
}

/// The stem of the file that a path names.
pub fn file_stem(path: &str) -> (stem: Option<String>)
    ensures
        match stem_of(path@) {
            Some(text) => stem matches Some(s) && s@ == text,
            None => stem is None,
        },
{
    let all = chars_of(path);
    let end = trimmed_length(&all, all.len());
    assert(all@.subrange(0, all.len() as int) =~= path@);
    let kept = slice_text(path, 0, end);
    let chars = chars_of(kept.as_str());
    let from: usize = match find_last(&chars, '/') {
        Some(slash) => slash + 1,
        None => 0,
    };
    proof {
        lemma_last_index_of(kept@, '/');
    }
    let name = slice_text(kept.as_str(), from, chars.len());
    let name_chars = chars_of(name.as_str());
    if name_chars.len() == 0 {
        return None;
    }
    if name_chars.len() == 1 && name_chars[0] == '.' {
        assert(name@ =~= seq!['.']);
        return None;
    }
    if name_chars.len() == 2 && name_chars[0] == '.' && name_chars[1] == '.' {
        assert(name@ =~= seq!['.', '.']);
        return None;
    }
    assert(name@ != seq!['.'] && name@ != seq!['.', '.']) by {
        if name@ == seq!['.'] {
            assert(name@.len() == 1 && name@[0] == '.');
        }
        if name@ == seq!['.', '.'] {
            assert(name@.len() == 2 && name@[0] == '.' && name@[1] == '.');
        }
    }
    proof {
        lemma_last_index_of(name@, '.');
    }
    match find_last(&name_chars, '.') {
        Some(dot) => {
            if dot == 0 {
                Some(name)
            } else {
                Some(slice_text(name.as_str(), 0, dot))
            }
        },
        None => Some(name),
    }
}

/// The folder that holds a path: what stands before the last `/` of the
/// trimmed path, trimmed in its turn; the root for a path directly under it;
/// the empty folder for a path without `/`. The root and the empty path have
/// none.
pub open spec fn parent_of(path: Seq<char>) -> Option<Seq<char>> {
    let kept = trimmed(path);
    let slash = last_index_of(kept, '/');
    if kept.len() == 0 {
        None
    } else if slash < 0 {
        Some(Seq::empty())
    } else {
        let folder = trimmed(kept.subrange(0, slash));
        if folder.len() == 0 {
            Some(seq!['/'])
        } else {
            Some(folder)
        }
    }
}

/// The folder that holds a path.
pub fn parent_path(path: &str) -> (parent: Option<String>)
    ensures
        match parent_of(path@) {
            Some(text) => parent matches Some(p) && p@ == text,
            None => parent is None,
        },
{
    let all = chars_of(path);
    let end = trimmed_length(&all, all.len());
    assert(all@.subrange(0, all.len() as int) =~= path@);
    if end == 0 {
        return None;
    }
    let kept = slice_text(path, 0, end);
    let chars = chars_of(kept.as_str());
    proof {
        lemma_last_index_of(kept@, '/');
    }
    match find_last(&chars, '/') {
        None => {
            let parent = String::new();
            Some(parent)
        },
        Some(slash) => {
            let length = trimmed_length(&chars, slash);
            if length == 0 {
                let parent = String::from_str("/");
                assert(parent@ =~= seq!['/']) by {
                    reveal_strlit("/");
                }
                Some(parent)
            } else {
                Some(slice_text(kept.as_str(), 0, length))
            }
        },
    }
}

} // verus!
