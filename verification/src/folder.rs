//! Where a package is unpacked, and how that folder is made ready.

use vstd::prelude::*;
use crate::error::{text_of, UnpackError};
use crate::path::{
    extension_of, file_name, file_name_of, has_root, head_len, is_filler_before, is_parent_marker, join, joined,
    lemma_filler_behind_trimmed_end, lemma_last_dot_bounds, lemma_segment_start_bounds, lemma_segment_start_is,
    lemma_trimmed_end_bounds, name_extension, name_stem, names_current_dir, parent, parent_of, segment_start,
    stem_of_name, trimmed_end,
};

verus! {

/// The folder that the package at `path` is unpacked into: the package's path
/// without its extension. A path without an extension names no folder.
pub open spec fn unpack_folder_of(path: Seq<char>) -> Result<Seq<char>, UnpackError> {
    if extension_of(path) is Some {
        Ok(joined(parent_of(path)->0, stem_of_name(file_name_of(path)->0)))
    } else {
        Err(UnpackError::NoExtension)
    }
}

/// Names the folder that the package at `slpk_file_path` is unpacked into: it
/// lies beside the package and bears its name without the extension.
pub fn get_unpack_folder(slpk_file_path: &str) -> (folder: Result<String, UnpackError>)
    ensures
        text_of(folder) == unpack_folder_of(slpk_file_path@),
        folder is Ok <==> extension_of(slpk_file_path@) is Some,
        folder is Err ==> folder == Err::<String, UnpackError>(UnpackError::NoExtension),
{
    let name: String = match file_name(slpk_file_path) {
        Some(name) => name,
        None => {
            return Err(UnpackError::NoExtension);
        },
    };
    if name_extension(name.as_str()).is_none() {
        return Err(UnpackError::NoExtension);
    }
    let stem: String = name_stem(name.as_str());
    match parent(slpk_file_path) {
        Some(beside) => Ok(join(beside.as_str(), stem.as_str())),
        None => Err(UnpackError::NoExtension),
    }
}

/// The unpack folder lies where the package lies and is named by the stem of
/// the package's file name: the folder's parent is the package's parent, and
/// the folder's file name is that stem. This holds unless the stem is `.` or
/// `..`, which name no file.
pub proof fn unpack_folder_is_beside_package(path: Seq<char>)
    requires
        unpack_folder_of(path) is Ok,
        !is_parent_marker(stem_of_name(file_name_of(path)->0)),
        stem_of_name(file_name_of(path)->0) != seq!['.'],
    ensures
        parent_of(unpack_folder_of(path)->Ok_0) == parent_of(path),
        file_name_of(unpack_folder_of(path)->Ok_0) == Some(stem_of_name(file_name_of(path)->0)),
{
    let head = head_len(path);
    let end = trimmed_end(path, path.len() as int);
    let start = segment_start(path, end);
    let cut = trimmed_end(path, start);
    lemma_trimmed_end_bounds(path, path.len() as int);
    lemma_segment_start_bounds(path, end);
    lemma_trimmed_end_bounds(path, start);
    let beside = path.subrange(0, cut);
    let name = path.subrange(start, end);
    let stem = stem_of_name(name);
    let folder = joined(beside, stem);
    lemma_last_dot_bounds(name, name.len() as int);
    assert(stem.len() > 0);
    assert(stem =~= name.subrange(0, stem.len() as int));
    assert forall|i: int| 0 <= i < stem.len() implies stem[i] != '/' by {
        assert(stem[i] == path[start + i]);
    }
    assert(stem.len() == 1 ==> stem[0] != '.') by {
        if stem.len() == 1 && stem[0] == '.' {
            assert(stem =~= seq!['.']);
        }
    }
    assert(!has_root(stem));
    if cut < start {
        lemma_filler_behind_trimmed_end(path, start, cut + 1);
    }
    let bare = beside.len() == 0 || beside.last() == '/';
    assert(bare ==> cut == head);
    let gap: int = if bare {
        0
    } else {
        1
    };
    assert(folder.len() == cut + gap + stem.len());
    assert forall|i: int| 0 <= i < cut implies folder[i] == path[i] by {
        assert(beside[i] == path[i]);
    }
    assert forall|i: int| 0 <= i < stem.len() implies folder[cut + gap + i] == stem[i] by {}
    assert(!bare ==> folder[cut] == '/');
    assert(has_root(folder) == has_root(path));
    assert(names_current_dir(folder) == names_current_dir(path)) by {
        if cut == 1 && path[0] == '.' {
            assert(names_current_dir(path));
            assert(folder[1] == '/');
        }
    }
    assert(head_len(folder) == head);
    let name_at = cut + gap;
    let len = folder.len() as int;
    assert(!is_filler_before(folder, len)) by {
        assert(folder[len - 1] == stem[stem.len() - 1]);
        if stem.len() >= 2 {
            assert(folder[len - 2] == stem[stem.len() - 2]);
        }
    }
    assert(trimmed_end(folder, len) == len);
    assert forall|i: int| name_at <= i < len implies folder[i] != '/' by {
        assert(folder[i] == stem[i - name_at]);
    }
    lemma_segment_start_is(folder, name_at, len);
    assert(folder.subrange(name_at, len) =~= stem);
    assert(!is_filler_before(folder, cut)) by {
        if cut > head {
            assert(!is_filler_before(path, cut));
            assert(folder[cut - 1] == path[cut - 1]);
            if cut - 2 >= 0 {
                assert(folder[cut - 2] == path[cut - 2]);
            }
        }
    }
    assert(trimmed_end(folder, cut) == cut);
    assert(trimmed_end(folder, name_at) == cut) by {
        if !bare {
            assert(is_filler_before(folder, name_at));
        }
    }
    assert(folder.subrange(0, cut) =~= beside);
}

/// What stands at the path of the output folder before a run.
#[derive(Debug, Clone, Copy, PartialEq, Eq, Structural)]
pub enum Occupant {
    /// Nothing exists there.
    Nothing,
    /// A directory, left by an earlier run or by anyone else.
    Directory,
    /// A regular file.
    File,
    /// Something that is neither a directory nor a regular file.
    Other,
}

/// How the output folder is made ready.
#[derive(Debug, Clone, Copy, PartialEq, Eq, Structural)]
pub enum Preparation {
    /// Create the folder.
    Create,
    /// Delete the directory that stands there with all it holds, then create
    /// the folder anew.
    Replace,
}

/// The preparation that `occupant` calls for. A directory is replaced, so a
/// second run starts from an empty folder as the first did; a regular file is
/// left alone and the run fails.
pub open spec fn preparation_for(occupant: Occupant) -> Result<Preparation, UnpackError> {
    match occupant {
        Occupant::Nothing => Ok(Preparation::Create),
        Occupant::Directory => Ok(Preparation::Replace),
        Occupant::File => Err(UnpackError::OutputIsFile),
        Occupant::Other => Ok(Preparation::Create),
    }
}

/// Decides how the output folder is made ready, given what stands at its path.
pub fn prepare_folder(occupant: Occupant) -> (preparation: Result<Preparation, UnpackError>)
    ensures
        preparation == preparation_for(occupant),
{
    match occupant {
        Occupant::Nothing => Ok(Preparation::Create),
        Occupant::Directory => Ok(Preparation::Replace),
        Occupant::File => Err(UnpackError::OutputIsFile),
        Occupant::Other => Ok(Preparation::Create),
    }
}

} // verus!
