//! Where an entry of the package lands in the output folder, and as what.

use vstd::prelude::*;
use vstd::string::*;
use crate::content::{gzip_content, json_two_space, render, rendered, Treatment};
use crate::error::{text_of, UnpackError};
use crate::path::{
    chars_of, extension_dot, extension_of, extension_of_name, file_name, file_name_of, file_stem_of, has_root,
    is_absolute, join, joined, lemma_segment_start_bounds, lemma_trimmed_end_bounds, parent, parent_of,
    segment_start, stem_of_name, trimmed_end,
};

verus! {

/// The extension that marks a gzip-compressed entry.
pub open spec fn gzip_extension() -> Seq<char> {
    seq!['g', 'z']
}

/// The suffix that marks a name as JSON once the gzip extension is off.
pub open spec fn json_suffix() -> Seq<char> {
    seq!['j', 's', 'o', 'n']
}

/// The folder that the entry at `entry` is written into, below `root`: `root`
/// extended by the entry's parent. An entry whose parent is absolute would
/// land outside `root` and is refused; one without a parent lands in `root`
/// itself.
pub open spec fn entry_folder_of(root: Seq<char>, entry: Seq<char>) -> Result<Seq<char>, UnpackError> {
    match parent_of(entry) {
        Some(above) => if has_root(above) {
            Err(UnpackError::AbsoluteEntryPath)
        } else {
            Ok(joined(root, above))
        },
        None => Ok(root),
    }
}

/// The name that the file `name` is written under, and what is done to its
/// bytes. A name with the gzip extension loses it and is decompressed, and
/// formatted as well if what is left ends in the JSON suffix; any other name
/// is kept and its bytes are copied.
pub open spec fn target_of_name(name: Seq<char>) -> (Seq<char>, Treatment) {
    if extension_of_name(name) == Some(gzip_extension()) {
        (
            stem_of_name(name),
            if json_suffix().is_suffix_of(stem_of_name(name)) {
                Treatment::DecompressJson
            } else {
                Treatment::Decompress
            },
        )
    } else {
        (name, Treatment::Copy)
    }
}

/// A file to write for an entry.
#[derive(Debug, PartialEq, Eq)]
pub struct TargetFile {
    /// The path of the file.
    pub path: String,
    /// What is done to the entry's bytes before they are written.
    pub treatment: Treatment,
}

/// A `TargetFile` with its path as a sequence of characters.
pub struct TargetFileView {
    /// The path of the file.
    pub path: Seq<char>,
    /// What is done to the entry's bytes before they are written.
    pub treatment: Treatment,
}

impl View for TargetFile {
    type V = TargetFileView;

    open spec fn view(&self) -> TargetFileView {
        TargetFileView { path: self.path@, treatment: self.treatment }
    }
}

/// What is to be done for one entry.
#[derive(Debug, PartialEq, Eq)]
pub struct EntryPlan {
    /// The folder that has to exist for the entry.
    pub folder: String,
    /// The file to write, if the entry has a file name.
    pub file: Option<TargetFile>,
}

/// An `EntryPlan` with its paths as sequences of characters.
pub struct EntryPlanView {
    /// The folder that has to exist for the entry.
    pub folder: Seq<char>,
    /// The file to write, if the entry has a file name.
    pub file: Option<TargetFileView>,
}

impl View for EntryPlan {
    type V = EntryPlanView;

    open spec fn view(&self) -> EntryPlanView {
        EntryPlanView {
            folder: self.folder@,
            file: match self.file {
                Some(file) => Some(file@),
                None => None,
            },
        }
    }
}

/// A plan or a failure, the plan read by its view.
pub open spec fn plan_of(result: Result<EntryPlan, UnpackError>) -> Result<EntryPlanView, UnpackError> {
    match result {
        Ok(plan) => Ok(plan@),
        Err(error) => Err(error),
    }
}

/// The file to write into `folder` for the entry at `entry`, if it has a file
/// name.
pub open spec fn target_file_of(folder: Seq<char>, entry: Seq<char>) -> Option<TargetFileView> {
    match file_name_of(entry) {
        Some(name) => Some(
            TargetFileView { path: joined(folder, target_of_name(name).0), treatment: target_of_name(name).1 },
        ),
        None => None,
    }
}

/// What is to be done for the entry at `entry` when the package is unpacked
/// into `root`.
pub open spec fn entry_plan_of(root: Seq<char>, entry: Seq<char>) -> Result<EntryPlanView, UnpackError> {
    match entry_folder_of(root, entry) {
        Ok(folder) => Ok(EntryPlanView { folder, file: target_file_of(folder, entry) }),
        Err(error) => Err(error),
    }
}

/// Names the folder that has to exist before the entry at `zip_entry` is
/// written below `target_directory`, and refuses an entry that would land
/// outside it.
pub fn create_folder_for_entry(target_directory: &str, zip_entry: &str) -> (folder: Result<
    String,
    UnpackError,
>)
    ensures
        text_of(folder) == entry_folder_of(target_directory@, zip_entry@),
        folder is Err <==> parent_of(zip_entry@) is Some && has_root(parent_of(zip_entry@)->0),
        folder is Err ==> folder == Err::<String, UnpackError>(UnpackError::AbsoluteEntryPath),
{
    match parent(zip_entry) {
        Some(above) => {
            if is_absolute(above.as_str()) {
                Err(UnpackError::AbsoluteEntryPath)
            } else {
                Ok(join(target_directory, above.as_str()))
            }
        },
        None => Ok(target_directory.to_owned()),
    }
}

/// Decides under which name the file `name` is written, and what is done to
/// its bytes.
pub fn target_for_name(name: &str) -> (target: (String, Treatment))
    ensures
        (target.0@, target.1) == target_of_name(name@),
{
    let chars: Vec<char> = chars_of(name);
    let len: usize = chars.len();
    let dot: usize = extension_dot(&chars);
    if dot < len && len - dot == 3 && chars[dot + 1] == 'g' && chars[dot + 2] == 'z' {
        assert(name@.subrange(dot + 1, len as int) =~= gzip_extension());
        let json: bool = dot >= 4 && chars[dot - 4] == 'j' && chars[dot - 3] == 's' && chars[dot - 2] == 'o'
            && chars[dot - 1] == 'n';
        let ghost stem = name@.subrange(0, dot as int);
        assert(json == json_suffix().is_suffix_of(stem)) by {
            if json {
                assert(stem.subrange(stem.len() - 4, stem.len() as int) =~= json_suffix());
            }
            if json_suffix().is_suffix_of(stem) {
                let tail = stem.subrange(stem.len() - 4, stem.len() as int);
                assert(tail[0] == 'j' && tail[1] == 's' && tail[2] == 'o' && tail[3] == 'n');
            }
        }
        let treatment: Treatment = if json {
            Treatment::DecompressJson
        } else {
            Treatment::Decompress
        };
        (name.substring_char(0, dot).to_owned(), treatment)
    } else {
        assert(extension_of_name(name@) != Some(gzip_extension())) by {
            if dot < len {
                let found = name@.subrange(dot + 1, len as int);
                if found == gzip_extension() {
                    assert(found.len() == 2);
                    assert(found[0] == 'g' && found[1] == 'z');
                }
            }
        }
        (name.to_owned(), Treatment::Copy)
    }
}

/// Plans the unpacking of the entry at `entry_path` into `unpack_folder`:
/// the folder that has to exist, and the file to write into it, if any.
pub fn plan_entry(entry_path: &str, unpack_folder: &str) -> (plan: Result<EntryPlan, UnpackError>)
    ensures
        plan_of(plan) == entry_plan_of(unpack_folder@, entry_path@),
        plan is Err <==> parent_of(entry_path@) is Some && has_root(parent_of(entry_path@)->0),
        plan is Err ==> plan == Err::<EntryPlan, UnpackError>(UnpackError::AbsoluteEntryPath),
{
    let folder: String = match create_folder_for_entry(unpack_folder, entry_path) {
        Ok(folder) => folder,
        Err(error) => {
            return Err(error);
        },
    };
    let file: Option<TargetFile> = match file_name(entry_path) {
        Some(name) => {
            let target: (String, Treatment) = target_for_name(name.as_str());
            Some(TargetFile { path: join(folder.as_str(), target.0.as_str()), treatment: target.1 })
        },
        None => None,
    };
    Ok(EntryPlan { folder, file })
}

/// A file that an entry was turned into.
#[derive(Debug, PartialEq, Eq)]
pub struct UnpackedFile {
    /// The path of the file.
    pub path: String,
    /// The bytes of the file.
    pub content: Vec<u8>,
}

/// What an entry was turned into.
#[derive(Debug, PartialEq, Eq)]
pub struct UnpackedEntry {
    /// The folder that has to exist for the entry.
    pub folder: String,
    /// The file to write, if the entry has a file name.
    pub file: Option<UnpackedFile>,
}

/// What the entry at `entry` with the bytes `data` is turned into when the
/// package is unpacked into `root`, as the folder, and the path and bytes of
/// the file if there is one.
pub open spec fn unpacked_entry_of(root: Seq<char>, entry: Seq<char>, data: Seq<u8>) -> Result<
    (Seq<char>, Option<(Seq<char>, Seq<u8>)>),
    UnpackError,
> {
    match entry_plan_of(root, entry) {
        Err(error) => Err(error),
        Ok(plan) => match plan.file {
            None => Ok((plan.folder, None)),
            Some(file) => match rendered(file.treatment, data) {
                Ok(content) => Ok((plan.folder, Some((file.path, content)))),
                Err(error) => Err(error),
            },
        },
    }
}

/// An unpacked entry or a failure, the entry read as its folder and the path
/// and bytes of its file.
pub open spec fn unpacked_of(result: Result<UnpackedEntry, UnpackError>) -> Result<
    (Seq<char>, Option<(Seq<char>, Seq<u8>)>),
    UnpackError,
> {
    match result {
        Ok(entry) => Ok(
            (
                entry.folder@,
                match entry.file {
                    Some(file) => Some((file.path@, file.content@)),
                    None => None,
                },
            ),
        ),
        Err(error) => Err(error),
    }
}

/// Unpacks one entry in memory: decides where the entry at `entry_path` lands
/// below `unpack_folder` and turns its bytes `data` into the bytes of the file
/// to write.
pub fn unpack_entry(entry_path: &str, data: Vec<u8>, unpack_folder: &str) -> (unpacked: Result<
    UnpackedEntry,
    UnpackError,
>)
    ensures
        unpacked_of(unpacked) == unpacked_entry_of(unpack_folder@, entry_path@, data@),
        parent_of(entry_path@) is Some && has_root(parent_of(entry_path@)->0) ==> unpacked == Err::<
            UnpackedEntry,
            UnpackError,
        >(UnpackError::AbsoluteEntryPath),
        unpacked is Ok ==> (unpacked->Ok_0.file is Some <==> file_name_of(entry_path@) is Some),
{
    let plan: EntryPlan = match plan_entry(entry_path, unpack_folder) {
        Ok(plan) => plan,
        Err(error) => {
            return Err(error);
        },
    };
    match plan.file {
        None => Ok(UnpackedEntry { folder: plan.folder, file: None }),
        Some(file) => match render(file.treatment, data) {
            Ok(content) => Ok(
                UnpackedEntry { folder: plan.folder, file: Some(UnpackedFile { path: file.path, content }) },
            ),
            Err(error) => Err(error),
        },
    }
}

/// The line that tells the user what is done with an entry: the word for
/// the treatment, the name of the entry, and the path of the file written
/// for it.
pub open spec fn progress_line_of(treatment: Treatment, entry_name: Seq<char>, target: Seq<char>) -> Seq<
    char,
> {
    (match treatment {
        Treatment::Copy => "Copy: "@,
        Treatment::Decompress => "Decompress: "@,
        Treatment::DecompressJson => "Decompress: "@,
    }) + entry_name + " -> "@ + target
}

/// Words the line that tells the user what is done with an entry.
pub fn progress_line(treatment: Treatment, entry_name: &str, target: &str) -> (line: String)
    ensures
        line@ == progress_line_of(treatment, entry_name@, target@),
{
    let mut line: String = match treatment {
        Treatment::Copy => "Copy: ".to_owned(),
        Treatment::Decompress => "Decompress: ".to_owned(),
        Treatment::DecompressJson => "Decompress: ".to_owned(),
    };
    line.append(entry_name);
    line.append(" -> ");
    line.append(target);
    line
}

/// An entry that begins at the root and names a file is refused, whatever it
/// holds and wherever the package is unpacked: nothing is written for it.
pub proof fn absolute_entry_is_refused(root: Seq<char>, entry: Seq<char>, data: Seq<u8>)
    requires
        has_root(entry),
        file_name_of(entry) is Some,
    ensures
        parent_of(entry) is Some,
        has_root(parent_of(entry)->0),
        entry_plan_of(root, entry) == Err::<EntryPlanView, UnpackError>(UnpackError::AbsoluteEntryPath),
        unpacked_entry_of(root, entry, data) == Err::<(Seq<char>, Option<(Seq<char>, Seq<u8>)>), UnpackError>(
            UnpackError::AbsoluteEntryPath,
        ),
{
    let end = trimmed_end(entry, entry.len() as int);
    lemma_trimmed_end_bounds(entry, entry.len() as int);
    lemma_segment_start_bounds(entry, end);
    lemma_trimmed_end_bounds(entry, segment_start(entry, end));
}

/// An entry without a file name is passed over: nothing is written for it,
/// and nothing fails on its account.
pub proof fn nameless_entry_is_skipped(root: Seq<char>, entry: Seq<char>, data: Seq<u8>)
    requires
        file_name_of(entry) is None,
        entry_folder_of(root, entry) is Ok,
    ensures
        unpacked_entry_of(root, entry, data) == Ok::<(Seq<char>, Option<(Seq<char>, Seq<u8>)>), UnpackError>(
            (entry_folder_of(root, entry)->Ok_0, None),
        ),
{
}

/// An entry whose name does not bear the gzip extension is written under its
/// own name with the bytes it holds.
pub proof fn plain_entry_is_copied(root: Seq<char>, entry: Seq<char>, data: Seq<u8>)
    requires
        file_name_of(entry) is Some,
        extension_of(entry) != Some(gzip_extension()),
        entry_folder_of(root, entry) is Ok,
    ensures
        unpacked_entry_of(root, entry, data) == Ok::<(Seq<char>, Option<(Seq<char>, Seq<u8>)>), UnpackError>(
            (
                entry_folder_of(root, entry)->Ok_0,
                Some((joined(entry_folder_of(root, entry)->Ok_0, file_name_of(entry)->0), data)),
            ),
        ),
{
}

/// An entry whose name bears the gzip extension, and is no JSON under it, is
/// written under its name without that extension, with the content of the
/// gzip member it holds; it fails if it holds none.
pub proof fn zipped_entry_is_decompressed(root: Seq<char>, entry: Seq<char>, data: Seq<u8>)
    requires
        extension_of(entry) == Some(gzip_extension()),
        !json_suffix().is_suffix_of(file_stem_of(entry)->0),
        entry_folder_of(root, entry) is Ok,
    ensures
        unpacked_entry_of(root, entry, data) == match gzip_content(data) {
            Some(content) => Ok::<(Seq<char>, Option<(Seq<char>, Seq<u8>)>), UnpackError>(
                (
                    entry_folder_of(root, entry)->Ok_0,
                    Some((joined(entry_folder_of(root, entry)->Ok_0, file_stem_of(entry)->0), content)),
                ),
            ),
            None => Err(UnpackError::Decompression),
        },
{
}

/// An entry whose name bears the gzip extension and ends in the JSON suffix
/// under it is written under its name without the gzip extension, with the
/// content of the gzip member it holds indented by two spaces; it fails if it
/// holds no gzip member or the content cannot be indented.
pub proof fn zipped_json_entry_is_indented(root: Seq<char>, entry: Seq<char>, data: Seq<u8>)
    requires
        extension_of(entry) == Some(gzip_extension()),
        json_suffix().is_suffix_of(file_stem_of(entry)->0),
        entry_folder_of(root, entry) is Ok,
    ensures
        unpacked_entry_of(root, entry, data) == match gzip_content(data) {
            Some(content) => match json_two_space(content) {
                Some(text) => Ok::<(Seq<char>, Option<(Seq<char>, Seq<u8>)>), UnpackError>(
                    (
                        entry_folder_of(root, entry)->Ok_0,
                        Some((joined(entry_folder_of(root, entry)->Ok_0, file_stem_of(entry)->0), text)),
                    ),
                ),
                None => Err(UnpackError::Formatting),
            },
            None => Err(UnpackError::Decompression),
        },
{
}

} // verus!
