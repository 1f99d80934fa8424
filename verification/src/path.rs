//! Lexical handling of `/`-separated paths.
//!
//! A path is read as an optional head (the root `/`, or a leading `.` that
//! names the current directory) followed by a body of segments separated by
//! `/`. Empty segments and `.` segments of the body are filler and name
//! nothing; what is left are the components. Nothing here touches a file
//! system.

use vstd::prelude::*;
use vstd::string::*;

verus! {

/// Whether `path` begins at the root.
pub open spec fn has_root(path: Seq<char>) -> bool {
    path.len() > 0 && path[0] == '/'
}

/// Whether `path` begins with a `.` that names the current directory.
pub open spec fn names_current_dir(path: Seq<char>) -> bool {
    path.len() > 0 && path[0] == '.' && (path.len() == 1 || path[1] == '/')
}

/// The length of the head of `path`: one for a root or a leading `.`, else
/// zero. The body begins here.
pub open spec fn head_len(path: Seq<char>) -> int {
    if has_root(path) || names_current_dir(path) {
        1
    } else {
        0
    }
}

/// Whether the character before `end` belongs to filler at the end of
/// `path[..end]`: it is a separator, or it is a whole `.` segment of the body.
pub open spec fn is_filler_before(path: Seq<char>, end: int) -> bool {
    head_len(path) < end <= path.len() && (path[end - 1] == '/' || (path[end - 1] == '.' && (end - 1
        == head_len(path) || path[end - 2] == '/')))
}

/// The end of the last component of `path[..end]`: `end` with the filler
/// before it dropped. It is the length of the head if no component is left.
pub open spec fn trimmed_end(path: Seq<char>, end: int) -> int
    decreases end,
{
    if is_filler_before(path, end) {
        trimmed_end(path, end - 1)
    } else {
        end
    }
}

/// Where the segment that ends at `end` begins: behind the nearest separator
/// before `end`, or where the body begins.
pub open spec fn segment_start(path: Seq<char>, end: int) -> int
    decreases end,
{
    if end <= head_len(path) || end > path.len() || path[end - 1] == '/' {
        end
    } else {
        segment_start(path, end - 1)
    }
}

/// Whether `name` is `..`, which names the directory above.
pub open spec fn is_parent_marker(name: Seq<char>) -> bool {
    name.len() == 2 && name[0] == '.' && name[1] == '.'
}

/// The file name of `path`: its last component, unless that is `..` or the
/// path has no component in its body.
pub open spec fn file_name_of(path: Seq<char>) -> Option<Seq<char>> {
    let end = trimmed_end(path, path.len() as int);
    let name = path.subrange(segment_start(path, end), end);
    if head_len(path) < end && !is_parent_marker(name) {
        Some(name)
    } else {
        None
    }
}

/// The parent of `path`: the path without its last component and without the
/// filler before that. A path that is only `.` has the empty parent; the empty
/// path and a bare root have none.
pub open spec fn parent_of(path: Seq<char>) -> Option<Seq<char>> {
    let end = trimmed_end(path, path.len() as int);
    if head_len(path) < end {
        Some(path.subrange(0, trimmed_end(path, segment_start(path, end))))
    } else if names_current_dir(path) {
        Some(Seq::empty())
    } else {
        None
    }
}

/// The index of the last `.` in `name[..end]`, or `-1` if there is none.
pub open spec fn last_dot(name: Seq<char>, end: int) -> int
    decreases end,
{
    if end <= 0 || end > name.len() {
        -1
    } else if name[end - 1] == '.' {
        end - 1
    } else {
        last_dot(name, end - 1)
    }
}

/// The extension of a file name: what follows its last `.`, if that `.` is
/// not the name's first character.
pub open spec fn extension_of_name(name: Seq<char>) -> Option<Seq<char>> {
    let dot = last_dot(name, name.len() as int);
    if dot > 0 {
        Some(name.subrange(dot + 1, name.len() as int))
    } else {
        None
    }
}

/// The stem of a file name: what stands before its last `.`, or the whole
/// name if it has no extension.
pub open spec fn stem_of_name(name: Seq<char>) -> Seq<char> {
    let dot = last_dot(name, name.len() as int);
    if dot > 0 {
        name.subrange(0, dot)
    } else {
        name
    }
}

/// The extension of the file name of `path`.
pub open spec fn extension_of(path: Seq<char>) -> Option<Seq<char>> {
    match file_name_of(path) {
        Some(name) => extension_of_name(name),
        None => None,
    }
}

/// The stem of the file name of `path`.
pub open spec fn file_stem_of(path: Seq<char>) -> Option<Seq<char>> {
    match file_name_of(path) {
        Some(name) => Some(stem_of_name(name)),
        None => None,
    }
}

/// `base` extended by `rel`. A rooted `rel` stands for itself, an empty one
/// leaves `base` as it is, and a separator is put between the two unless
/// `base` is empty or ends in one.
pub open spec fn joined(base: Seq<char>, rel: Seq<char>) -> Seq<char> {
    if has_root(rel) {
        rel
    } else if rel.len() == 0 {
        base
    } else if base.len() == 0 || base.last() == '/' {
        base + rel
    } else {
        base + seq!['/'] + rel
    }
}

/// The end of the last component lies between the head and `end`.
pub proof fn lemma_trimmed_end_bounds(path: Seq<char>, end: int)
    requires
        head_len(path) <= end <= path.len(),
    ensures
        head_len(path) <= trimmed_end(path, end) <= end,
        !is_filler_before(path, trimmed_end(path, end)),
    decreases end,
{
    if is_filler_before(path, end) {
        lemma_trimmed_end_bounds(path, end - 1);
    }
}

/// A segment begins between the head and its end, holds no separator, and
/// has a separator or the head before it.
pub proof fn lemma_segment_start_bounds(path: Seq<char>, end: int)
    requires
        head_len(path) <= end <= path.len(),
    ensures
        head_len(path) <= segment_start(path, end) <= end,
        forall|i: int| segment_start(path, end) <= i < end ==> path[i] != '/',
        segment_start(path, end) == head_len(path) || path[segment_start(path, end) - 1] == '/',
    decreases end,
{
    if !(end <= head_len(path) || path[end - 1] == '/') {
        lemma_segment_start_bounds(path, end - 1);
    }
}

/// A file name is not empty and holds no separator; a path with a file name
/// has a parent.
pub proof fn lemma_file_name_is_one_segment(path: Seq<char>)
    requires
        file_name_of(path) is Some,
    ensures
        file_name_of(path)->0.len() > 0,
        forall|i: int| 0 <= i < file_name_of(path)->0.len() ==> file_name_of(path)->0[i] != '/',
        parent_of(path) is Some,
{
    let end = trimmed_end(path, path.len() as int);
    lemma_trimmed_end_bounds(path, path.len() as int);
    lemma_segment_start_bounds(path, end);
}

/// Everything between the end of the last component and `end` is filler.
pub proof fn lemma_filler_behind_trimmed_end(path: Seq<char>, end: int, at: int)
    requires
        head_len(path) <= end <= path.len(),
        trimmed_end(path, end) < at <= end,
    ensures
        is_filler_before(path, at),
    decreases end,
{
    if at < end {
        lemma_filler_behind_trimmed_end(path, end - 1, at);
    }
}

/// A stretch without separators that begins behind a separator, or where the
/// body begins, is a segment.
pub proof fn lemma_segment_start_is(path: Seq<char>, start: int, end: int)
    requires
        head_len(path) <= start <= end <= path.len(),
        forall|i: int| start <= i < end ==> path[i] != '/',
        start == head_len(path) || path[start - 1] == '/',
    ensures
        segment_start(path, end) == start,
    decreases end,
{
    if start < end {
        lemma_segment_start_is(path, start, end - 1);
    }
}

/// The last `.` before `end` lies before `end` and is a `.`, and no `.`
/// stands between it and `end`.
pub proof fn lemma_last_dot_bounds(name: Seq<char>, end: int)
    requires
        0 <= end <= name.len(),
    ensures
        -1 <= last_dot(name, end) < end,
        last_dot(name, end) >= 0 ==> name[last_dot(name, end)] == '.',
        forall|i: int| last_dot(name, end) < i < end ==> name[i] != '.',
    decreases end,
{
    if end > 0 && name[end - 1] != '.' {
        lemma_last_dot_bounds(name, end - 1);
    }
}

/// The characters of `text`, in order.
pub fn chars_of(text: &str) -> (chars: Vec<char>)
    ensures
        chars@ == text@,
{
    let mut chars: Vec<char> = Vec::new();
    for c in it: text.chars()
        invariant
            it.seq() == text@,
            chars@ == text@.take(it.index() as int),
    {
        chars.push(c);
    }
    chars
}

/// The length of the head of the path held in `chars`.
fn head_of(chars: &Vec<char>) -> (head: usize)
    ensures
        head == head_len(chars@),
{
    let len: usize = chars.len();
    if len == 0 {
        0
    } else if chars[0] == '/' {
        1
    } else if chars[0] == '.' && (len == 1 || chars[1] == '/') {
        1
    } else {
        0
    }
}

/// Whether the character before `end` is filler.
fn filler_before(chars: &Vec<char>, head: usize, end: usize) -> (filler: bool)
    requires
        head == head_len(chars@),
        end <= chars.len(),
    ensures
        filler == is_filler_before(chars@, end as int),
{
    if end <= head {
        false
    } else if chars[end - 1] == '/' {
        true
    } else {
        chars[end - 1] == '.' && (end - 1 == head || chars[end - 2] == '/')
    }
}

/// Drops the filler before `end`.
fn trim_end(chars: &Vec<char>, head: usize, end: usize) -> (trimmed: usize)
    requires
        head == head_len(chars@),
        head <= end <= chars.len(),
    ensures
        trimmed == trimmed_end(chars@, end as int),
        head <= trimmed <= end,
{
    let mut at: usize = end;
    while filler_before(chars, head, at)
        invariant
            head == head_len(chars@),
            head <= at <= end <= chars.len(),
            trimmed_end(chars@, at as int) == trimmed_end(chars@, end as int),
        decreases at,
    {
        at = at - 1;
    }
    at
}

/// Finds where the segment that ends at `end` begins.
fn start_of_segment(chars: &Vec<char>, head: usize, end: usize) -> (start: usize)
    requires
        head == head_len(chars@),
        head <= end <= chars.len(),
    ensures
        start == segment_start(chars@, end as int),
        head <= start <= end,
{
    let mut at: usize = end;
    while at > head && chars[at - 1] != '/'
        invariant
            head == head_len(chars@),
            head <= at <= end <= chars.len(),
            segment_start(chars@, at as int) == segment_start(chars@, end as int),
        decreases at,
    {
        at = at - 1;
    }
    at
}

/// Where the last component of a path begins and ends, and whether it is a
/// file name.
pub(crate) struct LastComponent {
    /// Where the component begins.
    pub start: usize,
    /// Where the component ends.
    pub end: usize,
    /// Whether the body holds a component at all.
    pub present: bool,
    /// Whether the component is a file name, not `..`.
    pub named: bool,
}

/// Finds the last component of the path held in `chars`.
pub(crate) fn last_component(chars: &Vec<char>) -> (last: LastComponent)
    ensures
        last.end == trimmed_end(chars@, chars@.len() as int),
        last.start == segment_start(chars@, last.end as int),
        head_len(chars@) <= last.start <= last.end <= chars@.len(),
        last.present == (head_len(chars@) < last.end),
        last.named == (file_name_of(chars@) is Some),
{
    let head: usize = head_of(chars);
    let end: usize = trim_end(chars, head, chars.len());
    let start: usize = start_of_segment(chars, head, end);
    let present: bool = head < end;
    let marker: bool = end - start == 2 && chars[start] == '.' && chars[start + 1] == '.';
    LastComponent { start, end, present, named: present && !marker }
}

/// Finds the `.` that begins the extension of the file name held in `name`.
/// Returns the length of `name` if it has no extension.
pub(crate) fn extension_dot(name: &Vec<char>) -> (dot: usize)
    ensures
        dot <= name.len(),
        dot < name.len() <==> last_dot(name@, name@.len() as int) > 0,
        dot < name.len() ==> dot == last_dot(name@, name@.len() as int),
{
    let mut at: usize = name.len();
    while at > 0 && name[at - 1] != '.'
        invariant
            at <= name.len(),
            last_dot(name@, at as int) == last_dot(name@, name@.len() as int),
        decreases at,
    {
        at = at - 1;
    }
    if at > 1 {
        at - 1
    } else {
        name.len()
    }
}

/// Whether `path` begins at the root.
pub fn is_absolute(path: &str) -> (absolute: bool)
    ensures
        absolute == has_root(path@),
{
    !path.is_empty() && path.get_char(0) == '/'
}

/// The file name of `path`, if it has one.
pub fn file_name(path: &str) -> (name: Option<String>)
    ensures
        name.deep_view() == file_name_of(path@),
{
    let chars: Vec<char> = chars_of(path);
    let last: LastComponent = last_component(&chars);
    if last.named {
        Some(path.substring_char(last.start, last.end).to_owned())
    } else {
        None
    }
}

/// The parent of `path`, if it has one.
pub fn parent(path: &str) -> (parent: Option<String>)
    ensures
        parent.deep_view() == parent_of(path@),
{
    let chars: Vec<char> = chars_of(path);
    let last: LastComponent = last_component(&chars);
    if last.present {
        let head: usize = head_of(&chars);
        let end: usize = trim_end(&chars, head, last.start);
        Some(path.substring_char(0, end).to_owned())
    } else if head_of(&chars) == 1 && chars[0] == '.' {
        let parent: String = String::new();
        assert(parent@ =~= Seq::<char>::empty());
        Some(parent)
    } else {
        None
    }
}

/// The extension of the file name `name`, if it has one.
pub fn name_extension(name: &str) -> (extension: Option<String>)
    ensures
        extension.deep_view() == extension_of_name(name@),
{
    let chars: Vec<char> = chars_of(name);
    let dot: usize = extension_dot(&chars);
    if dot < chars.len() {
        Some(name.substring_char(dot + 1, chars.len()).to_owned())
    } else {
        None
    }
}

/// The stem of the file name `name`.
pub fn name_stem(name: &str) -> (stem: String)
    ensures
        stem@ == stem_of_name(name@),
{
    let chars: Vec<char> = chars_of(name);
    let dot: usize = extension_dot(&chars);
    if dot < chars.len() {
        name.substring_char(0, dot).to_owned()
    } else {
        name.to_owned()
    }
}

/// The extension of the file name of `path`, if it has one.
pub fn extension(path: &str) -> (extension: Option<String>)
    ensures
        extension.deep_view() == extension_of(path@),
{
    match file_name(path) {
        Some(name) => name_extension(name.as_str()),
        None => None,
    }
}

/// The stem of the file name of `path`, if it has a file name.
pub fn file_stem(path: &str) -> (stem: Option<String>)
    ensures
        stem.deep_view() == file_stem_of(path@),
{
    match file_name(path) {
        Some(name) => Some(name_stem(name.as_str())),
        None => None,
    }
}

/// Extends `base` by `rel`.
pub fn join(base: &str, rel: &str) -> (path: String)
    ensures
        path@ == joined(base@, rel@),
{
    if is_absolute(rel) {
        return rel.to_owned();
    }
    let mut path: String = base.to_owned();
    if rel.is_empty() {
        return path;
    }
    let chars: Vec<char> = chars_of(base);
    if chars.len() > 0 && chars[chars.len() - 1] != '/' {
        proof {
            reveal_strlit("/");
            assert("/"@ =~= seq!['/']);
        }
        path.append("/");
    }
    path.append(rel);
    path
}

} // verus!
