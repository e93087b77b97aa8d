//! Paths are carried as UTF-8 strings. The component parsing of `std::path::Path`
//! is called through a few trusted wrappers; stems, extensions and the keys that
//! batch matching compares are computed and proved here.

use crate::text::{
    chars_of, eq_ignore_ascii_case, eq_ignore_ascii_case_spec, skip_chars, string_of, strings_view, take_chars,
    to_lowercase, unicode_lowercase,
};
use std::path::Path;
use vstd::prelude::*;

verus! {

/// What `Path::file_name` returns: the final normal component, if any.
pub uninterp spec fn std_file_name(path: Seq<char>) -> Option<Seq<char>>;

/// What `Path::parent` returns: the path without its final component, if any.
pub uninterp spec fn std_parent(path: Seq<char>) -> Option<Seq<char>>;

/// What `Path::join` returns for a base path and a path adjoined to it.
pub uninterp spec fn std_join(base: Seq<char>, path: Seq<char>) -> Seq<char>;

/// What `Path::is_absolute` returns.
pub uninterp spec fn std_is_absolute(path: Seq<char>) -> bool;

/// What `==` on two `Path`s returns: whether their components are equal.
pub uninterp spec fn std_path_eq(a: Seq<char>, b: Seq<char>) -> bool;

/// What `Path::with_extension` returns for a path and an extension.
pub uninterp spec fn std_with_extension(path: Seq<char>, extension: Seq<char>) -> Seq<char>;

/// The view of an optional string.
pub open spec fn opt_view(o: Option<String>) -> Option<Seq<char>> {
    match o {
        Some(s) => Some(s@),
        None => None,
    }
}

/// Calls `Path::file_name` on the path and returns the component as a string.
/// The result is named `std_file_name` of the path; nothing more is claimed.
#[verifier::external_body]
pub(crate) fn file_name(path: &str) -> (name: Option<String>)
    ensures
        opt_view(name) == std_file_name(path@),
{
    match Path::new(path).file_name() {
        Some(name) => Some(name.to_string_lossy().into_owned()),
        None => None,
    }
}

/// Calls `Path::parent`. The result is named `std_parent` of the path.
#[verifier::external_body]
pub(crate) fn parent(path: &str) -> (dir: Option<String>)
    ensures
        opt_view(dir) == std_parent(path@),
{
    match Path::new(path).parent() {
        Some(dir) => Some(dir.to_string_lossy().into_owned()),
        None => None,
    }
}

/// Calls `Path::join`. The result is named `std_join` of the two paths.
#[verifier::external_body]
pub(crate) fn join(base: &str, path: &str) -> (joined: String)
    ensures
        joined@ == std_join(base@, path@),
{
    Path::new(base).join(path).to_string_lossy().into_owned()
}

/// Calls `Path::is_absolute`. The result is named `std_is_absolute` of the path.
#[verifier::external_body]
pub(crate) fn is_absolute(path: &str) -> (absolute: bool)
    ensures
        absolute == std_is_absolute(path@),
{
    Path::new(path).is_absolute()
}

/// Compares two paths with `==` on `Path`, which compares their components.
/// The result is named `std_path_eq` of the two paths; beyond that, only that
/// a path equals itself (`Path` is `Eq`) is claimed.
#[verifier::external_body]
pub(crate) fn paths_equal(a: &str, b: &str) -> (equal: bool)
    ensures
        equal == std_path_eq(a@, b@),
        a@ == b@ ==> equal,
{
    Path::new(a) == Path::new(b)
}

/// Text without a path separator: neither `/` nor (a separator on Windows) a backslash.
pub open spec fn has_no_separator(s: Seq<char>) -> bool {
    forall|i: int| 0 <= i < s.len() ==> s[i] != '/' && s[i] != '\\'
}

/// Calls `Path::with_extension`, which panics where the extension holds a path
/// separator; such extensions are not admitted. The result is named
/// `std_with_extension` of the path and the extension.
#[verifier::external_body]
pub(crate) fn with_extension(path: &str, extension: &str) -> (changed: String)
    requires
        has_no_separator(extension@),
    ensures
        changed@ == std_with_extension(path@, extension@),
{
    Path::new(path).with_extension(extension).to_string_lossy().into_owned()
}

/// Index of the last occurrence of `c` in `s`, or -1.
pub open spec fn last_index_of(s: Seq<char>, c: char) -> int
    decreases s.len(),
{
    if s.len() == 0 {
        -1
    } else if s.last() == c {
        s.len() - 1
    } else {
        last_index_of(s.drop_last(), c)
    }
}

proof fn lemma_last_index_of_bounds(s: Seq<char>, c: char)
    ensures
        -1 <= last_index_of(s, c) < s.len(),
        last_index_of(s, c) >= 0 ==> s[last_index_of(s, c)] == c,
    decreases s.len(),
{
    if s.len() > 0 && s.last() != c {
        lemma_last_index_of_bounds(s.drop_last(), c);
    }
}

/// Appending text without `c` leaves the last `c` where it was.
pub proof fn lemma_last_index_of_append(a: Seq<char>, b: Seq<char>, c: char)
    requires
        forall|i: int| 0 <= i < b.len() ==> b[i] != c,
    ensures
        last_index_of(a + b, c) == last_index_of(a, c),
    decreases b.len(),
{
    if b.len() == 0 {
        assert(a + b =~= a);
    } else {
        assert((a + b).drop_last() =~= a + b.drop_last());
        assert((a + b).last() == b.last());
        lemma_last_index_of_append(a, b.drop_last(), c);
    }
}

/// Position of the dot that separates stem and extension in a file name, as
/// `Path::file_stem` documents it: the final `.`, unless the name has no `.`
/// after its first character (or is `..`), in which case there is none.
pub open spec fn extension_dot(name: Seq<char>) -> Option<int> {
    let i = last_index_of(name, '.');
    if name =~= seq!['.', '.'] || i <= 0 {
        None
    } else {
        Some(i)
    }
}

/// The stem of a file name: the part before the extension dot, or the whole name.
pub open spec fn stem_of_name(name: Seq<char>) -> Seq<char> {
    match extension_dot(name) {
        Some(i) => name.take(i),
        None => name,
    }
}

/// The extension of a file name: the part after the extension dot, if there is one.
pub open spec fn extension_of_name(name: Seq<char>) -> Option<Seq<char>> {
    match extension_dot(name) {
        Some(i) => Some(name.skip(i + 1)),
        None => None,
    }
}

/// `Path::file_stem`, defined from the file name as its documentation states.
pub open spec fn spec_file_stem(path: Seq<char>) -> Option<Seq<char>> {
    match std_file_name(path) {
        Some(name) => Some(stem_of_name(name)),
        None => None,
    }
}

/// `Path::extension`, defined from the file name as its documentation states.
pub open spec fn spec_extension(path: Seq<char>) -> Option<Seq<char>> {
    match std_file_name(path) {
        Some(name) => extension_of_name(name),
        None => None,
    }
}

fn find_extension_dot(name: &Vec<char>) -> (dot: Option<usize>)
    ensures
        extension_dot(name@) == match dot {
            Some(i) => Some(i as int),
            None => None,
        },
        dot matches Some(i) ==> 0 < i < name@.len(),
{
    proof {
        lemma_last_index_of_bounds(name@, '.');
    }
    if name.len() == 2 && name[0] == '.' && name[1] == '.' {
        assert(name@ =~= seq!['.', '.']);
        return None;
    }
    assert(!(name@ =~= seq!['.', '.'])) by {
        if name@ =~= seq!['.', '.'] {
            assert(name@[0] == '.' && name@[1] == '.');
        }
    }
    assert(name@.take(name.len() as int) =~= name@);
    let mut i: usize = name.len();
    while i > 0
        invariant
            i <= name.len(),
            last_index_of(name@, '.') == last_index_of(name@.take(i as int), '.'),
            !(name@ =~= seq!['.', '.']),
        decreases i,
    {
        if name[i - 1] == '.' {
            assert(name@.take(i as int).last() == '.');
            assert(last_index_of(name@.take(i as int), '.') == i - 1);
            assert(last_index_of(name@, '.') == i - 1);
            if i - 1 == 0 {
                return None;
            }
            return Some(i - 1);
        }
        assert(name@.take(i as int).drop_last() =~= name@.take(i - 1));
        i = i - 1;
    }
    None
}

/// `Path::file_stem`: the file name without its extension.
pub fn file_stem(path: &str) -> (stem: Option<String>)
    ensures
        opt_view(stem) == spec_file_stem(path@),
{
    match file_name(path) {
        None => None,
        Some(name) => {
            let chars = chars_of(name.as_str());
            match find_extension_dot(&chars) {
                None => Some(name),
                Some(i) => Some(string_of(&take_chars(&chars, i))),
            }
        },
    }
}

/// `Path::extension`: the part of the file name after its extension dot.
pub fn extension(path: &str) -> (ext: Option<String>)
    ensures
        opt_view(ext) == spec_extension(path@),
{
    match file_name(path) {
        None => None,
        Some(name) => {
            let chars = chars_of(name.as_str());
            match find_extension_dot(&chars) {
                None => None,
                Some(i) => {
                    assert(i < chars.len());
                    Some(string_of(&skip_chars(&chars, i + 1)))
                },
            }
        },
    }
}

/// Backslashes turned into forward slashes.
pub open spec fn with_forward_slashes(s: Seq<char>) -> Seq<char> {
    Seq::new(s.len(), |i: int| if s[i] == '\\' { '/' } else { s[i] })
}

/// The key under which two paths are considered the same file: the path with
/// forward slashes, lowercased.
pub open spec fn spec_comparison_key(path: Seq<char>) -> Seq<char> {
    unicode_lowercase(with_forward_slashes(path))
}

/// The key by which paths are listed: the lowercased file name, or the
/// comparison key where the path has no file name.
pub open spec fn spec_sort_key(path: Seq<char>) -> Seq<char> {
    match std_file_name(path) {
        Some(name) => unicode_lowercase(name),
        None => spec_comparison_key(path),
    }
}

/// The lowercased, non-empty file stem by which videos and subtitles are paired.
pub open spec fn spec_normalized_stem(path: Seq<char>) -> Option<Seq<char>> {
    match spec_file_stem(path) {
        Some(stem) => if stem.len() == 0 {
            None
        } else {
            Some(unicode_lowercase(stem))
        },
        None => None,
    }
}

/// The path has an extension equal to `expected` up to ASCII case.
pub open spec fn spec_has_extension(path: Seq<char>, expected: Seq<char>) -> bool {
    match spec_extension(path) {
        Some(ext) => eq_ignore_ascii_case_spec(ext, expected),
        None => false,
    }
}

/// The path made absolute against the current directory, if it is not already.
pub open spec fn spec_make_absolute(path: Seq<char>, current_dir: Option<Seq<char>>) -> Option<Seq<char>> {
    if std_is_absolute(path) {
        Some(path)
    } else {
        match current_dir {
            Some(dir) => Some(std_join(dir, path)),
            None => None,
        }
    }
}

/// The path with every backslash replaced by a forward slash.
pub fn forward_slashes(path: &str) -> (r: String)
    ensures
        r@ == with_forward_slashes(path@),
{
    let chars = chars_of(path);
    let mut out: Vec<char> = Vec::new();
    let mut i: usize = 0;
    while i < chars.len()
        invariant
            i <= chars.len(),
            out@ =~= with_forward_slashes(chars@.take(i as int)),
        decreases chars.len() - i,
    {
        let c = chars[i];
        if c == '\\' {
            out.push('/');
        } else {
            out.push(c);
        }
        i = i + 1;
    }
    assert(chars@.take(chars.len() as int) =~= chars@);
    string_of(&out)
}

/// The comparison key of a path.
pub fn path_comparison_key(path: &str) -> (key: String)
    ensures
        key@ == spec_comparison_key(path@),
{
    let slashed = forward_slashes(path);
    to_lowercase(slashed.as_str())
}

/// The sort key of a path.
pub fn path_sort_key(path: &str) -> (key: String)
    ensures
        key@ == spec_sort_key(path@),
{
    match file_name(path) {
        Some(name) => to_lowercase(name.as_str()),
        None => path_comparison_key(path),
    }
}

/// The normalized stem of a path.
pub fn normalized_stem(path: &str) -> (stem: Option<String>)
    ensures
        opt_view(stem) == spec_normalized_stem(path@),
{
    match file_stem(path) {
        Some(stem) => {
            if stem.as_str().is_empty() {
                None
            } else {
                Some(to_lowercase(stem.as_str()))
            }
        },
        None => None,
    }
}

/// Whether the path has the expected extension, ignoring ASCII case.
pub fn has_extension(path: &str, expected_extension: &str) -> (r: bool)
    ensures
        r == spec_has_extension(path@, expected_extension@),
{
    match extension(path) {
        Some(ext) => eq_ignore_ascii_case(ext.as_str(), expected_extension),
        None => false,
    }
}

/// The path itself if absolute, else joined to the current directory; `None`
/// where the current directory could not be determined.
pub fn make_absolute(path: &str, current_dir: &Option<String>) -> (r: Option<String>)
    ensures
        opt_view(r) == spec_make_absolute(path@, opt_view(*current_dir)),
{
    if is_absolute(path) {
        return Some(path.to_owned());
    }
    match current_dir {
        Some(dir) => Some(join(dir.as_str(), path)),
        None => None,
    }
}

/// What the program learned of the file system about the paths a decision
/// reads: which are regular files, which are directories, which are something
/// else that exists (a device, a socket), and the canonical form of those that
/// could be resolved.
#[derive(Debug, Clone)]
pub struct FileFacts {
    pub regular_files: Vec<String>,
    pub directories: Vec<String>,
    pub other_entries: Vec<String>,
    pub canonical: Vec<(String, String)>,
}

/// The path is a regular file.
pub open spec fn is_file_in(facts: FileFacts, path: Seq<char>) -> bool {
    strings_view(facts.regular_files@).contains(path)
}

/// The path is a directory.
pub open spec fn is_dir_in(facts: FileFacts, path: Seq<char>) -> bool {
    strings_view(facts.directories@).contains(path)
}

/// Something exists at the path.
pub open spec fn exists_in(facts: FileFacts, path: Seq<char>) -> bool {
    is_file_in(facts, path) || is_dir_in(facts, path) || strings_view(facts.other_entries@).contains(path)
}

/// The canonical form recorded first for the path, if any.
pub open spec fn canonical_lookup(entries: Seq<(String, String)>, path: Seq<char>) -> Option<Seq<char>>
    decreases entries.len(),
{
    if entries.len() == 0 {
        None
    } else if entries[0].0@ == path {
        Some(entries[0].1@)
    } else {
        canonical_lookup(entries.drop_first(), path)
    }
}

/// The canonical form of the path, if it could be resolved.
pub open spec fn canonical_in(facts: FileFacts, path: Seq<char>) -> Option<Seq<char>> {
    canonical_lookup(facts.canonical@, path)
}

/// The canonical form of the path where it could be resolved, else the path.
pub open spec fn absolute_in(facts: FileFacts, path: Seq<char>) -> Seq<char> {
    match canonical_in(facts, path) {
        Some(c) => c,
        None => path,
    }
}

fn contains_string(v: &Vec<String>, s: &str) -> (r: bool)
    ensures
        r == strings_view(v@).contains(s@),
{
    let mut i: usize = 0;
    while i < v.len()
        invariant
            i <= v.len(),
            forall|j: int| 0 <= j < i ==> v@[j]@ != s@,
        decreases v.len() - i,
    {
        if v[i] == s.to_owned() {
            assert(strings_view(v@)[i as int] == s@);
            return true;
        }
        i = i + 1;
    }
    proof {
        if strings_view(v@).contains(s@) {
            let j = choose|j: int| 0 <= j < v.len() && strings_view(v@)[j] == s@;
            assert(v@[j]@ == s@);
        }
    }
    false
}

impl FileFacts {
    /// Whether the path is a regular file.
    pub fn is_file(&self, path: &str) -> (r: bool)
        ensures
            r == is_file_in(*self, path@),
    {
        contains_string(&self.regular_files, path)
    }

    /// Whether the path is a directory.
    pub fn is_dir(&self, path: &str) -> (r: bool)
        ensures
            r == is_dir_in(*self, path@),
    {
        contains_string(&self.directories, path)
    }

    /// Whether something exists at the path.
    pub fn path_exists(&self, path: &str) -> (r: bool)
        ensures
            r == exists_in(*self, path@),
    {
        self.is_file(path) || self.is_dir(path) || contains_string(&self.other_entries, path)
    }

    /// The canonical form of the path, if it could be resolved.
    pub fn canonical(&self, path: &str) -> (r: Option<String>)
        ensures
            opt_view(r) == canonical_in(*self, path@),
    {
        let mut i: usize = 0;
        assert(self.canonical@.skip(0) =~= self.canonical@);
        while i < self.canonical.len()
            invariant
                i <= self.canonical.len(),
                canonical_lookup(self.canonical@, path@) == canonical_lookup(self.canonical@.skip(i as int), path@),
            decreases self.canonical.len() - i,
        {
            assert(self.canonical@.skip(i as int).drop_first() =~= self.canonical@.skip(i + 1));
            if self.canonical[i].0 == path.to_owned() {
                return Some(self.canonical[i].1.clone());
            }
            i = i + 1;
        }
        None
    }

    /// The canonical form of the path where it could be resolved, else the path.
    pub fn absolute(&self, path: &str) -> (r: String)
        ensures
            r@ == absolute_in(*self, path@),
    {
        match self.canonical(path) {
            Some(c) => c,
            None => path.to_owned(),
        }
    }
}

} // verus!
