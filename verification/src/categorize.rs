use vstd::prelude::*;
use crate::config::Settings;
use crate::utils::{
    ends_with_seq, extension_of, extension_spec, lower_of, lowercase, starts_with_seq, str_eq,
    str_ends_with, str_starts_with, trim_str, trimmed_of,
};

verus! {

/// A destination classification bucket for files and directories.
/// Each variant maps one-to-one to a fixed destination subdirectory name.
#[derive(Debug, Clone, Copy, PartialEq, Eq, Structural)]
pub enum Category {
    Media,
    Music,
    Documents,
    Archives,
    Projects,
    GitRepos,
    Backups,
    Others,
}

/// The fixed destination subdirectory name of a category, as a character
/// sequence.
pub open spec fn dir_name_of(c: Category) -> Seq<char> {
    match c {
        Category::Media => "Media"@,
        Category::Music => "Music"@,
        Category::Documents => "Documents"@,
        Category::Archives => "Archives"@,
        Category::Projects => "Projects"@,
        Category::GitRepos => "GitRepos"@,
        Category::Backups => "Backups"@,
        Category::Others => "Others"@,
    }
}

impl Category {
    /// The fixed destination subdirectory name used verbatim for this
    /// category.
    pub fn as_dir(&self) -> (r: &'static str)
        ensures
            r@ == dir_name_of(*self),
    {
        match self {
            Category::Media => "Media",
            Category::Music => "Music",
            Category::Documents => "Documents",
            Category::Archives => "Archives",
            Category::Projects => "Projects",
            Category::GitRepos => "GitRepos",
            Category::Backups => "Backups",
            Category::Others => "Others",
        }
    }
}

/// What the content sniffer returns for a byte sample: the detected MIME
/// type, a function of the bytes alone.
pub uninterp spec fn mime_sniff(head: Seq<u8>) -> Option<Seq<char>>;

/// The view of an optional owned string.
pub open spec fn opt_string_view(s: Option<String>) -> Option<Seq<char>> {
    match s {
        Some(t) => Some(t@),
        None => None,
    }
}

/// Relies on `infer::get` for the detection and on `infer::Type::mime_type`
/// for reading off the detected type's MIME name; the result is a function
/// of the byte sample alone.
#[verifier::external_body]
fn sniff_mime(head: &[u8]) -> (r: Option<String>)
    ensures
        opt_string_view(r) == mime_sniff(head@),
{
    match infer::get(head) {
        Some(kind) => Some(kind.mime_type().to_string()),
        None => None,
    }
}

/// The MIME names treated as documents.
pub open spec fn is_document_mime_spec(m: Seq<char>) -> bool {
    ||| m == "application/pdf"@
    ||| m == "application/msword"@
    ||| m == "application/vnd.openxmlformats-officedocument.wordprocessingml.document"@
    ||| m == "application/vnd.ms-excel"@
    ||| m == "application/vnd.openxmlformats-officedocument.spreadsheetml.sheet"@
    ||| m == "application/vnd.ms-powerpoint"@
    ||| m == "application/vnd.openxmlformats-officedocument.presentationml.presentation"@
    ||| starts_with_seq(m, "text/"@)
}

/// Whether a MIME name counts as a document.
pub fn is_document_mime(m: &str) -> (r: bool)
    ensures
        r == is_document_mime_spec(m@),
{
    str_eq(m, "application/pdf") || str_eq(m, "application/msword") || str_eq(
        m,
        "application/vnd.openxmlformats-officedocument.wordprocessingml.document",
    ) || str_eq(m, "application/vnd.ms-excel") || str_eq(
        m,
        "application/vnd.openxmlformats-officedocument.spreadsheetml.sheet",
    ) || str_eq(m, "application/vnd.ms-powerpoint") || str_eq(
        m,
        "application/vnd.openxmlformats-officedocument.presentationml.presentation",
    ) || str_starts_with(m, "text/")
}

/// The MIME names treated as archives.
pub open spec fn is_archive_mime_spec(m: Seq<char>) -> bool {
    ||| m == "application/zip"@
    ||| m == "application/x-tar"@
    ||| m == "application/gzip"@
    ||| m == "application/x-7z-compressed"@
    ||| m == "application/x-rar-compressed"@
    ||| m == "application/x-xz"@
}

/// Whether a MIME name counts as an archive.
pub fn is_archive_mime(m: &str) -> (r: bool)
    ensures
        r == is_archive_mime_spec(m@),
{
    str_eq(m, "application/zip") || str_eq(m, "application/x-tar") || str_eq(
        m,
        "application/gzip",
    ) || str_eq(m, "application/x-7z-compressed") || str_eq(m, "application/x-rar-compressed")
        || str_eq(m, "application/x-xz")
}

/// The category a MIME name maps to, if any — the one table for both the
/// external probe and the byte-sample sniff: images and videos to Media,
/// audio to Music, known document types to Documents, known archive types
/// to Archives.
pub open spec fn mime_category_spec(m: Seq<char>) -> Option<Category> {
    if starts_with_seq(m, "image/"@) || starts_with_seq(m, "video/"@) {
        Some(Category::Media)
    } else if starts_with_seq(m, "audio/"@) {
        Some(Category::Music)
    } else if is_document_mime_spec(m) {
        Some(Category::Documents)
    } else if is_archive_mime_spec(m) {
        Some(Category::Archives)
    } else {
        None
    }
}

fn mime_category(m: &str) -> (r: Option<Category>)
    ensures
        r == mime_category_spec(m@),
{
    if str_starts_with(m, "image/") || str_starts_with(m, "video/") {
        Some(Category::Media)
    } else if str_starts_with(m, "audio/") {
        Some(Category::Music)
    } else if is_document_mime(m) {
        Some(Category::Documents)
    } else if is_archive_mime(m) {
        Some(Category::Archives)
    } else {
        None
    }
}

/// The category an extension maps to, if any, checked against the lists in
/// fixed precedence order: Media, Music, Documents, Archives.
pub open spec fn ext_category_spec(s: Settings, ext_lower: Seq<char>) -> Option<Category> {
    if s.media_exts.deep_view().contains(ext_lower) {
        Some(Category::Media)
    } else if s.audio_exts.deep_view().contains(ext_lower) {
        Some(Category::Music)
    } else if s.document_exts.deep_view().contains(ext_lower) {
        Some(Category::Documents)
    } else if s.archive_exts.deep_view().contains(ext_lower) {
        Some(Category::Archives)
    } else {
        None
    }
}

/// Whether a list of strings holds the given one.
pub fn contains_string(v: &Vec<String>, x: &String) -> (r: bool)
    ensures
        r == v.deep_view().contains(x@),
{
    let mut i: usize = 0;
    while i < v.len()
        invariant
            0 <= i <= v.len(),
            v.len() == v.deep_view().len(),
            forall|j: int| 0 <= j < i ==> v.deep_view()[j] != x@,
        decreases v.len() - i,
    {
        let eq = v[i] == *x;
        proof {
            assert(v.deep_view()[i as int] == v[i as int]@);
        }
        if eq {
            assert(v.deep_view().contains(x@));
            return true;
        }
        i += 1;
    }
    proof {
        if v.deep_view().contains(x@) {
            let k = choose|k: int| 0 <= k < v.deep_view().len() && v.deep_view()[k] == x@;
            assert(v.deep_view()[k] == x@);
        }
    }
    false
}

/// The category a file is classified into, given its name, a sample of its
/// content, and an optional MIME name from an external probe: the
/// lowercased extension is looked up first in the fixed precedence order;
/// failing that the probe's MIME name decides (when the probe is enabled);
/// failing that the content sniff decides; anything else is Others.
pub open spec fn categorize_spec(
    s: Settings,
    use_file_cmd: bool,
    name: Seq<char>,
    head: Seq<u8>,
    cmd_mime: Option<Seq<char>>,
) -> Category {
    let ext_cat = match extension_spec(name) {
        Some(e) => ext_category_spec(s, lower_of(e)),
        None => None,
    };
    let cmd_cat = if use_file_cmd {
        match cmd_mime {
            Some(m) => mime_category_spec(m),
            None => None,
        }
    } else {
        None
    };
    let sniff_cat = match mime_sniff(head) {
        Some(m) => mime_category_spec(m),
        None => None,
    };
    if ext_cat is Some {
        ext_cat->Some_0
    } else if cmd_cat is Some {
        cmd_cat->Some_0
    } else if sniff_cat is Some {
        sniff_cat->Some_0
    } else {
        Category::Others
    }
}

/// What the classifier reads of a candidate directory: its own name, the
/// direct children relevant to the special-directory rules, and the lines
/// of an internal `config` file where one exists.
pub struct DirProfile {
    /// The directory's own name (its last path component).
    pub name: String,
    /// A direct child named `config` exists and is a regular file.
    pub has_config_file: bool,
    /// A direct child named `objects` exists and is a directory.
    pub has_objects_dir: bool,
    /// A direct child named `refs` exists and is a directory.
    pub has_refs_dir: bool,
    /// A direct child named `.git` exists and is a directory.
    pub has_git_dir: bool,
    /// The lines of the direct child `config` file; empty where the file
    /// does not exist or cannot be read.
    pub config_lines: Vec<String>,
    /// The names of the direct children that are regular files.
    pub child_file_names: Vec<String>,
    /// The names of all direct children.
    pub child_names: Vec<String>,
}

/// Whether some line of a `config` file declares a bare repository.
pub open spec fn has_bare_line_spec(lines: Seq<Seq<char>>) -> bool {
    exists|i: int| 0 <= i < lines.len() && trimmed_of(lines[i]) == "bare = true"@
}

/// The bare-repository signature: a repository-looking name with the
/// required internal structure, or a `config` line declaring bareness.
pub open spec fn bare_git_spec(p: DirProfile) -> bool {
    ||| (ends_with_seq(p.name@, ".git"@) && p.has_config_file && p.has_objects_dir
        && p.has_refs_dir)
    ||| has_bare_line_spec(p.config_lines.deep_view())
}

/// Whether a directory profile carries the bare-repository signature.
pub fn is_bare_git_repo(p: &DirProfile) -> (r: bool)
    ensures
        r == bare_git_spec(*p),
{
    if str_ends_with(p.name.as_str(), ".git") && p.has_config_file && p.has_objects_dir
        && p.has_refs_dir {
        return true;
    }
    let mut i: usize = 0;
    while i < p.config_lines.len()
        invariant
            0 <= i <= p.config_lines.len(),
            p.config_lines.len() == p.config_lines.deep_view().len(),
            forall|j: int|
                0 <= j < i ==> trimmed_of(p.config_lines.deep_view()[j]) != "bare = true"@,
        decreases p.config_lines.len() - i,
    {
        let t = trim_str(p.config_lines[i].as_str());
        proof {
            assert(p.config_lines.deep_view()[i as int] == p.config_lines[i as int]@);
        }
        if str_eq(t.as_str(), "bare = true") {
            assert(has_bare_line_spec(p.config_lines.deep_view()));
            return true;
        }
        i += 1;
    }
    proof {
        if has_bare_line_spec(p.config_lines.deep_view()) {
            let k = choose|k: int|
                0 <= k < p.config_lines.deep_view().len() && trimmed_of(
                    p.config_lines.deep_view()[k],
                ) == "bare = true"@;
        }
    }
    false
}

/// Whether a file name carries an extension that, lowercased, stands in
/// the code-extension list.
pub open spec fn is_code_name(name: Seq<char>, code_exts: Seq<Seq<char>>) -> bool {
    match extension_spec(name) {
        Some(e) => code_exts.contains(lower_of(e)),
        None => false,
    }
}

/// How many of the names are code files.
pub open spec fn code_file_count(names: Seq<Seq<char>>, code_exts: Seq<Seq<char>>) -> nat
    decreases names.len(),
{
    if names.len() == 0 {
        0
    } else {
        code_file_count(names.drop_last(), code_exts) + (if is_code_name(
            names.last(),
            code_exts,
        ) {
            1nat
        } else {
            0nat
        })
    }
}

/// How many of the names stand in the marker list.
pub open spec fn marker_count(names: Seq<Seq<char>>, markers: Seq<Seq<char>>) -> nat
    decreases names.len(),
{
    if names.len() == 0 {
        0
    } else {
        marker_count(names.drop_last(), markers) + (if markers.contains(names.last()) {
            1nat
        } else {
            0nat
        })
    }
}

/// The special-directory classification: bare repositories first, then
/// working repositories, then the code-file heuristic (at least five
/// direct child code files), then the home-backup heuristic (at least
/// three marker names among the direct children). `None` leaves the
/// directory to ordinary traversal.
pub open spec fn detect_spec(s: Settings, p: DirProfile) -> Option<Category> {
    if bare_git_spec(p) {
        Some(Category::GitRepos)
    } else if p.has_git_dir {
        Some(Category::Projects)
    } else if code_file_count(p.child_file_names.deep_view(), s.code_exts.deep_view()) >= 5 {
        Some(Category::Projects)
    } else if marker_count(p.child_names.deep_view(), s.home_markers.deep_view()) >= 3 {
        Some(Category::Backups)
    } else {
        None
    }
}

/// The classifier: maps a file's name and content sample to a category and
/// detects whole-directory categories from a directory profile.
pub struct Categorizer<'a> {
    pub settings: &'a Settings,
    pub use_file_cmd: bool,
}

impl<'a> Categorizer<'a> {
    /// A classifier over the given settings.
    pub fn new(settings: &'a Settings, use_file_cmd: bool) -> (r: Self)
        ensures
            r.settings == settings,
            r.use_file_cmd == use_file_cmd,
    {
        Categorizer { settings, use_file_cmd }
    }

    /// Classifies one file from its name, a sample of its leading bytes,
    /// and an optional MIME name from an external probe.
    pub fn categorize_file(&self, name: &str, head: &[u8], cmd_mime: Option<&String>) -> (r:
        Category)
        ensures
            r == categorize_spec(
                *self.settings,
                self.use_file_cmd,
                name@,
                head@,
                crate::config::deep_view_opt(cmd_mime),
            ),
    {
        match extension_of(name) {
            Some(e) => {
                let le = lowercase(e.as_str());
                if contains_string(&self.settings.media_exts, &le) {
                    return Category::Media;
                }
                if contains_string(&self.settings.audio_exts, &le) {
                    return Category::Music;
                }
                if contains_string(&self.settings.document_exts, &le) {
                    return Category::Documents;
                }
                if contains_string(&self.settings.archive_exts, &le) {
                    return Category::Archives;
                }
            },
            None => {},
        }
        if self.use_file_cmd {
            match cmd_mime {
                Some(m) => {
                    match mime_category(m.as_str()) {
                        Some(c) => {
                            return c;
                        },
                        None => {},
                    }
                },
                None => {},
            }
        }
        match sniff_mime(head) {
            Some(m) => {
                match mime_category(m.as_str()) {
                    Some(c) => {
                        return c;
                    },
                    None => {},
                }
            },
            None => {},
        }
        Category::Others
    }

    /// Detects a whole-directory category from a directory profile.
    pub fn detect_special_directory(&self, p: &DirProfile) -> (r: Option<Category>)
        ensures
            r == detect_spec(*self.settings, *p),
    {
        if is_bare_git_repo(p) {
            return Some(Category::GitRepos);
        }
        if p.has_git_dir {
            return Some(Category::Projects);
        }
        let mut code_count: usize = 0;
        let mut i: usize = 0;
        while i < p.child_file_names.len()
            invariant
                0 <= i <= p.child_file_names.len(),
                p.child_file_names.len() == p.child_file_names.deep_view().len(),
                code_count == code_file_count(
                    p.child_file_names.deep_view().subrange(0, i as int),
                    self.settings.code_exts.deep_view(),
                ),
                code_count <= i,
            decreases p.child_file_names.len() - i,
        {
            let name = &p.child_file_names[i];
            proof {
                assert(p.child_file_names.deep_view()[i as int]
                    == p.child_file_names[i as int]@);
                assert(p.child_file_names.deep_view().subrange(0, i + 1).drop_last()
                    =~= p.child_file_names.deep_view().subrange(0, i as int));
                assert(p.child_file_names.deep_view().subrange(0, i + 1).last()
                    == p.child_file_names.deep_view()[i as int]);
            }
            let is_code = match extension_of(name.as_str()) {
                Some(e) => {
                    let le = lowercase(e.as_str());
                    contains_string(&self.settings.code_exts, &le)
                },
                None => false,
            };
            if is_code {
                code_count += 1;
            }
            i += 1;
        }
        proof {
            assert(p.child_file_names.deep_view().subrange(
                0,
                p.child_file_names.deep_view().len() as int,
            ) =~= p.child_file_names.deep_view());
        }
        if code_count >= 5 {
            return Some(Category::Projects);
        }
        let mut markers_found: usize = 0;
        let mut i: usize = 0;
        while i < p.child_names.len()
            invariant
                0 <= i <= p.child_names.len(),
                p.child_names.len() == p.child_names.deep_view().len(),
                markers_found == marker_count(
                    p.child_names.deep_view().subrange(0, i as int),
                    self.settings.home_markers.deep_view(),
                ),
                markers_found <= i,
            decreases p.child_names.len() - i,
        {
            proof {
                assert(p.child_names.deep_view()[i as int] == p.child_names[i as int]@);
                assert(p.child_names.deep_view().subrange(0, i + 1).drop_last()
                    =~= p.child_names.deep_view().subrange(0, i as int));
                assert(p.child_names.deep_view().subrange(0, i + 1).last()
                    == p.child_names.deep_view()[i as int]);
            }
            if contains_string(&self.settings.home_markers, &p.child_names[i]) {
                markers_found += 1;
            }
            i += 1;
        }
        proof {
            assert(p.child_names.deep_view().subrange(0, p.child_names.deep_view().len() as int)
                =~= p.child_names.deep_view());
        }
        if markers_found >= 3 {
            return Some(Category::Backups);
        }
        None
    }
}

} // verus!
