use vstd::prelude::*;
use vstd::string::StringExecFns;
use crate::categorize::{Category, dir_name_of};
use crate::utils::{
    builder_globs, first_char, glob_new, glob_ok, glob_one_matches, globset_build,
    globset_builder_add, globset_builder_new, globset_matches, lines_of, split_lines, trim_str,
    trimmed_of,
};

verus! {

/// The resolved settings the planner and classifier consult: per-category
/// extension lists, delete glob patterns, home-backup marker names and
/// code-file extensions.
#[derive(Debug, Clone)]
pub struct Settings {
    pub media_exts: Vec<String>,
    pub audio_exts: Vec<String>,
    pub document_exts: Vec<String>,
    pub archive_exts: Vec<String>,
    pub delete_patterns: Vec<String>,
    pub home_markers: Vec<String>,
    pub code_exts: Vec<String>,
}

/// A configuration line is kept when its trimmed form is nonempty and is
/// not a comment.
pub open spec fn keep_line(l: Seq<char>) -> bool {
    trimmed_of(l).len() > 0 && trimmed_of(l)[0] != '#'
}

/// The list read from the given lines: each kept line, trimmed, in order.
pub open spec fn parse_lines_spec(lines: Seq<Seq<char>>) -> Seq<Seq<char>>
    decreases lines.len(),
{
    if lines.len() == 0 {
        Seq::empty()
    } else {
        let rest = parse_lines_spec(lines.drop_last());
        if keep_line(lines.last()) {
            rest.push(trimmed_of(lines.last()))
        } else {
            rest
        }
    }
}

/// The list read from a configuration file's text.
pub open spec fn parse_list_spec(text: Seq<char>) -> Seq<Seq<char>> {
    parse_lines_spec(lines_of(text))
}

/// Reads a list from a configuration file's text: one entry per line,
/// trimmed, skipping blank lines and `#` comments.
pub fn parse_list(text: &str) -> (r: Vec<String>)
    ensures
        r.deep_view() == parse_list_spec(text@),
{
    let lines = split_lines(text);
    let mut out: Vec<String> = Vec::new();
    let mut i: usize = 0;
    while i < lines.len()
        invariant
            0 <= i <= lines.len(),
            lines.len() == lines.deep_view().len(),
            lines.deep_view() == lines_of(text@),
            out.deep_view() == parse_lines_spec(lines.deep_view().subrange(0, i as int)),
        decreases lines.len() - i,
    {
        let t = trim_str(lines[i].as_str());
        proof {
            assert(lines.deep_view()[i as int] == lines[i as int]@);
            assert(lines.deep_view().subrange(0, i + 1).drop_last() =~= lines.deep_view()
                .subrange(0, i as int));
            assert(lines.deep_view().subrange(0, i + 1).last() == lines.deep_view()[i as int]);
        }
        let keep = if t.as_str().is_empty() {
            false
        } else {
            match first_char(t.as_str()) {
                Some(c) => c != '#',
                None => false,
            }
        };
        let ghost prev = out.deep_view();
        if keep {
            out.push(t);
            proof {
                assert(out.deep_view() =~= prev.push(trimmed_of(lines.deep_view()[i as int])))
                    by {
                    assert(forall|k: int| 0 <= k < prev.len() ==> out.deep_view()[k] == prev[k]);
                }
            }
        }
        i += 1;
    }
    proof {
        assert(lines.deep_view().subrange(0, lines.deep_view().len() as int) =~= lines
            .deep_view());
    }
    out
}

/// The text written back for a default list: each entry whose trimmed form
/// is nonempty, on a line of its own.
pub open spec fn render_list_spec(lines: Seq<Seq<char>>) -> Seq<char>
    decreases lines.len(),
{
    if lines.len() == 0 {
        Seq::empty()
    } else {
        render_list_spec(lines.drop_last()) + (if trimmed_of(lines.last()).len() > 0 {
            lines.last().push('\n')
        } else {
            Seq::<char>::empty()
        })
    }
}

/// Renders a list as the text of a configuration file: one entry per line,
/// leaving out entries that are blank once trimmed.
pub fn render_list_file(lines: &Vec<String>) -> (r: String)
    ensures
        r@ == render_list_spec(lines.deep_view()),
{
    let mut s = String::new();
    let mut i: usize = 0;
    while i < lines.len()
        invariant
            0 <= i <= lines.len(),
            lines.len() == lines.deep_view().len(),
            s@ == render_list_spec(lines.deep_view().subrange(0, i as int)),
        decreases lines.len() - i,
    {
        let t = trim_str(lines[i].as_str());
        proof {
            reveal_strlit("\n");
            assert(lines.deep_view()[i as int] == lines[i as int]@);
            assert(lines.deep_view().subrange(0, i + 1).drop_last() =~= lines.deep_view()
                .subrange(0, i as int));
            assert(lines.deep_view().subrange(0, i + 1).last() == lines.deep_view()[i as int]);
        }
        if !t.as_str().is_empty() {
            s.append(lines[i].as_str());
            s.append("\n");
            assert(s@ =~= render_list_spec(lines.deep_view().subrange(0, i + 1)));
        } else {
            assert(s@ =~= render_list_spec(lines.deep_view().subrange(0, i + 1)));
        }
        i += 1;
    }
    proof {
        assert(lines.deep_view().subrange(0, lines.deep_view().len() as int) =~= lines
            .deep_view());
    }
    s
}

fn push_s(v: &mut Vec<String>, s: &str)
    ensures
        final(v).deep_view() == old(v).deep_view().push(s@),
{
    let ghost prev = v.deep_view();
    v.push(s.to_owned());
    proof {
        assert(v.deep_view() =~= prev.push(s@)) by {
            assert(forall|k: int| 0 <= k < prev.len() ==> v.deep_view()[k] == prev[k]);
        }
    }
}

/// The built-in media (image and video) extensions.
pub open spec fn default_media_exts_spec() -> Seq<Seq<char>> {
    seq![
        "jpg"@, "jpeg"@, "png"@, "gif"@, "bmp"@, "tiff"@, "tif"@, "webp"@, "heic"@, "heif"@,
        "raw"@, "cr2"@, "nef"@, "arw"@, "raf"@, "dng"@, "mp4"@, "mkv"@, "avi"@, "mov"@, "flv"@,
        "webm"@, "mpeg"@, "mpg"@, "m4v"@, "3gp"@, "3g2"@,
    ]
}

/// The built-in media (image and video) extensions.
pub fn default_media_exts() -> (r: Vec<String>)
    ensures
        r.deep_view() == default_media_exts_spec(),
{
    let mut v: Vec<String> = Vec::new();
    push_s(&mut v, "jpg");
    push_s(&mut v, "jpeg");
    push_s(&mut v, "png");
    push_s(&mut v, "gif");
    push_s(&mut v, "bmp");
    push_s(&mut v, "tiff");
    push_s(&mut v, "tif");
    push_s(&mut v, "webp");
    push_s(&mut v, "heic");
    push_s(&mut v, "heif");
    push_s(&mut v, "raw");
    push_s(&mut v, "cr2");
    push_s(&mut v, "nef");
    push_s(&mut v, "arw");
    push_s(&mut v, "raf");
    push_s(&mut v, "dng");
    push_s(&mut v, "mp4");
    push_s(&mut v, "mkv");
    push_s(&mut v, "avi");
    push_s(&mut v, "mov");
    push_s(&mut v, "flv");
    push_s(&mut v, "webm");
    push_s(&mut v, "mpeg");
    push_s(&mut v, "mpg");
    push_s(&mut v, "m4v");
    push_s(&mut v, "3gp");
    push_s(&mut v, "3g2");
    assert(v.deep_view() =~= default_media_exts_spec());
    v
}

/// The built-in audio extensions.
pub open spec fn default_audio_exts_spec() -> Seq<Seq<char>> {
    seq![
        "mp3"@, "wav"@, "flac"@, "ogg"@, "oga"@, "opus"@, "aac"@, "m4a"@, "wma"@, "aiff"@,
        "aif"@, "mid"@, "midi"@,
    ]
}

/// The built-in audio extensions.
pub fn default_audio_exts() -> (r: Vec<String>)
    ensures
        r.deep_view() == default_audio_exts_spec(),
{
    let mut v: Vec<String> = Vec::new();
    push_s(&mut v, "mp3");
    push_s(&mut v, "wav");
    push_s(&mut v, "flac");
    push_s(&mut v, "ogg");
    push_s(&mut v, "oga");
    push_s(&mut v, "opus");
    push_s(&mut v, "aac");
    push_s(&mut v, "m4a");
    push_s(&mut v, "wma");
    push_s(&mut v, "aiff");
    push_s(&mut v, "aif");
    push_s(&mut v, "mid");
    push_s(&mut v, "midi");
    assert(v.deep_view() =~= default_audio_exts_spec());
    v
}

/// The built-in document extensions.
pub open spec fn default_document_exts_spec() -> Seq<Seq<char>> {
    seq![
        "pdf"@, "doc"@, "docx"@, "xls"@, "xlsx"@, "ppt"@, "pptx"@, "odt"@, "ods"@, "odp"@,
        "rtf"@, "txt"@, "csv"@, "md"@, "markdown"@, "epub"@, "mobi"@,
    ]
}

/// The built-in document extensions.
pub fn default_document_exts() -> (r: Vec<String>)
    ensures
        r.deep_view() == default_document_exts_spec(),
{
    let mut v: Vec<String> = Vec::new();
    push_s(&mut v, "pdf");
    push_s(&mut v, "doc");
    push_s(&mut v, "docx");
    push_s(&mut v, "xls");
    push_s(&mut v, "xlsx");
    push_s(&mut v, "ppt");
    push_s(&mut v, "pptx");
    push_s(&mut v, "odt");
    push_s(&mut v, "ods");
    push_s(&mut v, "odp");
    push_s(&mut v, "rtf");
    push_s(&mut v, "txt");
    push_s(&mut v, "csv");
    push_s(&mut v, "md");
    push_s(&mut v, "markdown");
    push_s(&mut v, "epub");
    push_s(&mut v, "mobi");
    assert(v.deep_view() =~= default_document_exts_spec());
    v
}

/// The built-in archive extensions.
pub open spec fn default_archive_exts_spec() -> Seq<Seq<char>> {
    seq![
        "zip"@, "tar"@, "gz"@, "tgz"@, "bz2"@, "tbz"@, "xz"@, "7z"@, "rar"@, "iso"@, "img"@,
    ]
}

/// The built-in archive extensions.
pub fn default_archive_exts() -> (r: Vec<String>)
    ensures
        r.deep_view() == default_archive_exts_spec(),
{
    let mut v: Vec<String> = Vec::new();
    push_s(&mut v, "zip");
    push_s(&mut v, "tar");
    push_s(&mut v, "gz");
    push_s(&mut v, "tgz");
    push_s(&mut v, "bz2");
    push_s(&mut v, "tbz");
    push_s(&mut v, "xz");
    push_s(&mut v, "7z");
    push_s(&mut v, "rar");
    push_s(&mut v, "iso");
    push_s(&mut v, "img");
    assert(v.deep_view() =~= default_archive_exts_spec());
    v
}

/// The built-in code-file extensions used by the project heuristic.
pub open spec fn default_code_exts_spec() -> Seq<Seq<char>> {
    seq![
        "rs"@, "py"@, "c"@, "cpp"@, "h"@, "hpp"@, "java"@, "kt"@, "go"@, "js"@, "ts"@, "tsx"@,
        "jsx"@, "php"@, "rb"@, "swift"@, "cs"@, "sh"@, "bash"@, "zsh"@, "fish"@, "ps1"@, "pl"@,
        "lua"@, "r"@, "sql"@, "json"@, "toml"@, "yaml"@, "yml"@, "xml"@, "gradle"@, "lock"@,
        "makefile"@, "cmake"@,
    ]
}

/// The built-in code-file extensions used by the project heuristic.
pub fn default_code_exts() -> (r: Vec<String>)
    ensures
        r.deep_view() == default_code_exts_spec(),
{
    let mut v: Vec<String> = Vec::new();
    push_s(&mut v, "rs");
    push_s(&mut v, "py");
    push_s(&mut v, "c");
    push_s(&mut v, "cpp");
    push_s(&mut v, "h");
    push_s(&mut v, "hpp");
    push_s(&mut v, "java");
    push_s(&mut v, "kt");
    push_s(&mut v, "go");
    push_s(&mut v, "js");
    push_s(&mut v, "ts");
    push_s(&mut v, "tsx");
    push_s(&mut v, "jsx");
    push_s(&mut v, "php");
    push_s(&mut v, "rb");
    push_s(&mut v, "swift");
    push_s(&mut v, "cs");
    push_s(&mut v, "sh");
    push_s(&mut v, "bash");
    push_s(&mut v, "zsh");
    push_s(&mut v, "fish");
    push_s(&mut v, "ps1");
    push_s(&mut v, "pl");
    push_s(&mut v, "lua");
    push_s(&mut v, "r");
    push_s(&mut v, "sql");
    push_s(&mut v, "json");
    push_s(&mut v, "toml");
    push_s(&mut v, "yaml");
    push_s(&mut v, "yml");
    push_s(&mut v, "xml");
    push_s(&mut v, "gradle");
    push_s(&mut v, "lock");
    push_s(&mut v, "makefile");
    push_s(&mut v, "cmake");
    assert(v.deep_view() =~= default_code_exts_spec());
    v
}

/// The built-in marker names used to detect a home-backup directory.
pub open spec fn default_home_markers_spec() -> Seq<Seq<char>> {
    seq![
        "Documents"@, "Documenten"@, "Downloads"@, "Afbeeldingen"@, "Pictures"@, "Muziek"@,
        "Music"@, "Videos"@, "Video's"@, "Bureaublad"@, "Desktop"@, ".config"@, ".local"@,
        ".bash_history"@, ".bashrc"@, ".profile"@, "Public"@, "Publiek"@,
    ]
}

/// The built-in marker names used to detect a home-backup directory.
pub fn default_home_markers() -> (r: Vec<String>)
    ensures
        r.deep_view() == default_home_markers_spec(),
{
    let mut v: Vec<String> = Vec::new();
    push_s(&mut v, "Documents");
    push_s(&mut v, "Documenten");
    push_s(&mut v, "Downloads");
    push_s(&mut v, "Afbeeldingen");
    push_s(&mut v, "Pictures");
    push_s(&mut v, "Muziek");
    push_s(&mut v, "Music");
    push_s(&mut v, "Videos");
    push_s(&mut v, "Video's");
    push_s(&mut v, "Bureaublad");
    push_s(&mut v, "Desktop");
    push_s(&mut v, ".config");
    push_s(&mut v, ".local");
    push_s(&mut v, ".bash_history");
    push_s(&mut v, ".bashrc");
    push_s(&mut v, ".profile");
    push_s(&mut v, "Public");
    push_s(&mut v, "Publiek");
    assert(v.deep_view() =~= default_home_markers_spec());
    v
}

/// The built-in glob patterns for cache, temporary and junk files.
pub open spec fn default_delete_patterns_spec() -> Seq<Seq<char>> {
    seq![
        "**/.cache/**"@, "**/Cache/**"@, "**/Thumbnails/**"@, "**/thumbs.db"@, "**/Thumbs.db"@,
        "**/.DS_Store"@, "**/*.tmp"@, "**/*.temp"@, "**/*.swp"@, "**/*.swo"@, "**/*~"@,
        "**/.Trash/**"@, "**/*.part"@, "**/~$*"@, "**/desktop.ini"@,
    ]
}

/// The built-in glob patterns for cache, temporary and junk files.
pub fn default_delete_patterns() -> (r: Vec<String>)
    ensures
        r.deep_view() == default_delete_patterns_spec(),
{
    let mut v: Vec<String> = Vec::new();
    push_s(&mut v, "**/.cache/**");
    push_s(&mut v, "**/Cache/**");
    push_s(&mut v, "**/Thumbnails/**");
    push_s(&mut v, "**/thumbs.db");
    push_s(&mut v, "**/Thumbs.db");
    push_s(&mut v, "**/.DS_Store");
    push_s(&mut v, "**/*.tmp");
    push_s(&mut v, "**/*.temp");
    push_s(&mut v, "**/*.swp");
    push_s(&mut v, "**/*.swo");
    push_s(&mut v, "**/*~");
    push_s(&mut v, "**/.Trash/**");
    push_s(&mut v, "**/*.part");
    push_s(&mut v, "**/~$*");
    push_s(&mut v, "**/desktop.ini");
    assert(v.deep_view() =~= default_delete_patterns_spec());
    v
}

/// A configuration list field: the parsed file text where one was read,
/// the built-in default where none was.
pub open spec fn list_or_default_spec(src: Option<Seq<char>>, def: Seq<Seq<char>>) -> Seq<
    Seq<char>,
> {
    match src {
        Some(text) => parse_list_spec(text),
        None => def,
    }
}

/// The syntactically valid glob patterns among the given ones, in order.
pub open spec fn valid_patterns_spec(pats: Seq<Seq<char>>) -> Seq<Seq<char>>
    decreases pats.len(),
{
    if pats.len() == 0 {
        Seq::empty()
    } else {
        let rest = valid_patterns_spec(pats.drop_last());
        if glob_ok(pats.last()) {
            rest.push(pats.last())
        } else {
            rest
        }
    }
}

/// A path matches some member of the filtered valid-pattern list exactly
/// when it matches some syntactically valid member of the full list.
proof fn lemma_valid_patterns_match(pats: Seq<Seq<char>>, path: Seq<char>)
    ensures
        (exists|j: int|
            0 <= j < valid_patterns_spec(pats).len() && #[trigger] glob_one_matches(
                valid_patterns_spec(pats)[j],
                path,
            )) <==> (exists|k: int|
            0 <= k < pats.len() && glob_ok(#[trigger] pats[k]) && glob_one_matches(
                pats[k],
                path,
            )),
    decreases pats.len(),
{
    if pats.len() == 0 {
    } else {
        let dl = pats.drop_last();
        lemma_valid_patterns_match(dl, path);
        let v = valid_patterns_spec(pats);
        let vdl = valid_patterns_spec(dl);
        assert(forall|k: int| 0 <= k < dl.len() ==> #[trigger] dl[k] == pats[k]);
        if exists|j: int|
            0 <= j < v.len() && #[trigger] glob_one_matches(v[j], path) {
            let j = choose|j: int| 0 <= j < v.len() && #[trigger] glob_one_matches(v[j], path);
            if glob_ok(pats.last()) && j == v.len() - 1 {
                assert(v[j] == pats.last());
                assert(glob_ok(pats[pats.len() - 1]) && glob_one_matches(
                    pats[pats.len() - 1],
                    path,
                ));
            } else {
                assert(v[j] == vdl[j]);
                assert(exists|j2: int|
                    0 <= j2 < vdl.len() && #[trigger] glob_one_matches(vdl[j2], path));
                let k = choose|k: int|
                    0 <= k < dl.len() && glob_ok(#[trigger] dl[k]) && glob_one_matches(
                        dl[k],
                        path,
                    );
                assert(glob_ok(pats[k]) && glob_one_matches(pats[k], path));
            }
        }
        if exists|k: int|
            0 <= k < pats.len() && glob_ok(#[trigger] pats[k]) && glob_one_matches(
                pats[k],
                path,
            ) {
            let k = choose|k: int|
                0 <= k < pats.len() && glob_ok(#[trigger] pats[k]) && glob_one_matches(
                    pats[k],
                    path,
                );
            if k == pats.len() - 1 {
                assert(glob_ok(pats.last()));
                assert(v[v.len() - 1] == pats.last());
                assert(glob_one_matches(v[v.len() - 1], path));
            } else {
                assert(glob_ok(dl[k]) && glob_one_matches(dl[k], path));
                assert(exists|k2: int|
                    0 <= k2 < dl.len() && glob_ok(#[trigger] dl[k2]) && glob_one_matches(
                        dl[k2],
                        path,
                    ));
                let j = choose|j: int|
                    0 <= j < vdl.len() && #[trigger] glob_one_matches(vdl[j], path);
                assert(v[j] == vdl[j]);
                assert(glob_one_matches(v[j], path));
            }
        }
    }
}

impl Settings {
    /// Settings assembled from the configuration files' texts, falling
    /// back to the built-in default for each file that could not be read.
    pub fn from_sources(
        media: Option<&String>,
        audio: Option<&String>,
        documents: Option<&String>,
        archives: Option<&String>,
        code: Option<&String>,
        markers: Option<&String>,
        patterns: Option<&String>,
    ) -> (r: Settings)
        ensures
            r.media_exts.deep_view() == list_or_default_spec(
                deep_view_opt(media),
                default_media_exts_spec(),
            ),
            r.audio_exts.deep_view() == list_or_default_spec(
                deep_view_opt(audio),
                default_audio_exts_spec(),
            ),
            r.document_exts.deep_view() == list_or_default_spec(
                deep_view_opt(documents),
                default_document_exts_spec(),
            ),
            r.archive_exts.deep_view() == list_or_default_spec(
                deep_view_opt(archives),
                default_archive_exts_spec(),
            ),
            r.code_exts.deep_view() == list_or_default_spec(
                deep_view_opt(code),
                default_code_exts_spec(),
            ),
            r.home_markers.deep_view() == list_or_default_spec(
                deep_view_opt(markers),
                default_home_markers_spec(),
            ),
            r.delete_patterns.deep_view() == list_or_default_spec(
                deep_view_opt(patterns),
                default_delete_patterns_spec(),
            ),
    {
        Settings {
            media_exts: match media {
                Some(t) => parse_list(t.as_str()),
                None => default_media_exts(),
            },
            audio_exts: match audio {
                Some(t) => parse_list(t.as_str()),
                None => default_audio_exts(),
            },
            document_exts: match documents {
                Some(t) => parse_list(t.as_str()),
                None => default_document_exts(),
            },
            archive_exts: match archives {
                Some(t) => parse_list(t.as_str()),
                None => default_archive_exts(),
            },
            code_exts: match code {
                Some(t) => parse_list(t.as_str()),
                None => default_code_exts(),
            },
            home_markers: match markers {
                Some(t) => parse_list(t.as_str()),
                None => default_home_markers(),
            },
            delete_patterns: match patterns {
                Some(t) => parse_list(t.as_str()),
                None => default_delete_patterns(),
            },
        }
    }

    /// The fixed destination subdirectory names, one per category, in the
    /// categories' declaration order.
    pub fn category_names(&self) -> (r: Vec<String>)
        ensures
            r.deep_view() == seq![
                dir_name_of(Category::Media),
                dir_name_of(Category::Music),
                dir_name_of(Category::Documents),
                dir_name_of(Category::Archives),
                dir_name_of(Category::Projects),
                dir_name_of(Category::GitRepos),
                dir_name_of(Category::Backups),
                dir_name_of(Category::Others),
            ],
    {
        let mut v: Vec<String> = Vec::new();
        push_s(&mut v, "Media");
        push_s(&mut v, "Music");
        push_s(&mut v, "Documents");
        push_s(&mut v, "Archives");
        push_s(&mut v, "Projects");
        push_s(&mut v, "GitRepos");
        push_s(&mut v, "Backups");
        push_s(&mut v, "Others");
        assert(v.deep_view() =~= seq![
            dir_name_of(Category::Media),
            dir_name_of(Category::Music),
            dir_name_of(Category::Documents),
            dir_name_of(Category::Archives),
            dir_name_of(Category::Projects),
            dir_name_of(Category::GitRepos),
            dir_name_of(Category::Backups),
            dir_name_of(Category::Others),
        ]);
        v
    }

    /// Builds the glob matcher for the delete patterns, skipping malformed
    /// patterns as the configuration format tolerates: a built matcher
    /// matches a path exactly when at least one syntactically valid
    /// configured pattern matches it, and a malformed pattern never fails
    /// the build and never matches anything. Whether the final compilation
    /// succeeds is the glob library's decision.
    pub fn delete_matcher(&self) -> (r: Option<globset::GlobSet>)
        ensures
            match r {
                Some(m) => forall|path: Seq<char>|
                    #[trigger] globset_matches(m, path) <==> exists|k: int|
                        0 <= k < self.delete_patterns.deep_view().len() && glob_ok(
                            #[trigger] self.delete_patterns.deep_view()[k],
                        ) && glob_one_matches(self.delete_patterns.deep_view()[k], path),
                None => true,
            },
    {
        let mut builder = globset_builder_new();
        let mut i: usize = 0;
        while i < self.delete_patterns.len()
            invariant
                0 <= i <= self.delete_patterns.len(),
                self.delete_patterns.len() == self.delete_patterns.deep_view().len(),
                builder_globs(builder) == valid_patterns_spec(
                    self.delete_patterns.deep_view().subrange(0, i as int),
                ),
            decreases self.delete_patterns.len() - i,
        {
            proof {
                assert(self.delete_patterns.deep_view()[i as int] == self.delete_patterns[
                    i as int]@);
                assert(self.delete_patterns.deep_view().subrange(0, i + 1).drop_last() =~= self
                    .delete_patterns.deep_view().subrange(0, i as int));
                assert(self.delete_patterns.deep_view().subrange(0, i + 1).last() == self
                    .delete_patterns.deep_view()[i as int]);
            }
            match glob_new(self.delete_patterns[i].as_str()) {
                Some(g) => globset_builder_add(&mut builder, g),
                None => (),
            }
            i += 1;
        }
        proof {
            assert(self.delete_patterns.deep_view().subrange(
                0,
                self.delete_patterns.deep_view().len() as int,
            ) =~= self.delete_patterns.deep_view());
        }
        let r = globset_build(&builder);
        proof {
            if r is Some {
                let m = r->Some_0;
                assert forall|path: Seq<char>|
                    #[trigger] globset_matches(m, path) <==> exists|k: int|
                        0 <= k < self.delete_patterns.deep_view().len() && glob_ok(
                            #[trigger] self.delete_patterns.deep_view()[k],
                        ) && glob_one_matches(self.delete_patterns.deep_view()[k], path) by {
                    lemma_valid_patterns_match(self.delete_patterns.deep_view(), path);
                }
            }
        }
        r
    }
}

/// The view of an optional borrowed string.
pub open spec fn deep_view_opt(s: Option<&String>) -> Option<Seq<char>> {
    match s {
        Some(t) => Some(t@),
        None => None,
    }
}

} // verus!
