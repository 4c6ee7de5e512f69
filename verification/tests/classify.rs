use organizer::categorize::{is_archive_mime, is_document_mime, Categorizer, Category, DirProfile};
use organizer::config::{
    default_archive_exts, default_audio_exts, default_code_exts, default_delete_patterns,
    default_document_exts, default_home_markers, default_media_exts, parse_list,
    render_list_file, Settings,
};
use organizer::utils::{extension_of, is_pattern_match, readable_display, usize_decimal};

fn s(x: &str) -> String {
    x.to_string()
}

fn strs(xs: &[&str]) -> Vec<String> {
    xs.iter().map(|x| x.to_string()).collect()
}

fn default_settings() -> Settings {
    Settings::from_sources(None, None, None, None, None, None, None)
}

fn plain_profile(name: &str) -> DirProfile {
    DirProfile {
        name: s(name),
        has_config_file: false,
        has_objects_dir: false,
        has_refs_dir: false,
        has_git_dir: false,
        config_lines: vec![],
        child_file_names: vec![],
        child_names: vec![],
    }
}

#[test]
fn as_dir_names_are_fixed() {
    assert_eq!(Category::Media.as_dir(), "Media");
    assert_eq!(Category::Music.as_dir(), "Music");
    assert_eq!(Category::Documents.as_dir(), "Documents");
    assert_eq!(Category::Archives.as_dir(), "Archives");
    assert_eq!(Category::Projects.as_dir(), "Projects");
    assert_eq!(Category::GitRepos.as_dir(), "GitRepos");
    assert_eq!(Category::Backups.as_dir(), "Backups");
    assert_eq!(Category::Others.as_dir(), "Others");
}

#[test]
fn category_names_in_order() {
    let settings = default_settings();
    let names = settings.category_names();
    assert_eq!(
        names,
        strs(&["Media", "Music", "Documents", "Archives", "Projects", "GitRepos", "Backups",
            "Others"])
    );
}

#[test]
fn default_lists_hold_known_entries() {
    let media = default_media_exts();
    assert_eq!(media[0], "jpg");
    assert_eq!(media.len(), 27);
    assert!(media.contains(&s("mkv")));
    let audio = default_audio_exts();
    assert_eq!(audio.len(), 13);
    assert!(audio.contains(&s("flac")));
    let docs = default_document_exts();
    assert_eq!(docs.len(), 17);
    assert!(docs.contains(&s("pdf")));
    let arch = default_archive_exts();
    assert_eq!(arch.len(), 11);
    assert!(arch.contains(&s("7z")));
    let code = default_code_exts();
    assert_eq!(code.len(), 35);
    assert!(code.contains(&s("rs")));
    let markers = default_home_markers();
    assert_eq!(markers.len(), 18);
    assert!(markers.contains(&s(".bashrc")));
    let pats = default_delete_patterns();
    assert_eq!(pats.len(), 15);
    assert!(pats.contains(&s("**/*.tmp")));
}

#[test]
fn extension_of_cases() {
    assert_eq!(extension_of("photo.JPG"), Some(s("JPG")));
    assert_eq!(extension_of("archive.tar.gz"), Some(s("gz")));
    assert_eq!(extension_of(".bashrc"), None);
    assert_eq!(extension_of("README"), None);
}

#[test]
fn categorize_by_extension_case_insensitive() {
    let settings = default_settings();
    let c = Categorizer::new(&settings, false);
    assert_eq!(c.categorize_file("photo.JPG", &[], None), Category::Media);
    assert_eq!(c.categorize_file("song.FlAc", &[], None), Category::Music);
    assert_eq!(c.categorize_file("paper.pdf", &[], None), Category::Documents);
    assert_eq!(c.categorize_file("bundle.7z", &[], None), Category::Archives);
    assert_eq!(c.categorize_file("stuff.unknownext", &[], None), Category::Others);
}

#[test]
fn extension_precedence_is_fixed() {
    // An extension listed under both Media and Documents classifies as
    // Media: the earliest list in the fixed order wins.
    let mut settings = default_settings();
    settings.media_exts.push(s("both"));
    settings.document_exts.push(s("both"));
    let c = Categorizer::new(&settings, false);
    assert_eq!(c.categorize_file("x.both", &[], None), Category::Media);
}

#[test]
fn categorize_sniffs_content_when_extension_unknown() {
    let settings = default_settings();
    let c = Categorizer::new(&settings, false);
    // A JPEG magic header with no usable extension.
    let head = [0xFFu8, 0xD8, 0xFF, 0xE0, 0x00, 0x10, 0x4A, 0x46, 0x49, 0x46];
    assert_eq!(c.categorize_file("mystery.bin_data", &head, None), Category::Media);
    // The extension wins over content when it is known.
    assert_eq!(c.categorize_file("notes.txt", &head, None), Category::Documents);
    // The sniff uses the same table as the probe: recognized document and
    // archive MIME names map to Documents and Archives.
    let pdf_head = b"%PDF-1.7\n%stuff";
    assert_eq!(c.categorize_file("scan.bin_data", pdf_head, None), Category::Documents);
    let zip_head = [0x50u8, 0x4B, 0x03, 0x04, 0x00, 0x00, 0x00, 0x00];
    assert_eq!(c.categorize_file("bundle.bin_data", &zip_head, None), Category::Archives);
}

#[test]
fn categorize_uses_probe_mime_when_enabled() {
    let settings = default_settings();
    let probing = Categorizer::new(&settings, true);
    let silent = Categorizer::new(&settings, false);
    let mime = s("application/pdf");
    assert_eq!(probing.categorize_file("blob", &[], Some(&mime)), Category::Documents);
    // With the probe disabled the same answer is ignored.
    assert_eq!(silent.categorize_file("blob", &[], Some(&mime)), Category::Others);
    let audio = s("audio/ogg");
    assert_eq!(probing.categorize_file("blob", &[], Some(&audio)), Category::Music);
}

#[test]
fn document_and_archive_mimes() {
    assert!(is_document_mime("application/pdf"));
    assert!(is_document_mime("text/plain"));
    assert!(!is_document_mime("application/zip"));
    assert!(is_archive_mime("application/zip"));
    assert!(is_archive_mime("application/x-tar"));
    assert!(!is_archive_mime("text/plain"));
}

#[test]
fn detect_bare_git_repo() {
    let settings = default_settings();
    let c = Categorizer::new(&settings, false);
    let mut p = plain_profile("mirror.git");
    p.has_config_file = true;
    p.has_objects_dir = true;
    p.has_refs_dir = true;
    assert_eq!(c.detect_special_directory(&p), Some(Category::GitRepos));
    // A bare = true config line alone is also enough.
    let mut q = plain_profile("anything");
    q.config_lines = strs(&["[core]", "\tbare = true"]);
    assert_eq!(c.detect_special_directory(&q), Some(Category::GitRepos));
}

#[test]
fn detect_working_repo_and_heuristics() {
    let settings = default_settings();
    let c = Categorizer::new(&settings, false);
    let mut p = plain_profile("myproject");
    p.has_git_dir = true;
    assert_eq!(c.detect_special_directory(&p), Some(Category::Projects));

    let mut five_code = plain_profile("src_dump");
    five_code.child_file_names = strs(&["a.rs", "b.py", "c.c", "d.GO", "e.js"]);
    assert_eq!(c.detect_special_directory(&five_code), Some(Category::Projects));

    let mut four_code = plain_profile("few");
    four_code.child_file_names = strs(&["a.rs", "b.py", "c.c", "d.go"]);
    assert_eq!(c.detect_special_directory(&four_code), None);

    let mut home = plain_profile("old-laptop");
    home.child_names = strs(&["Documents", "Downloads", ".bashrc", "misc"]);
    assert_eq!(c.detect_special_directory(&home), Some(Category::Backups));

    let mut two_markers = plain_profile("not-home");
    two_markers.child_names = strs(&["Documents", "Downloads"]);
    assert_eq!(c.detect_special_directory(&two_markers), None);
}

#[test]
fn parse_list_trims_and_skips_comments() {
    let text = "jpg\n# a comment\n\n  png  \n\t\ngif";
    assert_eq!(parse_list(text), strs(&["jpg", "png", "gif"]));
}

#[test]
fn from_sources_prefers_file_text_over_defaults() {
    let media_text = s("aaa\nbbb");
    let settings = Settings::from_sources(Some(&media_text), None, None, None, None, None, None);
    assert_eq!(settings.media_exts, strs(&["aaa", "bbb"]));
    assert_eq!(settings.audio_exts, default_audio_exts());
}

#[test]
fn render_list_file_skips_blank_entries() {
    let lines = strs(&["a", "  ", "b"]);
    assert_eq!(render_list_file(&lines), "a\nb\n");
}

#[test]
fn delete_matcher_matches_junk_paths() {
    let settings = default_settings();
    let matcher = settings.delete_matcher().expect("default patterns compile");
    assert!(is_pattern_match(&matcher, "home/user/work/junk.tmp"));
    assert!(is_pattern_match(&matcher, "home/user/.cache/x/y"));
    assert!(is_pattern_match(&matcher, "a/.DS_Store"));
    assert!(!is_pattern_match(&matcher, "home/user/report.pdf"));
}

#[test]
fn readable_display_joins_components() {
    assert_eq!(readable_display(&strs(&["a", "b", "c.txt"])), "a/b/c.txt");
    assert_eq!(readable_display(&strs(&["", "root", "x"])), "/root/x");
    assert_eq!(readable_display(&strs(&["solo"])), "solo");
}

#[test]
fn usize_decimal_renders() {
    assert_eq!(usize_decimal(0), "0");
    assert_eq!(usize_decimal(7), "7");
    assert_eq!(usize_decimal(10), "10");
    assert_eq!(usize_decimal(9999), "9999");
}
