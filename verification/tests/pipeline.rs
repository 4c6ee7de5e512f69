use organizer::actions::{
    is_cross_device, log_line_for, unique_dest_path, unique_dir_dest, Action, ActionEngine,
    DirNode,
};
use organizer::categorize::Categorizer;
use organizer::config::Settings;
use organizer::dedupe::{content_digest, encode, DedupeMethod, DedupeMode, DedupePlan};
use organizer::planner::{compute_skip_roots, Entry, EntryKind, Planner};

fn s(x: &str) -> String {
    x.to_string()
}

fn p(parts: &[&str]) -> Vec<String> {
    parts.iter().map(|x| x.to_string()).collect()
}

fn default_settings() -> Settings {
    Settings::from_sources(None, None, None, None, None, None, None)
}

fn file_entry(path: &[&str], size: u64) -> Entry {
    Entry { path: p(path), kind: EntryKind::File { size, head: vec![], cmd_mime: None } }
}

fn make_planner<'a>(
    settings: &'a Settings,
    matcher: &'a globset::GlobSet,
    skip_roots: Vec<Vec<String>>,
) -> Planner<'a> {
    let categorizer = Categorizer::new(settings, false);
    let names = settings.category_names();
    Planner::new(categorizer, matcher, true, p(&["root"]), skip_roots, None, names)
}

#[test]
fn log_lines_are_identical_between_dry_run_and_apply() {
    let actions = vec![
        Action::MoveFile(p(&["root", "a.jpg"]), p(&["root", "Media"])),
        Action::MoveDir(p(&["root", "proj"]), p(&["root", "Projects", "proj"])),
        Action::Delete(p(&["root", "junk.tmp"]), s("cache/temp/junk (pattern)")),
    ];
    let mut dry = ActionEngine::new(false, false);
    let mut wet = ActionEngine::new(true, false);
    let dry_lines = dry.execute_all(&actions);
    let wet_lines = wet.execute_all(&actions);
    assert_eq!(dry_lines, wet_lines);
    assert_eq!(dry_lines[0], "MOVE root/a.jpg -> root/Media/a.jpg");
    assert_eq!(dry_lines[1], "MOVE-DIR root/proj -> root/Projects/proj");
    assert_eq!(dry_lines[2], "DELETE root/junk.tmp (cache/temp/junk (pattern))");
    // Only apply mode asks the caller to perform the mutation.
    let (_, perform_dry) = dry.execute(&actions[0]);
    let (_, perform_wet) = wet.execute(&actions[0]);
    assert!(!perform_dry);
    assert!(perform_wet);
}

#[test]
fn log_line_formats() {
    let a = Action::MoveFile(p(&["x", "f.txt"]), p(&["x", "Documents"]));
    assert_eq!(log_line_for(&a), "MOVE x/f.txt -> x/Documents/f.txt");
    let d = Action::Delete(p(&["x", "dead"]), s("broken symlink"));
    assert_eq!(log_line_for(&d), "DELETE x/dead (broken symlink)");
}

#[test]
fn collision_safe_rename_appends_numeric_suffix() {
    let occupied = vec![s("foo.txt")];
    assert_eq!(unique_dest_path(&occupied, "foo.txt"), "foo-1.txt");
    let occupied2 = vec![s("foo.txt"), s("foo-1.txt")];
    assert_eq!(unique_dest_path(&occupied2, "foo.txt"), "foo-2.txt");
    let free: Vec<String> = vec![];
    assert_eq!(unique_dest_path(&free, "foo.txt"), "foo.txt");
    let no_ext = vec![s("README")];
    assert_eq!(unique_dest_path(&no_ext, "README"), "README-1");
    let dirs = vec![s("proj")];
    assert_eq!(unique_dir_dest(&dirs, "proj"), "proj-1");
    assert_eq!(unique_dir_dest(&dirs, "other"), "other");
}

#[test]
fn cross_device_detection() {
    assert!(is_cross_device(true, "failed to rename: EXDEV cross-device link"));
    assert!(!is_cross_device(true, "permission denied"));
    assert!(!is_cross_device(false, "EXDEV"));
}

#[test]
fn planner_moves_classifies_and_cleans() {
    let settings = default_settings();
    let matcher = settings.delete_matcher().unwrap();
    let names = settings.category_names();
    let skip_roots = compute_skip_roots(&p(&["root"]), &p(&["root"]), None, &names);
    let mut planner = make_planner(&settings, &matcher, skip_roots);

    assert!(!planner.on_entry(&file_entry(&["root", "pic.jpg"], 10)));
    assert!(!planner.on_entry(&file_entry(&["root", "junk.tmp"], 10)));
    assert!(!planner.on_entry(&file_entry(&["root", "empty.bin_data"], 0)));
    assert_eq!(planner.actions.len(), 3);
    match &planner.actions[0] {
        Action::MoveFile(src, dest) => {
            assert_eq!(src, &p(&["root", "pic.jpg"]));
            assert_eq!(dest, &p(&["root", "Media"]));
        },
        other => panic!("expected a file move, got {:?}", other),
    }
    match &planner.actions[1] {
        Action::Delete(path, reason) => {
            assert_eq!(path, &p(&["root", "junk.tmp"]));
            assert_eq!(reason, "cache/temp/junk (pattern)");
        },
        other => panic!("expected a delete, got {:?}", other),
    }
    match &planner.actions[2] {
        Action::Delete(path, reason) => {
            assert_eq!(path, &p(&["root", "empty.bin_data"]));
            assert_eq!(reason, "empty file");
        },
        other => panic!("expected a delete, got {:?}", other),
    }
}

#[test]
fn whole_directory_precedence_over_contents() {
    let settings = default_settings();
    let matcher = settings.delete_matcher().unwrap();
    let names = settings.category_names();
    let skip_roots = compute_skip_roots(&p(&["root"]), &p(&["root"]), None, &names);
    let mut planner = make_planner(&settings, &matcher, skip_roots);

    let profile = organizer::categorize::DirProfile {
        name: s("myproj"),
        has_config_file: false,
        has_objects_dir: false,
        has_refs_dir: false,
        has_git_dir: true,
        config_lines: vec![],
        child_file_names: vec![],
        child_names: vec![s(".git"), s("main.rs")],
    };
    let dir = Entry { path: p(&["root", "myproj"]), kind: EntryKind::Dir(profile) };
    // The directory is planned whole and the traversal must skip into it.
    assert!(planner.on_entry(&dir));
    assert_eq!(planner.actions.len(), 1);
    match &planner.actions[0] {
        Action::MoveDir(src, dest) => {
            assert_eq!(src, &p(&["root", "myproj"]));
            assert_eq!(dest, &p(&["root", "Projects", "myproj"]));
        },
        other => panic!("expected a directory move, got {:?}", other),
    }
    // A straggler entry below it is not planned independently.
    assert!(!planner.on_entry(&file_entry(&["root", "myproj", "main.rs"], 5)));
    assert_eq!(planner.actions.len(), 1);
}

#[test]
fn second_run_over_moved_tree_plans_nothing() {
    let settings = default_settings();
    let matcher = settings.delete_matcher().unwrap();
    let names = settings.category_names();
    let skip_roots = compute_skip_roots(&p(&["root"]), &p(&["root"]), None, &names);
    let mut planner = make_planner(&settings, &matcher, skip_roots);

    // After an applied run everything movable sits under a destination
    // category directory, which is a skip root: nothing is re-planned.
    assert!(!planner.on_entry(&file_entry(&["root", "Media", "pic.jpg"], 10)));
    assert!(!planner.on_entry(&file_entry(&["root", "Others", "junk.tmp"], 10)));
    assert!(planner.on_entry(&Entry {
        path: p(&["root", "Projects", "myproj"]),
        kind: EntryKind::Dir(organizer::categorize::DirProfile {
            name: s("myproj"),
            has_config_file: false,
            has_objects_dir: false,
            has_refs_dir: false,
            has_git_dir: true,
            config_lines: vec![],
            child_file_names: vec![],
            child_names: vec![],
        }),
    }));
    assert_eq!(planner.actions.len(), 0);
    assert_eq!(planner.planned_whole_dirs.len(), 0);
}

#[test]
fn category_named_directory_is_skipped_in_place() {
    let settings = default_settings();
    let matcher = settings.delete_matcher().unwrap();
    let names = settings.category_names();
    // No skip roots at all: the name check alone must stop the descent.
    let mut planner = make_planner(&settings, &matcher, vec![]);
    let dir = Entry {
        path: p(&["elsewhere", "Media"]),
        kind: EntryKind::Dir(organizer::categorize::DirProfile {
            name: s("Media"),
            has_config_file: false,
            has_objects_dir: false,
            has_refs_dir: false,
            has_git_dir: false,
            config_lines: vec![],
            child_file_names: vec![],
            child_names: vec![],
        }),
    };
    assert!(planner.on_entry(&dir));
    assert_eq!(planner.actions.len(), 0);
}

#[test]
fn broken_symlink_is_deleted_intact_one_left_alone() {
    let settings = default_settings();
    let matcher = settings.delete_matcher().unwrap();
    let names = settings.category_names();
    let skip_roots = compute_skip_roots(&p(&["root"]), &p(&["root"]), None, &names);
    let mut planner = make_planner(&settings, &matcher, skip_roots);

    let broken = Entry { path: p(&["root", "dangling"]), kind: EntryKind::Symlink { broken: true } };
    let intact = Entry { path: p(&["root", "alive"]), kind: EntryKind::Symlink { broken: false } };
    assert!(!planner.on_entry(&broken));
    assert!(!planner.on_entry(&intact));
    assert_eq!(planner.actions.len(), 1);
    match &planner.actions[0] {
        Action::Delete(path, reason) => {
            assert_eq!(path, &p(&["root", "dangling"]));
            assert_eq!(reason, "broken symlink");
        },
        other => panic!("expected a delete, got {:?}", other),
    }
}

#[test]
fn prune_removes_only_truly_empty_directories() {
    let mut engine = ActionEngine::new(false, false);
    // Contents first: inner before outer.
    let dirs = vec![
        DirNode { path: p(&["root", "a", "b"]), child_names: vec![] },
        DirNode { path: p(&["root", "a"]), child_names: vec![s("b")] },
        DirNode { path: p(&["root", "full"]), child_names: vec![s("keep.txt")] },
        DirNode { path: p(&["root", "Media"]), child_names: vec![] },
    ];
    let skip_roots = vec![p(&["root", "Media"])];
    let (lines, pruned) = engine.prune_empty_dirs(&dirs, &skip_roots);
    // The empty leaf goes, then its parent that only held it; the dir with
    // a remaining file stays; the skip root stays even though empty.
    assert_eq!(pruned, vec![p(&["root", "a", "b"]), p(&["root", "a"])]);
    assert_eq!(lines, vec![s("PRUNE root/a/b"), s("PRUNE root/a")]);
}

#[test]
fn dedupe_name_size_and_composition() {
    // Two records agreeing on name and size but (implicitly) differing in
    // content: with methods {Name, Size} they are duplicates and only the
    // first, in scan order, survives.
    let mut plan = DedupePlan::new(vec![DedupeMethod::Name, DedupeMethod::Size]);
    plan.add_file(p(&["a", "f.txt"]), s("f.txt"), 3);
    plan.add_file(p(&["b", "f.txt"]), s("f.txt"), 3);
    plan.add_file(p(&["c", "g.txt"]), s("g.txt"), 3);
    plan.set_hash_from_bytes(0, b"one");
    plan.set_hash_from_bytes(1, b"two");
    let mut engine = ActionEngine::new(false, false);
    let steps = plan.apply(DedupeMode::Delete, &mut engine);
    assert_eq!(steps.len(), 1);
    assert_eq!(steps[0].dup_path, p(&["b", "f.txt"]));
    assert_eq!(steps[0].relink_to, None);
    assert_eq!(steps[0].line, "DELETE b/f.txt (duplicate file)");
    assert!(!steps[0].perform_delete);
}

#[test]
fn dedupe_name_alone_differing_size_still_groups() {
    // With only {Name} enabled, size does not matter.
    let mut plan = DedupePlan::new(vec![DedupeMethod::Name]);
    plan.add_file(p(&["a", "f.txt"]), s("f.txt"), 1);
    plan.add_file(p(&["b", "f.txt"]), s("f.txt"), 999);
    let mut engine = ActionEngine::new(false, false);
    let steps = plan.apply(DedupeMode::Delete, &mut engine);
    assert_eq!(steps.len(), 1);
    assert_eq!(steps[0].dup_path, p(&["b", "f.txt"]));
}

#[test]
fn dedupe_name_and_size_respects_disagreement() {
    // Same name, different size: no duplicate under {Name, Size}.
    let mut plan = DedupePlan::new(vec![DedupeMethod::Name, DedupeMethod::Size]);
    plan.add_file(p(&["a", "f.txt"]), s("f.txt"), 3);
    plan.add_file(p(&["b", "f.txt"]), s("f.txt"), 4);
    let mut engine = ActionEngine::new(false, false);
    let steps = plan.apply(DedupeMode::Delete, &mut engine);
    assert_eq!(steps.len(), 0);
}

#[test]
fn dedupe_by_hash_groups_equal_content_only() {
    let mut plan = DedupePlan::new(vec![DedupeMethod::Hash]);
    plan.add_file(p(&["a", "x"]), s("x"), 5);
    plan.add_file(p(&["b", "y"]), s("y"), 5);
    plan.add_file(p(&["c", "z"]), s("z"), 5);
    plan.set_hash_from_bytes(0, b"hello");
    plan.set_hash_from_bytes(1, b"hello");
    plan.set_hash_from_bytes(2, b"world");
    // A real digest: 32 bytes, and different content gives different bytes.
    let h0 = plan.files[0].hash.clone().unwrap();
    let h2 = plan.files[2].hash.clone().unwrap();
    assert_eq!(h0.len(), 32);
    assert_ne!(h0, h2);
    let mut engine = ActionEngine::new(false, false);
    let steps = plan.apply(DedupeMode::Delete, &mut engine);
    assert_eq!(steps.len(), 1);
    assert_eq!(steps[0].dup_path, p(&["b", "y"]));
}

#[test]
fn dedupe_hardlink_mode_relinks_only_in_apply() {
    let mut plan = DedupePlan::new(vec![DedupeMethod::Name]);
    plan.add_file(p(&["a", "f"]), s("f"), 1);
    plan.add_file(p(&["b", "f"]), s("f"), 1);

    let mut dry = ActionEngine::new(false, false);
    let dry_steps = plan.apply(DedupeMode::Hardlink, &mut dry);
    assert_eq!(dry_steps.len(), 1);
    assert_eq!(dry_steps[0].relink_to, None);
    assert_eq!(dry_steps[0].line, "DELETE b/f (duplicate file (to hardlink))");

    let mut wet = ActionEngine::new(true, false);
    let wet_steps = plan.apply(DedupeMode::Symlink, &mut wet);
    assert_eq!(wet_steps.len(), 1);
    assert_eq!(wet_steps[0].relink_to, Some(p(&["a", "f"])));
    assert_eq!(wet_steps[0].line, "DELETE b/f (duplicate file (to symlink))");
    assert!(wet_steps[0].perform_delete);
}

#[test]
fn hex_encode_renders_lowercase_pairs() {
    assert_eq!(encode(&vec![0x00, 0x0f, 0xa5, 0xff]), "000fa5ff");
    assert_eq!(encode(&vec![]), "");
}

#[test]
fn skip_roots_cover_categories_and_under() {
    let settings = default_settings();
    let names = settings.category_names();
    let under = s("Organized");
    let roots = compute_skip_roots(&p(&["home"]), &p(&["home", "Organized"]), Some(&under), &names);
    assert_eq!(roots.len(), 9);
    assert_eq!(roots[0], p(&["home", "Organized", "Media"]));
    assert_eq!(roots[7], p(&["home", "Organized", "Others"]));
    assert_eq!(roots[8], p(&["home", "Organized"]));
    let without = compute_skip_roots(&p(&["home"]), &p(&["home"]), None, &names);
    assert_eq!(without.len(), 8);
}

#[test]
fn engine_records_the_line_stream() {
    let mut engine = ActionEngine::new(false, true);
    assert!(!engine.apply_mode());
    let a = Action::Delete(p(&["x"]), s("r"));
    let (line, _) = engine.execute(&a);
    assert_eq!(line, "DELETE x (r)");
    assert_eq!(engine.lines, vec![s("DELETE x (r)")]);
}

#[test]
fn digest_route_groups_like_in_memory_hashing() {
    // Installing digests computed through the library's entry point
    // groups exactly as hashing the bytes in place does.
    let mut plan = DedupePlan::new(vec![DedupeMethod::Hash]);
    plan.add_file(p(&["a", "x"]), s("x"), 5);
    plan.add_file(p(&["b", "y"]), s("y"), 5);
    plan.set_digest(0, content_digest(b"hello"));
    plan.set_digest(1, content_digest(b"hello"));
    // A second install never overwrites the first.
    plan.set_digest(1, content_digest(b"other"));
    let mut other = DedupePlan::new(vec![DedupeMethod::Hash]);
    other.add_file(p(&["a", "x"]), s("x"), 5);
    other.add_file(p(&["b", "y"]), s("y"), 5);
    other.set_hash_from_bytes(0, b"hello");
    other.set_hash_from_bytes(1, b"hello");
    assert_eq!(plan.files[0].hash, other.files[0].hash);
    assert_eq!(plan.files[1].hash, other.files[1].hash);
    let mut engine = ActionEngine::new(false, false);
    let steps = plan.apply(DedupeMode::Delete, &mut engine);
    assert_eq!(steps.len(), 1);
    assert_eq!(steps[0].dup_path, p(&["b", "y"]));
}
