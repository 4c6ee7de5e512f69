use vstd::prelude::*;
use vstd::string::StringExecFns;
use crate::paths::{is_prefix_of, render_spec, under_any, join_path, path_under_any};
use crate::utils::{
    contains_seq, decimal_spec, readable_display, str_contains, usize_decimal,
};

verus! {

/// One planned mutation: moving a file into a destination directory,
/// moving a whole directory, or deleting an entry for a recorded reason.
/// Paths are component lists.
#[derive(Debug, Clone)]
pub enum Action {
    MoveFile(Vec<String>, Vec<String>),
    MoveDir(Vec<String>, Vec<String>),
    Delete(Vec<String>, String),
}

/// The mathematical value of an action.
pub enum ActionModel {
    MoveFile(Seq<Seq<char>>, Seq<Seq<char>>),
    MoveDir(Seq<Seq<char>>, Seq<Seq<char>>),
    Delete(Seq<Seq<char>>, Seq<char>),
}

impl View for Action {
    type V = ActionModel;

    open spec fn view(&self) -> ActionModel {
        match self {
            Action::MoveFile(src, dest) => ActionModel::MoveFile(src.deep_view(), dest.deep_view()),
            Action::MoveDir(src, dest) => ActionModel::MoveDir(src.deep_view(), dest.deep_view()),
            Action::Delete(p, reason) => ActionModel::Delete(p.deep_view(), reason@),
        }
    }
}

impl DeepView for Action {
    type V = ActionModel;

    open spec fn deep_view(&self) -> ActionModel {
        self.view()
    }
}

/// The source path an action reads from.
pub open spec fn source_of(a: ActionModel) -> Seq<Seq<char>> {
    match a {
        ActionModel::MoveFile(src, _) => src,
        ActionModel::MoveDir(src, _) => src,
        ActionModel::Delete(p, _) => p,
    }
}

/// The one log line an action emits, identical in dry-run and apply mode.
pub open spec fn log_line_spec(a: ActionModel) -> Seq<char> {
    match a {
        ActionModel::MoveFile(src, dest_dir) => "MOVE "@ + render_spec(src) + " -> "@
            + render_spec(dest_dir.push(if src.len() > 0 {
                src.last()
            } else {
                Seq::empty()
            })),
        ActionModel::MoveDir(src, dest) => "MOVE-DIR "@ + render_spec(src) + " -> "@
            + render_spec(dest),
        ActionModel::Delete(p, reason) => "DELETE "@ + render_spec(p) + " ("@ + reason + ")"@,
    }
}

/// The log lines of a whole action list, in order.
pub open spec fn log_lines_spec(actions: Seq<ActionModel>) -> Seq<Seq<char>> {
    actions.map_values(|a: ActionModel| log_line_spec(a))
}

/// What one run of the engine does to a fixed action list: the lines it
/// emits, and the actions it performs — all of them in apply mode, none in
/// dry-run mode.
pub open spec fn run_spec(apply: bool, actions: Seq<ActionModel>) -> (Seq<Seq<char>>, Seq<
    ActionModel,
>) {
    (log_lines_spec(actions), if apply {
        actions
    } else {
        Seq::empty()
    })
}

/// Law: for a fixed action list the emitted log lines are identical in
/// dry-run and apply mode; dry-run mode performs no action at all.
pub proof fn lemma_dry_run_apply_same_lines(actions: Seq<ActionModel>)
    ensures
        run_spec(false, actions).0 == run_spec(true, actions).0,
        run_spec(false, actions).1 == Seq::<ActionModel>::empty(),
        run_spec(true, actions).1 == actions,
{
}

/// The log line an action emits.
pub fn log_line_for(action: &Action) -> (r: String)
    ensures
        r@ == log_line_spec(action@),
{
    proof {
        reveal_strlit("MOVE ");
        reveal_strlit("MOVE-DIR ");
        reveal_strlit("DELETE ");
        reveal_strlit(" -> ");
        reveal_strlit(" (");
        reveal_strlit(")");
    }
    match action {
        Action::MoveFile(src, dest_dir) => {
            let mut s = "MOVE ".to_owned();
            s.append(readable_display(src).as_str());
            s.append(" -> ");
            let full = if src.len() > 0 {
                join_path(dest_dir, &src[src.len() - 1])
            } else {
                let empty_name = String::new();
                join_path(dest_dir, &empty_name)
            };
            proof {
                assert(src.deep_view().len() > 0 ==> src.deep_view().last() == src[src.len()
                    - 1 as int]@);
            }
            s.append(readable_display(&full).as_str());
            s
        },
        Action::MoveDir(src, dest) => {
            let mut s = "MOVE-DIR ".to_owned();
            s.append(readable_display(src).as_str());
            s.append(" -> ");
            s.append(readable_display(dest).as_str());
            s
        },
        Action::Delete(p, reason) => {
            let mut s = "DELETE ".to_owned();
            s.append(readable_display(p).as_str());
            s.append(" (");
            s.append(reason.as_str());
            s.append(")");
            s
        },
    }
}

/// Whether a failed rename is a cross-device failure: the error kind was
/// the unclassified one and the message names EXDEV.
pub fn is_cross_device(kind_is_other: bool, msg: &str) -> (r: bool)
    ensures
        r == (kind_is_other && contains_seq(msg@, "EXDEV"@)),
{
    kind_is_other && str_contains(msg, "EXDEV")
}

/// The executor model: decides, per action, the log line to emit and
/// whether the caller is to perform the mutation, and records the stream
/// of emitted lines. The filesystem work itself stays with the caller.
pub struct ActionEngine {
    pub apply: bool,
    pub allow_cross_device: bool,
    pub lines: Vec<String>,
}

impl ActionEngine {
    /// An engine in the given mode with no lines emitted yet.
    pub fn new(apply: bool, allow_cross_device: bool) -> (r: Self)
        ensures
            r.apply == apply,
            r.allow_cross_device == allow_cross_device,
            r.lines.deep_view() == Seq::<Seq<char>>::empty(),
    {
        let r = ActionEngine { apply, allow_cross_device, lines: Vec::new() };
        proof {
            assert(r.lines.deep_view() =~= Seq::<Seq<char>>::empty());
        }
        r
    }

    /// Whether the engine mutates the filesystem.
    pub fn apply_mode(&self) -> (r: bool)
        ensures
            r == self.apply,
    {
        self.apply
    }

    /// One action: the log line to emit (the same in both modes) and
    /// whether to perform the mutation (only in apply mode).
    pub fn execute(&mut self, action: &Action) -> (r: (String, bool))
        ensures
            r.0@ == log_line_spec(action@),
            r.1 == old(self).apply,
            final(self).apply == old(self).apply,
            final(self).allow_cross_device == old(self).allow_cross_device,
            final(self).lines.deep_view() == old(self).lines.deep_view().push(
                log_line_spec(action@),
            ),
    {
        let line = log_line_for(action);
        let ghost prev = self.lines.deep_view();
        self.lines.push(line.clone());
        proof {
            assert(self.lines.deep_view() =~= prev.push(log_line_spec(action@))) by {
                assert(forall|k: int|
                    0 <= k < prev.len() ==> self.lines.deep_view()[k] == prev[k]);
            }
        }
        (line, self.apply)
    }

    /// A whole action list in order: the log lines to emit, one per
    /// action, the same in both modes.
    pub fn execute_all(&mut self, actions: &Vec<Action>) -> (r: Vec<String>)
        ensures
            r.deep_view() == run_spec(old(self).apply, actions.deep_view()).0,
            final(self).apply == old(self).apply,
            final(self).allow_cross_device == old(self).allow_cross_device,
            final(self).lines.deep_view() == old(self).lines.deep_view() + log_lines_spec(
                actions.deep_view(),
            ),
    {
        let mut out: Vec<String> = Vec::new();
        let mut i: usize = 0;
        while i < actions.len()
            invariant
                0 <= i <= actions.len(),
                actions.len() == actions.deep_view().len(),
                self.apply == old(self).apply,
                self.allow_cross_device == old(self).allow_cross_device,
                out.deep_view() =~= log_lines_spec(actions.deep_view().subrange(0, i as int)),
                self.lines.deep_view() =~= old(self).lines.deep_view() + log_lines_spec(
                    actions.deep_view().subrange(0, i as int),
                ),
            decreases actions.len() - i,
        {
            proof {
                assert(actions.deep_view()[i as int] == actions[i as int]@);
            }
            let (line, _perform) = self.execute(&actions[i]);
            let ghost prev = out.deep_view();
            out.push(line);
            proof {
                assert(out.deep_view() =~= prev.push(log_line_spec(actions.deep_view()[
                    i as int]))) by {
                    assert(forall|k: int|
                        0 <= k < prev.len() ==> out.deep_view()[k] == prev[k]);
                }
                assert(out.deep_view() =~= log_lines_spec(actions.deep_view().subrange(
                    0,
                    i + 1,
                )));
                assert(self.lines.deep_view() =~= old(self).lines.deep_view() + log_lines_spec(
                    actions.deep_view().subrange(0, i + 1),
                ));
            }
            i += 1;
        }
        proof {
            assert(actions.deep_view().subrange(0, actions.deep_view().len() as int)
                =~= actions.deep_view());
        }
        out
    }
}

/// A directory of the tree after the moves and deletes, with the names of
/// its remaining direct children. Lists of these are given
/// children-before-parents (contents first).
pub struct DirNode {
    pub path: Vec<String>,
    pub child_names: Vec<String>,
}

/// The mathematical value of a directory node.
pub struct DirNodeModel {
    pub path: Seq<Seq<char>>,
    pub child_names: Seq<Seq<char>>,
}

impl View for DirNode {
    type V = DirNodeModel;

    open spec fn view(&self) -> DirNodeModel {
        DirNodeModel { path: self.path.deep_view(), child_names: self.child_names.deep_view() }
    }
}

impl DeepView for DirNode {
    type V = DirNodeModel;

    open spec fn deep_view(&self) -> DirNodeModel {
        self.view()
    }
}

/// Every remaining child of the directory stands in the pruned set: the
/// directory has truly become empty.
pub open spec fn all_children_pruned(d: DirNodeModel, pruned: Seq<Seq<Seq<char>>>) -> bool {
    forall|j: int|
        0 <= j < d.child_names.len() ==> pruned.contains(#[trigger] d.path.push(d.child_names[j]))
}

/// The directories pruned by the bottom-up pass: walking the nodes in
/// order, a directory is pruned exactly when it lies under no skip root
/// and every one of its remaining children was pruned before it.
pub open spec fn pruned_dirs_spec(dirs: Seq<DirNodeModel>, skips: Seq<Seq<Seq<char>>>) -> Seq<
    Seq<Seq<char>>,
>
    decreases dirs.len(),
{
    if dirs.len() == 0 {
        Seq::empty()
    } else {
        let prev = pruned_dirs_spec(dirs.drop_last(), skips);
        let d = dirs.last();
        if !under_any(d.path, skips) && all_children_pruned(d, prev) {
            prev.push(d.path)
        } else {
            prev
        }
    }
}

/// The log line of one pruned directory.
pub open spec fn prune_line_spec(p: Seq<Seq<char>>) -> Seq<char> {
    "PRUNE "@ + render_spec(p)
}

/// The log lines of the pruning pass, in order.
pub open spec fn prune_lines_spec(pruned: Seq<Seq<Seq<char>>>) -> Seq<Seq<char>> {
    pruned.map_values(|p: Seq<Seq<char>>| prune_line_spec(p))
}

proof fn lemma_push_keeps_contains<T>(s: Seq<T>, x: T, y: T)
    requires
        s.contains(x),
    ensures
        s.push(y).contains(x),
{
    let k = choose|k: int| 0 <= k < s.len() && s[k] == x;
    assert(s.push(y)[k] == x);
}

/// Law (pruning removes only truly empty directories): every pruned path
/// lies under no skip root, and belongs to a listed directory all of
/// whose remaining children were themselves pruned — a directory with any
/// remaining child is never pruned.
pub proof fn lemma_prune_only_empty(
    dirs: Seq<DirNodeModel>,
    skips: Seq<Seq<Seq<char>>>,
    p: Seq<Seq<char>>,
)
    requires
        pruned_dirs_spec(dirs, skips).contains(p),
    ensures
        !under_any(p, skips),
        exists|i: int|
            0 <= i < dirs.len() && (#[trigger] dirs[i]).path == p && all_children_pruned(
                dirs[i],
                pruned_dirs_spec(dirs, skips),
            ),
    decreases dirs.len(),
{
    if dirs.len() == 0 {
    } else {
        let prev = pruned_dirs_spec(dirs.drop_last(), skips);
        let d = dirs.last();
        let full = pruned_dirs_spec(dirs, skips);
        if !under_any(d.path, skips) && all_children_pruned(d, prev) {
            assert(full == prev.push(d.path));
            assert forall|x: Seq<Seq<char>>| prev.contains(x) implies full.contains(x) by {
                lemma_push_keeps_contains(prev, x, d.path);
            }
            if p == d.path {
                assert(dirs[dirs.len() - 1].path == p);
                assert(all_children_pruned(dirs[dirs.len() - 1], full));
            } else {
                assert(prev.contains(p)) by {
                    let k = choose|k: int| 0 <= k < full.len() && full[k] == p;
                    assert(k < prev.len());
                    assert(prev[k] == p);
                }
                lemma_prune_only_empty(dirs.drop_last(), skips, p);
                let i = choose|i: int|
                    0 <= i < dirs.drop_last().len() && (#[trigger] dirs.drop_last()[i]).path
                        == p && all_children_pruned(dirs.drop_last()[i], prev);
                assert(dirs[i].path == p);
                assert(all_children_pruned(dirs[i], full));
            }
        } else {
            assert(full == prev);
            lemma_prune_only_empty(dirs.drop_last(), skips, p);
            let i = choose|i: int|
                0 <= i < dirs.drop_last().len() && (#[trigger] dirs.drop_last()[i]).path == p
                    && all_children_pruned(dirs.drop_last()[i], prev);
            assert(dirs[i].path == p);
            assert(all_children_pruned(dirs[i], full));
        }
    }
}

/// Whether two component paths are equal.
pub fn path_eq(a: &Vec<String>, b: &Vec<String>) -> (r: bool)
    ensures
        r == (a.deep_view() == b.deep_view()),
{
    if a.len() != b.len() {
        assert(a.deep_view().len() != b.deep_view().len());
        return false;
    }
    let pre = crate::paths::path_starts_with(a, b);
    proof {
        assert(a.deep_view().subrange(0, a.deep_view().len() as int) =~= a.deep_view());
        if pre {
            assert(a.deep_view() =~= b.deep_view());
        } else {
            if a.deep_view() == b.deep_view() {
                assert(is_prefix_of(b.deep_view(), a.deep_view()));
            }
        }
    }
    pre
}

fn pruned_contains(v: &Vec<Vec<String>>, x: &Vec<String>) -> (r: bool)
    ensures
        r == v.deep_view().contains(x.deep_view()),
{
    let mut i: usize = 0;
    while i < v.len()
        invariant
            0 <= i <= v.len(),
            v.len() == v.deep_view().len(),
            forall|j: int| 0 <= j < i ==> v.deep_view()[j] != x.deep_view(),
        decreases v.len() - i,
    {
        proof {
            assert(v.deep_view()[i as int] == v[i as int].deep_view());
        }
        if path_eq(&v[i], x) {
            assert(v.deep_view().contains(x.deep_view()));
            return true;
        }
        i += 1;
    }
    proof {
        if v.deep_view().contains(x.deep_view()) {
            let k = choose|k: int|
                0 <= k < v.deep_view().len() && v.deep_view()[k] == x.deep_view();
            assert(v.deep_view()[k] == x.deep_view());
        }
    }
    false
}

impl ActionEngine {
    /// The bottom-up pruning pass over the remaining directories, listed
    /// children first: decides which directories are empty and to be
    /// removed, and the PRUNE log line for each, the same in both modes.
    /// The removal itself stays with the caller and happens only in apply
    /// mode.
    pub fn prune_empty_dirs(&mut self, dirs: &Vec<DirNode>, skip_roots: &Vec<Vec<String>>) -> (r:
        (Vec<String>, Vec<Vec<String>>))
        ensures
            r.1.deep_view() == pruned_dirs_spec(dirs.deep_view(), skip_roots.deep_view()),
            r.0.deep_view() == prune_lines_spec(r.1.deep_view()),
            final(self).apply == old(self).apply,
            final(self).allow_cross_device == old(self).allow_cross_device,
            final(self).lines.deep_view() == old(self).lines.deep_view() + r.0.deep_view(),
    {
        let mut lines: Vec<String> = Vec::new();
        let mut pruned: Vec<Vec<String>> = Vec::new();
        let mut i: usize = 0;
        proof {
            reveal_strlit("PRUNE ");
        }
        while i < dirs.len()
            invariant
                0 <= i <= dirs.len(),
                dirs.len() == dirs.deep_view().len(),
                self.apply == old(self).apply,
                self.allow_cross_device == old(self).allow_cross_device,
                pruned.deep_view() =~= pruned_dirs_spec(
                    dirs.deep_view().subrange(0, i as int),
                    skip_roots.deep_view(),
                ),
                lines.deep_view() =~= prune_lines_spec(pruned.deep_view()),
                self.lines.deep_view() =~= old(self).lines.deep_view() + lines.deep_view(),
            decreases dirs.len() - i,
        {
            let d = &dirs[i];
            proof {
                assert(dirs.deep_view()[i as int] == dirs[i as int]@);
                assert(dirs.deep_view().subrange(0, i + 1).drop_last() =~= dirs.deep_view()
                    .subrange(0, i as int));
                assert(dirs.deep_view().subrange(0, i + 1).last() == dirs.deep_view()[i as int]);
            }
            let skipped = path_under_any(&d.path, skip_roots);
            if !skipped {
                let mut empty = true;
                let mut j: usize = 0;
                while j < d.child_names.len()
                    invariant
                        0 <= j <= d.child_names.len(),
                        d == &dirs[i as int],
                        d.child_names.len() == d@.child_names.len(),
                        empty ==> forall|jj: int|
                            0 <= jj < j ==> pruned.deep_view().contains(
                                #[trigger] d@.path.push(d@.child_names[jj]),
                            ),
                        !empty ==> !all_children_pruned(d@, pruned.deep_view()),
                    decreases d.child_names.len() - j,
                {
                    if empty {
                        let child = join_path(&d.path, &d.child_names[j]);
                        proof {
                            assert(d@.child_names[j as int] == d.child_names[j as int]@);
                            assert(child.deep_view() == d@.path.push(d@.child_names[j as int]));
                        }
                        if !pruned_contains(&pruned, &child) {
                            empty = false;
                            assert(!all_children_pruned(d@, pruned.deep_view()));
                        }
                    }
                    j += 1;
                }
                if empty {
                    assert(all_children_pruned(d@, pruned.deep_view()));
                    let mut line = "PRUNE ".to_owned();
                    line.append(readable_display(&d.path).as_str());
                    assert(line@ == prune_line_spec(d@.path));
                    let ghost prev_p = pruned.deep_view();
                    let ghost prev_l = lines.deep_view();
                    let ghost prev_sl = self.lines.deep_view();
                    pruned.push(crate::paths::clone_parts(&d.path));
                    lines.push(line.clone());
                    self.lines.push(line);
                    proof {
                        assert(pruned.deep_view() =~= prev_p.push(d@.path)) by {
                            assert(forall|k: int|
                                0 <= k < prev_p.len() ==> pruned.deep_view()[k] == prev_p[k]);
                        }
                        assert(lines.deep_view() =~= prev_l.push(prune_line_spec(d@.path))) by {
                            assert(forall|k: int|
                                0 <= k < prev_l.len() ==> lines.deep_view()[k] == prev_l[k]);
                        }
                        assert(self.lines.deep_view() =~= prev_sl.push(
                            prune_line_spec(d@.path),
                        )) by {
                            assert(forall|k: int|
                                0 <= k < prev_sl.len() ==> self.lines.deep_view()[k]
                                    == prev_sl[k]);
                        }
                        assert(lines.deep_view() =~= prune_lines_spec(pruned.deep_view()));
                        assert(self.lines.deep_view() =~= old(self).lines.deep_view()
                            + lines.deep_view());
                    }
                } else {
                    assert(pruned.deep_view() =~= pruned_dirs_spec(
                        dirs.deep_view().subrange(0, i + 1),
                        skip_roots.deep_view(),
                    ));
                }
            } else {
                assert(pruned.deep_view() =~= pruned_dirs_spec(
                    dirs.deep_view().subrange(0, i + 1),
                    skip_roots.deep_view(),
                ));
            }
            i += 1;
        }
        proof {
            assert(dirs.deep_view().subrange(0, dirs.deep_view().len() as int) =~= dirs
                .deep_view());
        }
        (lines, pruned)
    }
}

/// How a file name splits into stem and extension for suffixing: either it
/// has a real extension, or the whole of it (up to a bare trailing dot)
/// counts as the stem.
pub open spec fn splits_as(name: Seq<char>, stem: Seq<char>, ext: Option<Seq<char>>) -> bool {
    match ext {
        Some(e) => name == stem + seq!['.'] + e && stem.len() > 0 && e.len() > 0 && !e.contains(
            '.',
        ),
        None => {
            ||| (stem == name && !name.contains('.'))
            ||| (stem == name && name.len() > 0 && name[0] == '.' && !name.subrange(
                1,
                name.len() as int,
            ).contains('.'))
            ||| (name == stem + seq!['.'] && stem.len() > 0)
        },
    }
}

/// The stem and extension a file name splits into for suffixing.
pub fn split_name(name: &str) -> (r: (String, Option<String>))
    ensures
        splits_as(name@, r.0@, match r.1 {
            Some(e) => Some(e@),
            None => None,
        }),
{
    match crate::utils::split_last_dot(name) {
        Some((stem, ext)) => {
            if stem.as_str().is_empty() {
                proof {
                    assert(name@.len() > 0);
                    assert(name@[0] == '.');
                    assert(name@.subrange(1, name@.len() as int) =~= ext@);
                }
                (name.to_owned(), None)
            } else if ext.as_str().is_empty() {
                proof {
                    assert(name@ =~= stem@ + seq!['.']);
                }
                (stem, None)
            } else {
                (stem, Some(ext))
            }
        },
        None => (name.to_owned(), None),
    }
}

/// The i-th collision candidate for a split name: the stem, a dash, the
/// decimal index, and the extension where there is one.
pub open spec fn candidate_spec(stem: Seq<char>, ext: Option<Seq<char>>, i: nat) -> Seq<char> {
    match ext {
        Some(e) => stem + seq!['-'] + decimal_spec(i) + seq!['.'] + e,
        None => stem + seq!['-'] + decimal_spec(i),
    }
}

fn make_candidate(stem: &String, ext: &Option<String>, i: usize) -> (r: String)
    ensures
        r@ == candidate_spec(stem@, match ext {
            Some(e) => Some(e@),
            None => None,
        }, i as nat),
{
    proof {
        reveal_strlit("-");
        reveal_strlit(".");
    }
    let mut s = stem.clone();
    s.append("-");
    s.append(usize_decimal(i).as_str());
    match ext {
        Some(e) => {
            s.append(".");
            s.append(e.as_str());
        },
        None => {},
    }
    s
}

/// Whether a list of names holds the given character sequence.
fn occupied_contains(occupied: &Vec<String>, x: &String) -> (r: bool)
    ensures
        r == occupied.deep_view().contains(x@),
{
    crate::categorize::contains_string(occupied, x)
}

/// A collision-free destination name among the occupied ones: the name
/// itself when free; otherwise the candidate with the smallest index from
/// one upward that is free; the name itself again when every candidate
/// below ten thousand is taken.
pub fn unique_dest_path(occupied: &Vec<String>, file_name: &str) -> (r: String)
    ensures
        !occupied.deep_view().contains(file_name@) ==> r@ == file_name@,
        occupied.deep_view().contains(file_name@) ==> exists|stem: Seq<char>,
            ext: Option<Seq<char>>|
            {
                &&& #[trigger] splits_as(file_name@, stem, ext)
                &&& {
                    ||| (exists|i: nat|
                        1 <= i < 10000 && r@ == #[trigger] candidate_spec(stem, ext, i)
                            && !occupied.deep_view().contains(r@) && forall|j: nat|
                            1 <= j < i ==> occupied.deep_view().contains(
                                #[trigger] candidate_spec(stem, ext, j),
                            ))
                    ||| (r@ == file_name@ && forall|j: nat|
                        1 <= j < 10000 ==> occupied.deep_view().contains(
                            #[trigger] candidate_spec(stem, ext, j),
                        ))
                }
            },
{
    let owned = file_name.to_owned();
    if !occupied_contains(occupied, &owned) {
        return owned;
    }
    let (stem, ext) = split_name(file_name);
    let ghost stem_v = stem@;
    let ghost ext_v: Option<Seq<char>> = match &ext {
        Some(e) => Some(e@),
        None => None,
    };
    let mut i: usize = 1;
    while i < 10000
        invariant
            1 <= i <= 10000,
            occupied.deep_view().contains(file_name@),
            splits_as(file_name@, stem_v, ext_v),
            stem@ == stem_v,
            (match ext {
                Some(e) => ext_v == Some(e@),
                None => ext_v is None,
            }),
            forall|j: nat|
                1 <= j < i ==> occupied.deep_view().contains(
                    #[trigger] candidate_spec(stem_v, ext_v, j),
                ),
        decreases 10000 - i,
    {
        let cand = make_candidate(&stem, &ext, i);
        if !occupied_contains(occupied, &cand) {
            proof {
                assert(exists|ii: nat|
                    1 <= ii < 10000 && cand@ == #[trigger] candidate_spec(stem_v, ext_v, ii)
                        && !occupied.deep_view().contains(cand@) && (forall|j: nat|
                        1 <= j < ii ==> occupied.deep_view().contains(
                            #[trigger] candidate_spec(stem_v, ext_v, j),
                        ))) by {
                    assert(1 <= i && i < 10000);
                    assert(cand@ == candidate_spec(stem_v, ext_v, i as nat));
                }
                assert(splits_as(file_name@, stem_v, ext_v));
            }
            return cand;
        }
        i += 1;
    }
    proof {
        assert(splits_as(file_name@, stem_v, ext_v));
        assert(forall|j: nat|
            1 <= j < 10000 ==> occupied.deep_view().contains(
                #[trigger] candidate_spec(stem_v, ext_v, j),
            ));
    }
    owned
}

/// A collision-free destination name for a directory: as for files, but
/// the whole name counts as the stem.
pub fn unique_dir_dest(occupied: &Vec<String>, name: &str) -> (r: String)
    ensures
        !occupied.deep_view().contains(name@) ==> r@ == name@,
        occupied.deep_view().contains(name@) ==> {
            ||| (exists|i: nat|
                1 <= i < 10000 && r@ == #[trigger] candidate_spec(name@, None, i)
                    && !occupied.deep_view().contains(r@) && forall|j: nat|
                    1 <= j < i ==> occupied.deep_view().contains(
                        #[trigger] candidate_spec(name@, None, j),
                    ))
            ||| (r@ == name@ && forall|j: nat|
                1 <= j < 10000 ==> occupied.deep_view().contains(
                    #[trigger] candidate_spec(name@, None, j),
                ))
        },
{
    let owned = name.to_owned();
    if !occupied_contains(occupied, &owned) {
        return owned;
    }
    let ghost none_ext: Option<Seq<char>> = None;
    let stem = name.to_owned();
    let none_e: Option<String> = None;
    let mut i: usize = 1;
    while i < 10000
        invariant
            1 <= i <= 10000,
            occupied.deep_view().contains(name@),
            stem@ == name@,
            none_e is None,
            forall|j: nat|
                1 <= j < i ==> occupied.deep_view().contains(
                    #[trigger] candidate_spec(name@, None, j),
                ),
        decreases 10000 - i,
    {
        let cand = make_candidate(&stem, &none_e, i);
        if !occupied_contains(occupied, &cand) {
            proof {
                assert(exists|ii: nat|
                    1 <= ii < 10000 && cand@ == #[trigger] candidate_spec(name@, None, ii)
                        && !occupied.deep_view().contains(cand@) && (forall|j: nat|
                        1 <= j < ii ==> occupied.deep_view().contains(
                            #[trigger] candidate_spec(name@, None, j),
                        ))) by {
                    assert(1 <= i && i < 10000);
                    assert(cand@ == candidate_spec(name@, None, i as nat));
                }
            }
            return cand;
        }
        i += 1;
    }
    owned
}

} // verus!
