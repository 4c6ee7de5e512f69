use vstd::prelude::*;
use crate::actions::{Action, ActionModel, source_of};
use crate::categorize::{
    categorize_spec, detect_spec, dir_name_of, Categorizer, DirProfile,
};
use crate::config::deep_view_opt;
use crate::paths::{clone_parts, is_prefix_of, is_strictly_under, join_path, path_under_any, render_spec, under_any};
use crate::utils::{globset_matches, is_pattern_match, readable_display};

verus! {

/// What the planner is told about one tree entry, beyond its path: a
/// directory with its profile, a regular file with its size, a sample of
/// its leading bytes and an optional external MIME probe result, or a
/// symlink with its brokenness.
pub enum EntryKind {
    Dir(DirProfile),
    File { size: u64, head: Vec<u8>, cmd_mime: Option<String> },
    Symlink { broken: bool },
}

/// One entry of the traversal, in depth-first order.
pub struct Entry {
    pub path: Vec<String>,
    pub kind: EntryKind,
}

/// The planner: consumes the traversal's entries in depth-first order and
/// accumulates the ordered action list, never touching the filesystem.
pub struct Planner<'a> {
    pub categorizer: Categorizer<'a>,
    pub matcher: &'a globset::GlobSet,
    pub clean: bool,
    pub dest_root: Vec<String>,
    pub skip_roots: Vec<Vec<String>>,
    pub under_name: Option<String>,
    pub category_dir_names: Vec<String>,
    pub planned_whole_dirs: Vec<Vec<String>>,
    pub actions: Vec<Action>,
}

/// The skip-root set: one root per destination category directory, and the
/// organized-under directory where one is configured.
pub open spec fn skip_roots_spec(
    root: Seq<Seq<char>>,
    dest_root: Seq<Seq<char>>,
    under: Option<Seq<char>>,
    category_names: Seq<Seq<char>>,
) -> Seq<Seq<Seq<char>>> {
    Seq::new(category_names.len(), |i: int| dest_root.push(category_names[i])) + (match under {
        Some(u) => seq![root.push(u)],
        None => Seq::empty(),
    })
}

/// Computes the skip-root set from the root, the destination root, the
/// optional organized-under name and the category directory names.
pub fn compute_skip_roots(
    root: &Vec<String>,
    dest_root: &Vec<String>,
    under: Option<&String>,
    category_names: &Vec<String>,
) -> (r: Vec<Vec<String>>)
    ensures
        r.deep_view() == skip_roots_spec(
            root.deep_view(),
            dest_root.deep_view(),
            deep_view_opt(under),
            category_names.deep_view(),
        ),
{
    let mut r: Vec<Vec<String>> = Vec::new();
    let mut i: usize = 0;
    while i < category_names.len()
        invariant
            0 <= i <= category_names.len(),
            category_names.len() == category_names.deep_view().len(),
            r.deep_view() =~= Seq::new(
                i as nat,
                |k: int| dest_root.deep_view().push(category_names.deep_view()[k]),
            ),
        decreases category_names.len() - i,
    {
        let ghost prev = r.deep_view();
        let joined = join_path(dest_root, &category_names[i]);
        proof {
            assert(category_names.deep_view()[i as int] == category_names[i as int]@);
        }
        r.push(joined);
        proof {
            assert(r.deep_view() =~= prev.push(
                dest_root.deep_view().push(category_names.deep_view()[i as int]),
            )) by {
                assert(forall|k: int| 0 <= k < prev.len() ==> r.deep_view()[k] == prev[k]);
            }
        }
        i += 1;
    }
    match under {
        Some(u) => {
            let ghost prev = r.deep_view();
            let joined = join_path(root, u);
            r.push(joined);
            proof {
                assert(r.deep_view() =~= prev.push(root.deep_view().push(u@))) by {
                    assert(forall|k: int| 0 <= k < prev.len() ==> r.deep_view()[k] == prev[k]);
                }
                assert(r.deep_view() =~= skip_roots_spec(
                    root.deep_view(),
                    dest_root.deep_view(),
                    deep_view_opt(under),
                    category_names.deep_view(),
                ));
            }
        },
        None => {
            proof {
                assert(r.deep_view() =~= skip_roots_spec(
                    root.deep_view(),
                    dest_root.deep_view(),
                    deep_view_opt(under),
                    category_names.deep_view(),
                ));
            }
        },
    }
    r
}

impl<'a> Planner<'a> {
    /// The configuration half of the state never changes while planning.
    pub open spec fn config_unchanged(pre: Self, post: Self) -> bool {
        &&& post.categorizer == pre.categorizer
        &&& post.matcher == pre.matcher
        &&& post.clean == pre.clean
        &&& post.dest_root == pre.dest_root
        &&& post.skip_roots == pre.skip_roots
        &&& post.under_name == pre.under_name
        &&& post.category_dir_names == pre.category_dir_names
    }

    /// The planner's invariant: no planned action's source lies under a
    /// skip root, and none lies strictly below a directory planned for a
    /// whole move.
    pub open spec fn inv(self) -> bool {
        &&& forall|k: int|
            0 <= k < self.actions.deep_view().len() ==> !under_any(
                source_of(#[trigger] self.actions.deep_view()[k]),
                self.skip_roots.deep_view(),
            )
        &&& forall|k: int, d: Seq<Seq<char>>|
            #![trigger self.actions.deep_view()[k], self.planned_whole_dirs.deep_view().contains(d)]
            0 <= k < self.actions.deep_view().len() && self.planned_whole_dirs.deep_view()
                .contains(d) ==> !is_strictly_under(
                source_of(self.actions.deep_view()[k]),
                d,
            )
    }

    /// A planner over the given configuration, with nothing planned yet.
    pub fn new(
        categorizer: Categorizer<'a>,
        matcher: &'a globset::GlobSet,
        clean: bool,
        dest_root: Vec<String>,
        skip_roots: Vec<Vec<String>>,
        under_name: Option<String>,
        category_dir_names: Vec<String>,
    ) -> (r: Self)
        ensures
            r.categorizer == categorizer,
            r.matcher == matcher,
            r.clean == clean,
            r.dest_root == dest_root,
            r.skip_roots == skip_roots,
            r.under_name == under_name,
            r.category_dir_names == category_dir_names,
            r.actions.deep_view() == Seq::<ActionModel>::empty(),
            r.planned_whole_dirs.deep_view() == Seq::<Seq<Seq<char>>>::empty(),
            r.inv(),
    {
        let r = Planner {
            categorizer,
            matcher,
            clean,
            dest_root,
            skip_roots,
            under_name,
            category_dir_names,
            planned_whole_dirs: Vec::new(),
            actions: Vec::new(),
        };
        proof {
            assert(r.actions.deep_view() =~= Seq::<ActionModel>::empty());
            assert(r.planned_whole_dirs.deep_view() =~= Seq::<Seq<Seq<char>>>::empty());
        }
        r
    }

    /// What one entry does to a plan state `(acts, planned)` under this
    /// planner's configuration: the new action list, the new
    /// whole-directory set, and whether the traversal is to skip the
    /// entry's subtree.
    pub open spec fn step_onto(
        self,
        acts: Seq<ActionModel>,
        planned: Seq<Seq<Seq<char>>>,
        e: Entry,
    ) -> (Seq<ActionModel>, Seq<Seq<Seq<char>>>, bool) {
        let p = e.path.deep_view();
        if under_any(p, self.skip_roots.deep_view()) || under_any(p, planned) {
            (acts, planned, e.kind is Dir)
        } else {
            match e.kind {
                EntryKind::Symlink { broken } => (
                    if broken {
                        acts.push(ActionModel::Delete(p, "broken symlink"@))
                    } else {
                        acts
                    },
                    planned,
                    false,
                ),
                EntryKind::Dir(profile) => {
                    if self.category_dir_names.deep_view().contains(p.last()) || (match self
                        .under_name {
                        Some(u) => u@ == p.last(),
                        None => false,
                    }) {
                        (acts, planned, true)
                    } else {
                        match detect_spec(*self.categorizer.settings, profile) {
                            Some(cat) => (
                                acts.push(ActionModel::MoveDir(
                                    p,
                                    self.dest_root.deep_view().push(dir_name_of(cat)).push(
                                        p.last(),
                                    ),
                                )),
                                planned.push(p),
                                true,
                            ),
                            None => (acts, planned, false),
                        }
                    }
                },
                EntryKind::File { size, head, cmd_mime } => {
                    if self.clean && globset_matches(*self.matcher, render_spec(p)) {
                        (
                            acts.push(
                                ActionModel::Delete(p, "cache/temp/junk (pattern)"@),
                            ),
                            planned,
                            false,
                        )
                    } else if self.clean && size == 0 {
                        (acts.push(ActionModel::Delete(p, "empty file"@)), planned, false)
                    } else {
                        let cat = categorize_spec(
                            *self.categorizer.settings,
                            self.categorizer.use_file_cmd,
                            p.last(),
                            head@,
                            match cmd_mime {
                                Some(m) => Some(m@),
                                None => None,
                            },
                        );
                        (
                            acts.push(ActionModel::MoveFile(
                                p,
                                self.dest_root.deep_view().push(dir_name_of(cat)),
                            )),
                            planned,
                            false,
                        )
                    }
                },
            }
        }
    }

    /// What one entry does to this planner's own plan.
    pub open spec fn step_result(self, e: Entry) -> (Seq<ActionModel>, Seq<Seq<Seq<char>>>, bool) {
        self.step_onto(self.actions.deep_view(), self.planned_whole_dirs.deep_view(), e)
    }

    /// What a whole traversal does to a plan state: the entries folded
    /// through `step_onto`, in order.
    pub open spec fn plan_fold(
        self,
        acts: Seq<ActionModel>,
        planned: Seq<Seq<Seq<char>>>,
        entries: Seq<Entry>,
    ) -> (Seq<ActionModel>, Seq<Seq<Seq<char>>>)
        decreases entries.len(),
    {
        if entries.len() == 0 {
            (acts, planned)
        } else {
            let prev = self.plan_fold(acts, planned, entries.drop_last());
            let s = self.step_onto(prev.0, prev.1, entries.last());
            (s.0, s.1)
        }
    }

    /// Feeds one traversal entry to the planner, in depth-first order. The
    /// result says whether the traversal is to skip the entry's subtree.
    /// Entries arrive parents first, so no already-planned source lies
    /// strictly below a newly visited entry.
    pub fn on_entry(&mut self, e: &Entry) -> (skip_subtree: bool)
        requires
            e.path@.len() > 0,
            old(self).inv(),
            forall|k: int|
                0 <= k < old(self).actions.deep_view().len() ==> !is_strictly_under(
                    source_of(#[trigger] old(self).actions.deep_view()[k]),
                    e.path.deep_view(),
                ),
        ensures
            Self::config_unchanged(*old(self), *final(self)),
            final(self).actions.deep_view() == old(self).step_result(*e).0,
            final(self).planned_whole_dirs.deep_view() == old(self).step_result(*e).1,
            skip_subtree == old(self).step_result(*e).2,
            final(self).inv(),
    {
        let under_skip = path_under_any(&e.path, &self.skip_roots);
        let under_planned = path_under_any(&e.path, &self.planned_whole_dirs);
        if under_skip || under_planned {
            return match &e.kind {
                EntryKind::Dir(_) => true,
                _ => false,
            };
        }
        match &e.kind {
            EntryKind::Symlink { broken } => {
                if *broken {
                    let path = clone_parts(&e.path);
                    let a = Action::Delete(path, "broken symlink".to_owned());
                    let ghost prev = self.actions.deep_view();
                    proof {
                        assert(a@ == ActionModel::Delete(e.path.deep_view(), "broken symlink"@));
                    }
                    self.actions.push(a);
                    proof {
                        assert(self.actions.deep_view() =~= prev.push(
                            ActionModel::Delete(e.path.deep_view(), "broken symlink"@),
                        )) by {
                            assert(forall|k: int|
                                0 <= k < prev.len() ==> self.actions.deep_view()[k] == prev[k]);
                        }
                    }
                }
                false
            },
            EntryKind::Dir(profile) => {
                let name = &e.path[e.path.len() - 1];
                proof {
                    assert(e.path.deep_view().last() == e.path[e.path@.len() - 1]@);
                }
                let is_cat_name = crate::categorize::contains_string(
                    &self.category_dir_names,
                    name,
                );
                let is_under_name = match &self.under_name {
                    Some(u) => *u == *name,
                    None => false,
                };
                if is_cat_name || is_under_name {
                    return true;
                }
                match self.categorizer.detect_special_directory(profile) {
                    Some(cat) => {
                        let dest_mid = join_path(&self.dest_root, &cat.as_dir().to_owned());
                        let dest = join_path(&dest_mid, name);
                        let src_path = clone_parts(&e.path);
                        let recorded = clone_parts(&e.path);
                        let a = Action::MoveDir(src_path, dest);
                        proof {
                            assert(a@ == ActionModel::MoveDir(
                                e.path.deep_view(),
                                self.dest_root.deep_view().push(dir_name_of(cat)).push(
                                    e.path.deep_view().last(),
                                ),
                            ));
                        }
                        let ghost prev_a = self.actions.deep_view();
                        let ghost prev_p = self.planned_whole_dirs.deep_view();
                        self.actions.push(a);
                        self.planned_whole_dirs.push(recorded);
                        proof {
                            assert(self.actions.deep_view() =~= prev_a.push(
                                ActionModel::MoveDir(
                                    e.path.deep_view(),
                                    self.dest_root.deep_view().push(dir_name_of(cat)).push(
                                        e.path.deep_view().last(),
                                    ),
                                ),
                            )) by {
                                assert(forall|k: int|
                                    0 <= k < prev_a.len() ==> self.actions.deep_view()[k]
                                        == prev_a[k]);
                            }
                            assert(self.planned_whole_dirs.deep_view() =~= prev_p.push(
                                e.path.deep_view(),
                            )) by {
                                assert(forall|k: int|
                                    0 <= k < prev_p.len() ==> self.planned_whole_dirs
                                        .deep_view()[k] == prev_p[k]);
                            }
                            assert forall|k: int, d: Seq<Seq<char>>|
                                #![trigger self.actions.deep_view()[k], self.planned_whole_dirs.deep_view().contains(d)]
                                0 <= k < self.actions.deep_view().len() && self
                                    .planned_whole_dirs.deep_view().contains(d)
                                    implies !is_strictly_under(
                                    source_of(self.actions.deep_view()[k]),
                                    d,
                                ) by {
                                if k < prev_a.len() {
                                    if prev_p.contains(d) {
                                    } else {
                                        assert(d == e.path.deep_view());
                                    }
                                } else {
                                    assert(source_of(self.actions.deep_view()[k]) == e.path
                                        .deep_view());
                                    if prev_p.contains(d) {
                                        assert(!under_any(
                                            e.path.deep_view(),
                                            prev_p,
                                        ));
                                        assert(!is_prefix_of(d, e.path.deep_view())) by {
                                            let idx = choose|idx: int|
                                                0 <= idx < prev_p.len() && prev_p[idx] == d;
                                                assert(prev_p[idx] == d);
                                        }
                                    } else {
                                        assert(d == e.path.deep_view());
                                    }
                                }
                            }
                        }
                        true
                    },
                    None => false,
                }
            },
            EntryKind::File { size, head, cmd_mime } => {
                let rendered = readable_display(&e.path);
                let matched = is_pattern_match(self.matcher, rendered.as_str());
                if self.clean && matched {
                    let path = clone_parts(&e.path);
                    let a = Action::Delete(path, "cache/temp/junk (pattern)".to_owned());
                    let ghost prev = self.actions.deep_view();
                    proof {
                        assert(a@ == ActionModel::Delete(
                            e.path.deep_view(),
                            "cache/temp/junk (pattern)"@,
                        ));
                    }
                    self.actions.push(a);
                    proof {
                        assert(self.actions.deep_view() =~= prev.push(
                            ActionModel::Delete(e.path.deep_view(), "cache/temp/junk (pattern)"@),
                        )) by {
                            assert(forall|k: int|
                                0 <= k < prev.len() ==> self.actions.deep_view()[k] == prev[k]);
                        }
                    }
                    return false;
                }
                if self.clean && *size == 0 {
                    let path = clone_parts(&e.path);
                    let a = Action::Delete(path, "empty file".to_owned());
                    let ghost prev = self.actions.deep_view();
                    proof {
                        assert(a@ == ActionModel::Delete(e.path.deep_view(), "empty file"@));
                    }
                    self.actions.push(a);
                    proof {
                        assert(self.actions.deep_view() =~= prev.push(
                            ActionModel::Delete(e.path.deep_view(), "empty file"@),
                        )) by {
                            assert(forall|k: int|
                                0 <= k < prev.len() ==> self.actions.deep_view()[k] == prev[k]);
                        }
                    }
                    return false;
                }
                let name = &e.path[e.path.len() - 1];
                proof {
                    assert(e.path.deep_view().last() == e.path[e.path@.len() - 1]@);
                }
                let cat = self.categorizer.categorize_file(
                    name.as_str(),
                    head.as_slice(),
                    cmd_mime.as_ref(),
                );
                let dest = join_path(&self.dest_root, &cat.as_dir().to_owned());
                let src_path = clone_parts(&e.path);
                let a = Action::MoveFile(src_path, dest);
                let ghost prev = self.actions.deep_view();
                proof {
                    assert(a@ == ActionModel::MoveFile(
                        e.path.deep_view(),
                        self.dest_root.deep_view().push(dir_name_of(cat)),
                    ));
                }
                self.actions.push(a);
                proof {
                    assert(self.actions.deep_view() =~= prev.push(
                        ActionModel::MoveFile(
                            e.path.deep_view(),
                            self.dest_root.deep_view().push(dir_name_of(cat)),
                        ),
                    )) by {
                        assert(forall|k: int|
                            0 <= k < prev.len() ==> self.actions.deep_view()[k] == prev[k]);
                    }
                }
                false
            },
        }
    }
}

/// Law (whole-directory precedence): in a valid planner state, once a
/// directory stands in the whole-move set, no action's source lies
/// strictly below it — its contents are never independently classified,
/// moved or deleted.
pub proof fn lemma_whole_dir_exclusive(p: Planner, k: int, d: Seq<Seq<char>>)
    requires
        p.inv(),
        0 <= k < p.actions.deep_view().len(),
        p.planned_whole_dirs.deep_view().contains(d),
    ensures
        !is_strictly_under(source_of(p.actions.deep_view()[k]), d),
{
}

/// Law (skip roots are never re-planned): in a valid planner state no
/// action's source lies under any skip root; and an entry under a skip
/// root leaves the plan unchanged. Since a completed run leaves every
/// moved entry under a destination category directory — a skip root — a
/// second run over the moved entries plans nothing for them.
pub proof fn lemma_skip_root_entry_plans_nothing(p: Planner, e: Entry)
    requires
        under_any(e.path.deep_view(), p.skip_roots.deep_view()),
    ensures
        p.step_result(e).0 == p.actions.deep_view(),
        p.step_result(e).1 == p.planned_whole_dirs.deep_view(),
{
}

/// Law (second runs plan nothing, run form): a whole traversal whose
/// entries all lie under skip roots adds no action and no whole-move
/// directory to the plan, whatever state it starts from. After an applied
/// run every moved entry sits under a destination category directory — a
/// skip root — so a second traversal over the moved entries plans zero
/// further actions for them.
pub proof fn lemma_skipped_run_plans_nothing(
    p: Planner,
    acts: Seq<ActionModel>,
    planned: Seq<Seq<Seq<char>>>,
    entries: Seq<Entry>,
)
    requires
        forall|i: int|
            0 <= i < entries.len() ==> under_any(
                (#[trigger] entries[i]).path.deep_view(),
                p.skip_roots.deep_view(),
            ),
    ensures
        p.plan_fold(acts, planned, entries) == (acts, planned),
    decreases entries.len(),
{
    if entries.len() == 0 {
    } else {
        lemma_skipped_run_plans_nothing(p, acts, planned, entries.drop_last());
        assert(entries[entries.len() - 1] == entries.last());
    }
}

/// Law (broken symlinks): a symlink outside every skip root and planned
/// directory is planned for deletion with reason `broken symlink` exactly
/// when it is broken; an intact one is left untouched.
pub proof fn lemma_broken_symlink(p: Planner, e: Entry, broken: bool)
    requires
        e.kind == (EntryKind::Symlink { broken }),
        !under_any(e.path.deep_view(), p.skip_roots.deep_view()),
        !under_any(e.path.deep_view(), p.planned_whole_dirs.deep_view()),
    ensures
        broken ==> p.step_result(e).0 == p.actions.deep_view().push(
            ActionModel::Delete(e.path.deep_view(), "broken symlink"@),
        ),
        !broken ==> p.step_result(e).0 == p.actions.deep_view(),
        p.step_result(e).1 == p.planned_whole_dirs.deep_view(),
{
}

} // verus!
