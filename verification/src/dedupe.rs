use vstd::prelude::*;
use vstd::string::StringExecFns;
use crate::actions::{Action, ActionEngine, ActionModel, log_line_spec};
use crate::utils::digit_char;

verus! {

/// One grouping method: duplicates must agree on every enabled method.
#[derive(Debug, Clone, Copy, PartialEq, Eq, Hash, Structural)]
pub enum DedupeMethod {
    Name,
    Size,
    Hash,
}

/// What to do with each duplicate: delete it, or delete it and recreate
/// it as a hard or symbolic link to the kept copy.
#[derive(Debug, Clone, Copy, PartialEq, Eq, Hash, Structural)]
pub enum DedupeMode {
    Delete,
    Hardlink,
    Symlink,
}

/// One scanned file: its path, name, size, and content hash once computed.
#[derive(Debug, Clone)]
pub struct FileInfo {
    pub path: Vec<String>,
    pub name: String,
    pub size: u64,
    pub hash: Option<Vec<u8>>,
}

/// The view of an optional hash.
pub open spec fn hash_view(h: Option<Vec<u8>>) -> Option<Seq<u8>> {
    match h {
        Some(v) => Some(v@),
        None => None,
    }
}

/// What the content hasher returns: the 32-byte digest, a function of the
/// bytes alone.
pub uninterp spec fn blake3_of(data: Seq<u8>) -> Seq<u8>;

/// Relies on `blake3::hash` for the digest and on `blake3::Hash::as_bytes`
/// for reading it off: a 32-byte value depending on the input bytes alone.
#[verifier::external_body]
fn blake3_hash_bytes(data: &[u8]) -> (r: Vec<u8>)
    ensures
        r@ == blake3_of(data@),
        r@.len() == 32,
{
    blake3::hash(data).as_bytes().to_vec()
}

/// The content digest of a byte sequence: the named 32-byte value the
/// hash grouping method groups by. Callers that read a file themselves
/// digest its bytes through this entry point, so every installed hash is
/// tied to `blake3_of`.
pub fn content_digest(data: &[u8]) -> (r: Vec<u8>)
    ensures
        r@ == blake3_of(data@),
        r@.len() == 32,
{
    blake3_hash_bytes(data)
}

/// The hexadecimal digit character of a value below sixteen.
pub open spec fn hex_char_spec(n: nat) -> char {
    if n < 10 {
        digit_char(n)
    } else if n == 10 {
        'a'
    } else if n == 11 {
        'b'
    } else if n == 12 {
        'c'
    } else if n == 13 {
        'd'
    } else if n == 14 {
        'e'
    } else {
        'f'
    }
}

/// The lowercase hexadecimal rendering of a byte sequence, two digits per
/// byte.
pub open spec fn hex_spec(bytes: Seq<u8>) -> Seq<char>
    decreases bytes.len(),
{
    if bytes.len() == 0 {
        Seq::empty()
    } else {
        hex_spec(bytes.drop_last()) + seq![
            hex_char_spec((bytes.last() / 16) as nat),
            hex_char_spec((bytes.last() % 16) as nat),
        ]
    }
}

/// The hexadecimal digit of a value below sixteen.
pub fn hex_char(n: u8) -> (r: &'static str)
    requires
        n < 16,
    ensures
        r@ == seq![hex_char_spec(n as nat)],
{
    proof {
        reveal_strlit("0");
        reveal_strlit("1");
        reveal_strlit("2");
        reveal_strlit("3");
        reveal_strlit("4");
        reveal_strlit("5");
        reveal_strlit("6");
        reveal_strlit("7");
        reveal_strlit("8");
        reveal_strlit("9");
        reveal_strlit("a");
        reveal_strlit("b");
        reveal_strlit("c");
        reveal_strlit("d");
        reveal_strlit("e");
        reveal_strlit("f");
    }
    match n {
        0 => "0",
        1 => "1",
        2 => "2",
        3 => "3",
        4 => "4",
        5 => "5",
        6 => "6",
        7 => "7",
        8 => "8",
        9 => "9",
        10 => "a",
        11 => "b",
        12 => "c",
        13 => "d",
        14 => "e",
        _ => "f",
    }
}

/// The lowercase hexadecimal rendering of a byte sequence.
pub fn encode(bytes: &Vec<u8>) -> (r: String)
    ensures
        r@ == hex_spec(bytes@),
{
    let mut s = String::new();
    let mut i: usize = 0;
    while i < bytes.len()
        invariant
            0 <= i <= bytes.len(),
            s@ == hex_spec(bytes@.subrange(0, i as int)),
        decreases bytes.len() - i,
    {
        let b = bytes[i];
        s.append(hex_char(b / 16));
        s.append(hex_char(b % 16));
        proof {
            assert(bytes@.subrange(0, i + 1).drop_last() =~= bytes@.subrange(0, i as int));
            assert(bytes@.subrange(0, i + 1).last() == bytes@[i as int]);
            assert(s@ =~= hex_spec(bytes@.subrange(0, i + 1)));
        }
        i += 1;
    }
    proof {
        assert(bytes@.subrange(0, bytes@.len() as int) =~= bytes@);
    }
    s
}

/// Whether two records agree under one method: equal names, equal sizes,
/// or equal hash state (two unhashed records also agree).
pub open spec fn method_key_eq(m: DedupeMethod, a: FileInfo, b: FileInfo) -> bool {
    match m {
        DedupeMethod::Name => a.name@ == b.name@,
        DedupeMethod::Size => a.size == b.size,
        DedupeMethod::Hash => hash_view(a.hash) == hash_view(b.hash),
    }
}

/// Whether two records are duplicates: they agree under every enabled
/// method simultaneously.
pub open spec fn same_key(methods: Seq<DedupeMethod>, a: FileInfo, b: FileInfo) -> bool {
    forall|m: int| 0 <= m < methods.len() ==> method_key_eq(#[trigger] methods[m], a, b)
}

/// The earliest record index at or after `k` and before `j` agreeing with
/// record `j`.
pub open spec fn first_match_from(
    files: Seq<FileInfo>,
    methods: Seq<DedupeMethod>,
    j: int,
    k: int,
) -> Option<int>
    decreases j - k,
{
    if k >= j {
        None
    } else if same_key(methods, files[k], files[j]) {
        Some(k)
    } else {
        first_match_from(files, methods, j, k + 1)
    }
}

/// The canonical record of `j`'s group: the earliest record agreeing with
/// record `j`, where one precedes it; `None` makes `j` itself canonical.
pub open spec fn first_match(files: Seq<FileInfo>, methods: Seq<DedupeMethod>, j: int) -> Option<
    int,
> {
    first_match_from(files, methods, j, 0)
}

/// The resolved duplicates, in scan order: each index whose record has an
/// earlier agreeing record, paired with its canonical index.
pub open spec fn resolution_spec(files: Seq<FileInfo>, methods: Seq<DedupeMethod>, j: nat) -> Seq<
    (int, int),
>
    decreases j,
{
    if j == 0 {
        Seq::empty()
    } else {
        let rest = resolution_spec(files, methods, (j - 1) as nat);
        match first_match(files, methods, j - 1) {
            Some(i) => rest.push((j - 1, i)),
            None => rest,
        }
    }
}

/// The delete reason recorded for each duplicate under a mode.
pub open spec fn reason_spec(mode: DedupeMode) -> Seq<char> {
    match mode {
        DedupeMode::Delete => "duplicate file"@,
        DedupeMode::Hardlink => "duplicate file (to hardlink)"@,
        DedupeMode::Symlink => "duplicate file (to symlink)"@,
    }
}

/// One resolution step: the log line, whether the caller is to perform
/// the deletion, the duplicate's path, and the kept copy's path where a
/// link is to replace the duplicate.
pub struct ResolutionStep {
    pub line: String,
    pub perform_delete: bool,
    pub dup_path: Vec<String>,
    pub relink_to: Option<Vec<String>>,
}

/// The deduplication plan: the enabled methods and the scanned records,
/// in scan order.
#[derive(Debug)]
pub struct DedupePlan {
    pub methods: Vec<DedupeMethod>,
    pub files: Vec<FileInfo>,
}

impl DedupePlan {
    /// A plan with the given methods and no records yet.
    pub fn new(methods: Vec<DedupeMethod>) -> (r: Self)
        ensures
            r.methods@ == methods@,
            r.files@.len() == 0,
    {
        DedupePlan { methods, files: Vec::new() }
    }

    /// Records one scanned file, in scan order, with no hash yet.
    pub fn add_file(&mut self, path: Vec<String>, name: String, size: u64)
        ensures
            final(self).methods == old(self).methods,
            final(self).files@ == old(self).files@.push(
                (FileInfo { path, name, size, hash: None }),
            ),
    {
        self.files.push(FileInfo { path, name, size, hash: None });
    }

    /// Installs one record's content digest, at most once: a record
    /// already hashed keeps its hash.
    pub fn set_digest(&mut self, i: usize, digest: Vec<u8>)
        requires
            i < old(self).files@.len(),
        ensures
            final(self).methods == old(self).methods,
            final(self).files@.len() == old(self).files@.len(),
            forall|k: int|
                0 <= k < old(self).files@.len() && k != i ==> final(self).files@[k] == old(
                    self,
                ).files@[k],
            final(self).files@[i as int].path.deep_view() == old(self).files@[
                i as int].path.deep_view(),
            final(self).files@[i as int].name@ == old(self).files@[i as int].name@,
            final(self).files@[i as int].size == old(self).files@[i as int].size,
            hash_view(final(self).files@[i as int].hash) == (
            if old(self).files@[i as int].hash is Some {
                hash_view(old(self).files@[i as int].hash)
            } else {
                Some(digest@)
            }),
    {
        let needs = self.files[i].hash.is_none();
        if needs {
            let name = self.files[i].name.clone();
            let size = self.files[i].size;
            let path = crate::paths::clone_parts(&self.files[i].path);
            self.files.set(i, FileInfo { path, name, size, hash: Some(digest) });
        }
    }

    /// Hashes one record from its file's bytes, at most once: a record
    /// already hashed keeps its hash.
    pub fn set_hash_from_bytes(&mut self, i: usize, data: &[u8])
        requires
            i < old(self).files@.len(),
        ensures
            final(self).methods == old(self).methods,
            final(self).files@.len() == old(self).files@.len(),
            forall|k: int|
                0 <= k < old(self).files@.len() && k != i ==> final(self).files@[k] == old(
                    self,
                ).files@[k],
            final(self).files@[i as int].path.deep_view() == old(self).files@[
                i as int].path.deep_view(),
            final(self).files@[i as int].name@ == old(self).files@[i as int].name@,
            final(self).files@[i as int].size == old(self).files@[i as int].size,
            hash_view(final(self).files@[i as int].hash) == (
            if old(self).files@[i as int].hash is Some {
                hash_view(old(self).files@[i as int].hash)
            } else {
                Some(blake3_of(data@))
            }),
    {
        let needs = self.files[i].hash.is_none();
        if needs {
            let h = blake3_hash_bytes(data);
            let name = self.files[i].name.clone();
            let size = self.files[i].size;
            let path = crate::paths::clone_parts(&self.files[i].path);
            let ghost prev = self.files@;
            self.files.set(
                i,
                FileInfo { path, name, size, hash: Some(h) },
            );
        }
    }

    /// Resolves the duplicates through the engine, in scan order: each
    /// record with an earlier agreeing record is planned for deletion with
    /// the mode's reason, one log line each, and — for the link modes, in
    /// apply mode — for recreation as a link to its group's kept first
    /// record. Records with no earlier agreeing record survive untouched.
    pub fn apply(&self, mode: DedupeMode, engine: &mut ActionEngine) -> (r: Vec<ResolutionStep>)
        ensures
            final(engine).apply == old(engine).apply,
            final(engine).allow_cross_device == old(engine).allow_cross_device,
            ({
                let steps = resolution_spec(self.files@, self.methods@, self.files@.len());
                &&& r@.len() == steps.len()
                &&& (forall|k: int|
                    0 <= k < steps.len() ==> {
                        let (dup, keep) = #[trigger] steps[k];
                        &&& r@[k].dup_path.deep_view() == self.files@[dup].path.deep_view()
                        &&& r@[k].line@ == log_line_spec(
                            ActionModel::Delete(
                                self.files@[dup].path.deep_view(),
                                reason_spec(mode),
                            ),
                        )
                        &&& r@[k].perform_delete == old(engine).apply
                        &&& (match r@[k].relink_to {
                            Some(keep_path) => mode != DedupeMode::Delete && old(engine).apply
                                && keep_path.deep_view() == self.files@[keep].path.deep_view(),
                            None => !(mode != DedupeMode::Delete && old(engine).apply),
                        })
                    })
                &&& final(engine).lines.deep_view() == old(engine).lines.deep_view()
                    + steps.map_values(
                    |s: (int, int)|
                        log_line_spec(
                            ActionModel::Delete(
                                self.files@[s.0].path.deep_view(),
                                reason_spec(mode),
                            ),
                        ),
                )
            }),
    {
        let mut out: Vec<ResolutionStep> = Vec::new();
        let reason: String = match mode {
            DedupeMode::Delete => "duplicate file".to_owned(),
            DedupeMode::Hardlink => "duplicate file (to hardlink)".to_owned(),
            DedupeMode::Symlink => "duplicate file (to symlink)".to_owned(),
        };
        assert(reason@ == reason_spec(mode));
        let do_link = match mode {
            DedupeMode::Delete => false,
            _ => true,
        };
        let ghost steps_all = resolution_spec(self.files@, self.methods@, self.files@.len());
        let mut j: usize = 0;
        while j < self.files.len()
            invariant
                0 <= j <= self.files@.len(),
                reason@ == reason_spec(mode),
                do_link == (mode != DedupeMode::Delete),
                engine.apply == old(engine).apply,
                engine.allow_cross_device == old(engine).allow_cross_device,
                ({
                    let steps = resolution_spec(self.files@, self.methods@, j as nat);
                    &&& out@.len() == steps.len()
                    &&& (forall|k: int|
                        0 <= k < steps.len() ==> {
                            let (dup, keep) = #[trigger] steps[k];
                            &&& 0 <= keep < dup < self.files@.len()
                            &&& out@[k].dup_path.deep_view() == self.files@[
                                dup].path.deep_view()
                            &&& out@[k].line@ == log_line_spec(
                                ActionModel::Delete(
                                    self.files@[dup].path.deep_view(),
                                    reason_spec(mode),
                                ),
                            )
                            &&& out@[k].perform_delete == old(engine).apply
                            &&& (match out@[k].relink_to {
                                Some(keep_path) => mode != DedupeMode::Delete && old(
                                    engine,
                                ).apply && keep_path.deep_view() == self.files@[
                                    keep].path.deep_view(),
                                None => !(mode != DedupeMode::Delete && old(engine).apply),
                            })
                        })
                    &&& engine.lines.deep_view() =~= old(engine).lines.deep_view()
                        + steps.map_values(
                        |s: (int, int)|
                            log_line_spec(
                                ActionModel::Delete(
                                    self.files@[s.0].path.deep_view(),
                                    reason_spec(mode),
                                ),
                            ),
                    )
                }),
            decreases self.files@.len() - j,
        {
            let found = self.find_first_match(j);
            proof {
                assert(resolution_spec(self.files@, self.methods@, (j + 1) as nat)
                    == match first_match(self.files@, self.methods@, j as int) {
                    Some(i) => resolution_spec(self.files@, self.methods@, j as nat).push(
                        ((j as int, i)),
                    ),
                    None => resolution_spec(self.files@, self.methods@, j as nat),
                });
            }
            match found {
                Some(i) => {
                    let dup_path = crate::paths::clone_parts(&self.files[j].path);
                    let a = Action::Delete(
                        crate::paths::clone_parts(&self.files[j].path),
                        reason.clone(),
                    );
                    proof {
                        assert(a@ == ActionModel::Delete(
                            self.files@[j as int].path.deep_view(),
                            reason_spec(mode),
                        ));
                    }
                    let (line, perform) = engine.execute(&a);
                    let relink_to: Option<Vec<String>> = if do_link && perform {
                        Some(crate::paths::clone_parts(&self.files[i].path))
                    } else {
                        None
                    };
                    let step = ResolutionStep { line, perform_delete: perform, dup_path, relink_to };
                    let ghost prev_out = out@;
                    out.push(step);
                    proof {
                        let steps_next = resolution_spec(
                            self.files@,
                            self.methods@,
                            (j + 1) as nat,
                        );
                        let steps_prev = resolution_spec(self.files@, self.methods@, j as nat);
                        assert(steps_next =~= steps_prev.push((j as int, i as int)));
                        assert(out@ == prev_out.push(step));
                        let f = |s: (int, int)|
                            log_line_spec(
                                ActionModel::Delete(
                                    self.files@[s.0].path.deep_view(),
                                    reason_spec(mode),
                                ),
                            );
                        assert(steps_next.map_values(f) =~= steps_prev.map_values(f).push(
                            f((j as int, i as int)),
                        ));
                        assert(engine.lines.deep_view() =~= old(engine).lines.deep_view()
                            + steps_next.map_values(f));
                    }
                },
                None => {
                },
            }
            j += 1;
        }
        out
    }

    /// The earliest record before `j` agreeing with record `j` under the
    /// enabled methods.
    fn find_first_match(&self, j: usize) -> (r: Option<usize>)
        requires
            j < self.files@.len(),
        ensures
            match r {
                Some(i) => i < j && first_match(self.files@, self.methods@, j as int) == Some(
                    i as int,
                ),
                None => first_match(self.files@, self.methods@, j as int) is None,
            },
    {
        let mut i: usize = 0;
        while i < j
            invariant
                0 <= i <= j < self.files@.len(),
                first_match(self.files@, self.methods@, j as int) == first_match_from(
                    self.files@,
                    self.methods@,
                    j as int,
                    i as int,
                ),
            decreases j - i,
        {
            if self.same_key_at(i, j) {
                return Some(i);
            }
            i += 1;
        }
        None
    }

    /// Whether records `i` and `j` agree under every enabled method.
    fn same_key_at(&self, i: usize, j: usize) -> (r: bool)
        requires
            i < self.files@.len(),
            j < self.files@.len(),
        ensures
            r == same_key(self.methods@, self.files@[i as int], self.files@[j as int]),
    {
        let mut m: usize = 0;
        while m < self.methods.len()
            invariant
                0 <= m <= self.methods@.len(),
                i < self.files@.len(),
                j < self.files@.len(),
                forall|k: int|
                    0 <= k < m ==> method_key_eq(
                        #[trigger] self.methods@[k],
                        self.files@[i as int],
                        self.files@[j as int],
                    ),
            decreases self.methods@.len() - m,
        {
            let agree = match self.methods[m] {
                DedupeMethod::Name => self.files[i].name == self.files[j].name,
                DedupeMethod::Size => self.files[i].size == self.files[j].size,
                DedupeMethod::Hash => hashes_eq(&self.files[i].hash, &self.files[j].hash),
            };
            if !agree {
                assert(!method_key_eq(
                    self.methods@[m as int],
                    self.files@[i as int],
                    self.files@[j as int],
                ));
                return false;
            }
            m += 1;
        }
        true
    }
}

/// Whether two optional hashes agree: both absent, or both present and
/// byte-for-byte equal.
fn hashes_eq(a: &Option<Vec<u8>>, b: &Option<Vec<u8>>) -> (r: bool)
    ensures
        r == (hash_view(*a) == hash_view(*b)),
{
    match (a, b) {
        (None, None) => true,
        (Some(x), Some(y)) => bytes_eq(x, y),
        _ => false,
    }
}

/// Whether two byte vectors are equal.
fn bytes_eq(a: &Vec<u8>, b: &Vec<u8>) -> (r: bool)
    ensures
        r == (a@ == b@),
{
    if a.len() != b.len() {
        return false;
    }
    let mut i: usize = 0;
    while i < a.len()
        invariant
            0 <= i <= a@.len(),
            a@.len() == b@.len(),
            forall|k: int| 0 <= k < i ==> a@[k] == b@[k],
        decreases a@.len() - i,
    {
        if a[i] != b[i] {
            return false;
        }
        i += 1;
    }
    proof {
        assert(a@ =~= b@);
    }
    true
}

/// Law (AND-composition and scan-order survival): every entry of the
/// resolution pairs a duplicate with the earliest record agreeing with it
/// under every enabled method — the first record of a group, in scan
/// order, is never itself resolved away.
pub proof fn lemma_resolution_sound(
    files: Seq<FileInfo>,
    methods: Seq<DedupeMethod>,
    j: nat,
    k: int,
)
    requires
        j <= files.len(),
        0 <= k < resolution_spec(files, methods, j).len(),
    ensures
        ({
            let (dup, keep) = resolution_spec(files, methods, j)[k];
            &&& 0 <= keep < dup < j
            &&& same_key(methods, files[keep], files[dup])
            &&& forall|e: int| 0 <= e < keep ==> !same_key(methods, files[e], files[dup])
            &&& first_match(files, methods, dup) == Some(keep)
        }),
    decreases j,
{
    if j == 0 {
    } else {
        let rest = resolution_spec(files, methods, (j - 1) as nat);
        if k < rest.len() {
            lemma_resolution_sound(files, methods, (j - 1) as nat, k);
        } else {
            match first_match(files, methods, j - 1) {
                Some(i) => {
                    lemma_first_match_sound(files, methods, j - 1, 0, i);
                },
                None => {
                },
            }
        }
    }
}

/// Law (completeness of resolution): every record with an earlier
/// agreeing record is resolved exactly once; every record without one is
/// left out of the resolution entirely.
pub proof fn lemma_resolution_complete(
    files: Seq<FileInfo>,
    methods: Seq<DedupeMethod>,
    j: nat,
    dup: int,
)
    requires
        j <= files.len(),
        0 <= dup < j,
    ensures
        first_match(files, methods, dup) is Some ==> exists|k: int|
            0 <= k < resolution_spec(files, methods, j).len() && (#[trigger] resolution_spec(
                files,
                methods,
                j,
            )[k]).0 == dup,
        first_match(files, methods, dup) is None ==> forall|k: int|
            0 <= k < resolution_spec(files, methods, j).len() ==> (#[trigger] resolution_spec(
                files,
                methods,
                j,
            )[k]).0 != dup,
    decreases j,
{
    if j == 0 {
    } else {
        let rest = resolution_spec(files, methods, (j - 1) as nat);
        let full = resolution_spec(files, methods, j);
        if dup == j - 1 {
            match first_match(files, methods, dup) {
                Some(i) => {
                    assert(full[full.len() - 1].0 == dup);
                },
                None => {
                    assert forall|k: int| 0 <= k < full.len() implies (#[trigger] full[k]).0
                        != dup by {
                        lemma_resolution_sound(files, methods, (j - 1) as nat, k);
                    }
                },
            }
        } else {
            lemma_resolution_complete(files, methods, (j - 1) as nat, dup);
            if first_match(files, methods, dup) is Some {
                let k = choose|k: int|
                    0 <= k < rest.len() && (#[trigger] rest[k]).0 == dup;
                assert(full[k].0 == dup);
            } else {
                assert forall|k: int| 0 <= k < full.len() implies (#[trigger] full[k]).0
                    != dup by {
                    if k < rest.len() {
                    } else {
                        assert(full[k].0 == j - 1);
                    }
                }
            }
        }
    }
}

proof fn lemma_first_match_sound(
    files: Seq<FileInfo>,
    methods: Seq<DedupeMethod>,
    j: int,
    from: int,
    i: int,
)
    requires
        0 <= from,
        first_match_from(files, methods, j, from) == Some(i),
    ensures
        from <= i < j,
        same_key(methods, files[i], files[j]),
        forall|e: int| from <= e < i ==> !same_key(methods, files[e], files[j]),
    decreases j - from,
{
    if from >= j {
    } else if same_key(methods, files[from], files[j]) {
    } else {
        lemma_first_match_sound(files, methods, j, from + 1, i);
    }
}

} // verus!
