use vstd::prelude::*;
use vstd::string::StringExecFns;
use crate::paths::render_spec;

verus! {

/// `needle` occurs somewhere in `s` as a contiguous run of characters.
pub open spec fn contains_seq(s: Seq<char>, needle: Seq<char>) -> bool {
    exists|i: int|
        0 <= i && i + needle.len() <= s.len() && #[trigger] s.subrange(i, i + needle.len())
            == needle
}

/// `p` stands at the start of `s`.
pub open spec fn starts_with_seq(s: Seq<char>, p: Seq<char>) -> bool {
    p.len() <= s.len() && s.subrange(0, p.len() as int) == p
}

/// `p` stands at the end of `s`.
pub open spec fn ends_with_seq(s: Seq<char>, p: Seq<char>) -> bool {
    p.len() <= s.len() && s.subrange(s.len() - p.len(), s.len() as int) == p
}

/// Relies on `<str as PartialEq>::eq`: two string slices are equal exactly
/// when their characters are.
#[verifier::external_body]
pub(crate) fn str_eq(a: &str, b: &str) -> (r: bool)
    ensures
        r == (a@ == b@),
{
    a == b
}

/// Relies on `str::starts_with`: true exactly when the string begins with
/// the prefix.
#[verifier::external_body]
pub(crate) fn str_starts_with(s: &str, prefix: &str) -> (r: bool)
    ensures
        r == starts_with_seq(s@, prefix@),
{
    s.starts_with(prefix)
}

/// Relies on `str::ends_with`: true exactly when the string ends with the
/// suffix.
#[verifier::external_body]
pub(crate) fn str_ends_with(s: &str, suffix: &str) -> (r: bool)
    ensures
        r == ends_with_seq(s@, suffix@),
{
    s.ends_with(suffix)
}

/// What `str::to_lowercase` returns: a function of the characters alone.
pub uninterp spec fn lower_of(s: Seq<char>) -> Seq<char>;

/// What `str::trim` returns: the characters with leading and trailing
/// whitespace removed; a function of the characters alone.
pub uninterp spec fn trimmed_of(s: Seq<char>) -> Seq<char>;

/// What `str::lines` returns: the lines of the text, split at line
/// endings; a function of the characters alone.
pub uninterp spec fn lines_of(s: Seq<char>) -> Seq<Seq<char>>;

/// Relies on `str::to_lowercase`: the lowercase form of a string depends
/// on its characters alone.
#[verifier::external_body]
pub(crate) fn lowercase(s: &str) -> (r: String)
    ensures
        r@ == lower_of(s@),
{
    s.to_lowercase()
}

/// Relies on `str::trim`: the trimmed form of a string depends on its
/// characters alone.
#[verifier::external_body]
pub(crate) fn trim_str(s: &str) -> (r: String)
    ensures
        r@ == trimmed_of(s@),
{
    s.trim().to_string()
}

/// Relies on `str::lines` for the split; the surrounding conversion turns
/// each borrowed line into an owned string.
#[verifier::external_body]
pub(crate) fn split_lines(s: &str) -> (r: Vec<String>)
    ensures
        r.deep_view() == lines_of(s@),
{
    let mut v: Vec<String> = Vec::new();
    for line in s.lines() {
        v.push(line.to_string());
    }
    v
}

/// Relies on `str::contains`: true exactly when the needle occurs as a
/// contiguous substring.
#[verifier::external_body]
pub(crate) fn str_contains(s: &str, needle: &str) -> (r: bool)
    ensures
        r == contains_seq(s@, needle@),
{
    s.contains(needle)
}

/// Relies on `str::rsplit_once`: splits around the last `.` when one
/// exists; the surrounding conversion turns the halves into owned strings.
#[verifier::external_body]
pub(crate) fn split_last_dot(s: &str) -> (r: Option<(String, String)>)
    ensures
        match r {
            Some(p) => s@ == p.0@ + seq!['.'] + p.1@ && !p.1@.contains('.'),
            None => !s@.contains('.'),
        },
{
    match s.rsplit_once('.') {
        Some((a, b)) => Some((a.to_string(), b.to_string())),
        None => None,
    }
}

/// Relies on `Iterator::next` over `str::chars`: yields the first
/// character of a nonempty string.
#[verifier::external_body]
pub(crate) fn first_char(s: &str) -> (r: Option<char>)
    ensures
        s@.len() == 0 ==> r is None,
        s@.len() > 0 ==> r == Some(s@[0]),
{
    s.chars().next()
}

/// The extension of a file name: the part after the last dot, unless the
/// name has no dot or all of it stands after a leading dot.
pub open spec fn extension_spec(name: Seq<char>) -> Option<Seq<char>> {
    if exists|i: int|
        0 < i && i + 1 <= name.len() && name[i] == '.' && !name.subrange(
            i + 1,
            name.len() as int,
        ).contains('.') {
        let i = choose|i: int|
            0 < i && i + 1 <= name.len() && name[i] == '.' && !name.subrange(
                i + 1,
                name.len() as int,
            ).contains('.');
        Some(name.subrange(i + 1, name.len() as int))
    } else {
        None
    }
}

/// The extension of a file name, or `None` where the name has none.
pub fn extension_of(name: &str) -> (r: Option<String>)
    ensures
        match r {
            Some(e) => extension_spec(name@) == Some(e@),
            None => extension_spec(name@) is None,
        },
{
    match split_last_dot(name) {
        Some((stem, ext)) => {
            if stem.as_str().is_empty() {
                proof {
                    assert forall|i: int|
                        !(0 < i && i + 1 <= name@.len() && name@[i] == '.' && !name@.subrange(
                            i + 1,
                            name@.len() as int,
                        ).contains('.')) by {
                        if 0 < i && i + 1 <= name@.len() && name@[i] == '.' && !name@.subrange(
                            i + 1,
                            name@.len() as int,
                        ).contains('.') {
                            assert(name@[0] == '.');
                            assert(name@.subrange(1, name@.len() as int)[i - 1] == '.');
                        }
                    }
                }
                None
            } else {
                proof {
                    let d = stem@.len() as int;
                    assert(name@[d] == '.');
                    assert(name@.subrange(d + 1, name@.len() as int) =~= ext@);
                    let w = choose|i: int|
                        0 < i && i + 1 <= name@.len() && name@[i] == '.' && !name@.subrange(
                            i + 1,
                            name@.len() as int,
                        ).contains('.');
                    if w != d {
                        if w < d {
                            assert(name@.subrange(w + 1, name@.len() as int)[d - w - 1] == '.');
                        } else {
                            assert(ext@[w - d - 1] == '.');
                        }
                    }
                }
                Some(ext)
            }
        },
        None => {
            proof {
                if extension_spec(name@) is Some {
                    let i = choose|i: int|
                        0 < i && i + 1 <= name@.len() && name@[i] == '.' && !name@.subrange(
                            i + 1,
                            name@.len() as int,
                        ).contains('.');
                    assert(name@.contains('.'));
                }
            }
            None
        },
    }
}

/// The decimal digit character of a value below ten.
pub open spec fn digit_char(d: nat) -> char {
    if d == 0 {
        '0'
    } else if d == 1 {
        '1'
    } else if d == 2 {
        '2'
    } else if d == 3 {
        '3'
    } else if d == 4 {
        '4'
    } else if d == 5 {
        '5'
    } else if d == 6 {
        '6'
    } else if d == 7 {
        '7'
    } else if d == 8 {
        '8'
    } else {
        '9'
    }
}

/// The decimal rendering of a natural number, most significant digit
/// first, with no leading zero except for zero itself.
pub open spec fn decimal_spec(n: nat) -> Seq<char>
    decreases n,
{
    if n < 10 {
        seq![digit_char(n)]
    } else {
        decimal_spec(n / 10).push(digit_char(n % 10))
    }
}

fn digit_str(d: usize) -> (r: &'static str)
    requires
        d < 10,
    ensures
        r@ == seq![digit_char(d as nat)],
{
    proof {
        reveal_strlit("0");
        reveal_strlit("1");
        reveal_strlit("2");
        reveal_strlit("3");
        reveal_strlit("4");
        reveal_strlit("5");
        reveal_strlit("6");
        reveal_strlit("7");
        reveal_strlit("8");
        reveal_strlit("9");
    }
    match d {
        0 => "0",
        1 => "1",
        2 => "2",
        3 => "3",
        4 => "4",
        5 => "5",
        6 => "6",
        7 => "7",
        8 => "8",
        _ => "9",
    }
}

/// The decimal rendering of a number as a string.
pub fn usize_decimal(n: usize) -> (r: String)
    ensures
        r@ == decimal_spec(n as nat),
    decreases n,
{
    if n < 10 {
        digit_str(n).to_owned()
    } else {
        let mut s = usize_decimal(n / 10);
        s.append(digit_str(n % 10));
        s
    }
}

#[verifier::external_type_specification]
#[verifier::external_body]
pub struct ExGlob(globset::Glob);

#[verifier::external_type_specification]
#[verifier::external_body]
pub struct ExGlobSet(globset::GlobSet);

#[verifier::external_type_specification]
#[verifier::external_body]
pub struct ExGlobSetBuilder(globset::GlobSetBuilder);

/// What a compiled glob set matches: a function of the set and the path
/// text alone.
pub uninterp spec fn globset_matches(gs: globset::GlobSet, path: Seq<char>) -> bool;

/// What one glob pattern matches: a function of the pattern text and the
/// path text alone.
pub uninterp spec fn glob_one_matches(pat: Seq<char>, path: Seq<char>) -> bool;

/// Whether a pattern text is a syntactically valid glob: the texts on
/// which `globset::Glob::new` succeeds.
pub uninterp spec fn glob_ok(pat: Seq<char>) -> bool;

/// The pattern text a compiled glob was built from.
pub uninterp spec fn glob_pattern_of(g: globset::Glob) -> Seq<char>;

/// The pattern texts of the globs added to a builder, in order.
pub uninterp spec fn builder_globs(b: globset::GlobSetBuilder) -> Seq<Seq<char>>;

/// Relies on `globset::Glob::new`: parses one glob pattern, succeeding
/// exactly on the syntactically valid ones, and the compiled glob keeps
/// its pattern text; the conversion maps the error to `None`.
#[verifier::external_body]
pub(crate) fn glob_new(pat: &str) -> (r: Option<globset::Glob>)
    ensures
        r is Some <==> glob_ok(pat@),
        match r {
            Some(g) => glob_pattern_of(g) == pat@,
            None => true,
        },
{
    match globset::Glob::new(pat) {
        Ok(g) => Some(g),
        Err(_) => None,
    }
}

/// Relies on `globset::GlobSetBuilder::new`: a builder with no globs yet.
#[verifier::external_body]
pub(crate) fn globset_builder_new() -> (r: globset::GlobSetBuilder)
    ensures
        builder_globs(r) == Seq::<Seq<char>>::empty(),
{
    globset::GlobSetBuilder::new()
}

/// Relies on `globset::GlobSetBuilder::add`: appends one glob to the
/// builder's collection.
#[verifier::external_body]
pub(crate) fn globset_builder_add(b: &mut globset::GlobSetBuilder, g: globset::Glob)
    ensures
        builder_globs(*final(b)) == builder_globs(*old(b)).push(glob_pattern_of(g)),
{
    b.add(g);
}

/// Relies on `globset::GlobSetBuilder::build` and the documented meaning
/// of `globset::GlobSet::is_match`: a built set matches a path exactly
/// when at least one glob added to the builder matches it; the conversion
/// maps the error to `None`.
#[verifier::external_body]
pub(crate) fn globset_build(b: &globset::GlobSetBuilder) -> (r: Option<globset::GlobSet>)
    ensures
        match r {
            Some(gs) => forall|path: Seq<char>|
                #[trigger] globset_matches(gs, path) <==> exists|k: int|
                    0 <= k < builder_globs(*b).len() && #[trigger] glob_one_matches(
                        builder_globs(*b)[k],
                        path,
                    ),
            None => true,
        },
{
    match b.build() {
        Ok(s) => Some(s),
        Err(_) => None,
    }
}

/// Relies on `globset::GlobSet::is_match`: true exactly when some glob in
/// the set matches the path; a function of the set and the path text alone.
#[verifier::external_body]
pub fn is_pattern_match(matcher: &globset::GlobSet, path: &str) -> (r: bool)
    ensures
        r == globset_matches(*matcher, path@),
{
    matcher.is_match(path)
}

/// The display form of a path given as components, joined with `/`.
pub fn readable_display(p: &Vec<String>) -> (r: String)
    ensures
        r@ == render_spec(p.deep_view()),
{
    let mut s = String::new();
    let mut i: usize = 0;
    while i < p.len()
        invariant
            0 <= i <= p.len(),
            p.len() == p.deep_view().len(),
            s@ == render_spec(p.deep_view().subrange(0, i as int)),
        decreases p.len() - i,
    {
        if i > 0 {
            s.append("/");
        }
        s.append(p[i].as_str());
        proof {
            reveal_strlit("/");
            let dv = p.deep_view();
            assert(dv.subrange(0, i + 1).drop_last() =~= dv.subrange(0, i as int));
            assert(dv.subrange(0, i + 1).last() == dv[i as int]);
            if i == 0 {
                assert(render_spec(dv.subrange(0, 1)) == dv[0]);
            }
        }
        i += 1;
    }
    assert(p.deep_view().subrange(0, p.deep_view().len() as int) =~= p.deep_view());
    s
}

} // verus!
