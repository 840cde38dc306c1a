//! File paths as text, by way of `std::path`.
//!
//! What separates the parts of a path differs between systems: on some only
//! slashes do, on others backslashes do too, and a letter with a colon may
//! stand before them as a drive. What is stated here of `std::path` is that a
//! path is read in one of these two ways, which agree on portable paths.

use std::path::Path;
use vstd::prelude::*;
use vstd::string::{StrSliceExecFns, StringExecFns};
use crate::text;
use crate::text::{decimal_text, owned};

verus! {

/// A path that every system reads alike: no backslash, no colon, and no two
/// slashes at its start.
pub open spec fn portable(path: Seq<char>) -> bool {
    &&& forall|i: int| 0 <= i < path.len() ==> path[i] != '\\' && path[i] != ':'
    &&& !(path.len() > 1 && path[0] == '/' && path[1] == '/')
}

/// The end of a text after the last `mark`; the whole text where there is none.
pub open spec fn tail(s: Seq<char>, mark: char) -> Seq<char>
    decreases s.len(),
{
    if s.len() == 0 || s.last() == mark {
        Seq::empty()
    } else {
        tail(s.drop_last(), mark).push(s.last())
    }
}

/// The text up to and with the last `mark`; empty where there is none.
pub open spec fn head(s: Seq<char>, mark: char) -> Seq<char>
    decreases s.len(),
{
    if s.len() == 0 || s.last() == mark {
        s
    } else {
        head(s.drop_last(), mark)
    }
}

/// Whether a part of a path counts for nothing: it is empty or a single dot.
pub open spec fn idle(part: Seq<char>) -> bool {
    part.len() == 0 || part == seq!['.']
}

/// The last part of a path, if that is a name. Slashes and single dots at the
/// end do not count as parts.
pub open spec fn final_name(path: Seq<char>) -> Option<Seq<char>>
    decreases path.len(),
{
    proof {
        head_and_tail(path, '/');
    }
    let part = tail(path, '/');
    let rest = head(path, '/');
    if idle(part) {
        if rest.len() == 0 {
            None
        } else {
            final_name(rest.drop_last())
        }
    } else if part == seq!['.', '.'] {
        None
    } else {
        Some(part)
    }
}

/// How much of the start of a path stays whatever its parts are: the slash of
/// the root, or a first part that is a single dot.
pub open spec fn lead(path: Seq<char>) -> nat {
    if path.len() > 0 && path[0] == '/' {
        1
    } else if path.len() > 0 && path[0] == '.' && (path.len() == 1 || path[1] == '/') {
        1
    } else {
        0
    }
}

/// The path up to its last slash; the slash itself stays only as the root.
pub open spec fn cut(path: Seq<char>) -> Seq<char> {
    let rest = head(path, '/');
    if rest.len() <= 1 {
        rest
    } else {
        rest.drop_last()
    }
}

/// The path without the slashes and single dots at its end.
pub open spec fn shorn(path: Seq<char>) -> Seq<char>
    decreases path.len(),
{
    proof {
        lemma_cut(path);
    }
    if path.len() > lead(path) && idle(tail(path, '/')) {
        shorn(cut(path))
    } else {
        path
    }
}

/// The path without its last part. The empty path and the root have no parent,
/// and a single dot has the empty one.
pub open spec fn parent_of(path: Seq<char>) -> Option<Seq<char>> {
    let whole = shorn(path);
    if whole.len() > lead(whole) {
        Some(shorn(cut(whole)))
    } else if whole == seq!['.'] {
        Some(Seq::empty())
    } else {
        None
    }
}

/// The directory of a path: its parent, or else the current one.
pub open spec fn home(path: Seq<char>) -> Seq<char> {
    match parent_of(path) {
        Some(dir) => dir,
        None => "."@,
    }
}

/// A path that some systems take apart no further: it begins with two
/// backslashes and a question mark.
pub open spec fn verbatim(path: Seq<char>) -> bool {
    path.len() > 2 && path[0] == '\\' && path[1] == '\\' && path[2] == '?'
}

/// A file name that no system takes for more than one part.
pub open spec fn simple_name(name: Seq<char>) -> bool {
    &&& name.len() > 0
    &&& forall|i: int| 0 <= i < name.len() ==> name[i] != '/' && name[i] != '\\' && name[i] != ':'
}

/// Whether `c` separates the parts of a path on some system.
pub open spec fn separates(c: char) -> bool {
    c == '/' || c == '\\'
}

/// A path that begins with two separators: on some systems it names another
/// machine.
pub open spec fn doubled(path: Seq<char>) -> bool {
    path.len() > 1 && separates(path[0]) && separates(path[1])
}

/// The text with slashes for backslashes.
pub open spec fn slashed(s: Seq<char>) -> Seq<char> {
    s.map_values(
        |c: char|
            if c == '\\' {
                '/'
            } else {
                c
            },
    )
}

/// How many characters name a drive at the start of a path, where there are
/// drives: a letter and a colon.
pub open spec fn drive(path: Seq<char>) -> nat {
    if path.len() > 1 && ('a' <= path[0] <= 'z' || 'A' <= path[0] <= 'Z') && path[1] == ':' {
        2
    } else {
        0
    }
}

/// The path after its drive, with slashes only, as it is read where
/// backslashes separate too.
pub open spec fn driven(path: Seq<char>) -> Seq<char> {
    slashed(path.skip(drive(path) as int))
}

/// The last part of a path, if that is a name, where backslashes separate too.
pub open spec fn driven_name(path: Seq<char>) -> Option<Seq<char>> {
    final_name(driven(path))
}

/// The path without its last part, where backslashes separate too.
pub open spec fn driven_parent(path: Seq<char>) -> Option<Seq<char>> {
    match parent_of(driven(path)) {
        Some(dir) => Some(path.take((drive(path) + dir.len()) as int)),
        None => None,
    }
}

/// Whether `name` is the last name of the path on some system.
pub open spec fn names(name: Option<Seq<char>>, path: Seq<char>) -> bool {
    !doubled(path) ==> name == final_name(path) || name == driven_name(path)
}

/// Whether `dir` is the parent of the path on some system.
pub open spec fn places(dir: Option<Seq<char>>, path: Seq<char>) -> bool {
    !doubled(path) ==> dir == parent_of(path) || dir == driven_parent(path)
}

/// A path whose last name is the same on every system.
pub open spec fn named_alike(path: Seq<char>) -> bool {
    !doubled(path) && driven_name(path) == final_name(path)
}

/// A path whose parent is the same on every system.
pub open spec fn placed_alike(path: Seq<char>) -> bool {
    !doubled(path) && driven_parent(path) == parent_of(path)
}

/// `Path::file_name`: the last part of the path, if it is a name, by one of the
/// two ways to read it. Nothing is stated of paths that begin with two
/// separators.
#[verifier::external_body]
pub(crate) fn file_name(path: &str) -> (name: Option<String>)
    ensures
        names(text::opt_text(name), path@),
{
    Path::new(path).file_name()?.to_str().map(String::from)
}

/// `Path::parent`: the path without its last part, by one of the two ways to
/// read it. Of paths that begin with two separators it is only stated that the
/// result begins the path.
#[verifier::external_body]
pub(crate) fn parent(path: &str) -> (dir: Option<String>)
    ensures
        places(text::opt_text(dir), path@),
        dir matches Some(d) ==> d@.is_prefix_of(path@),
{
    Path::new(path).parent()?.to_str().map(String::from)
}

/// Whether `path` is `name` inside the directory `dir`, whichever separator
/// the system writes. None is written after a slash; after a backslash or a
/// colon there may be none.
pub open spec fn inside(path: Seq<char>, dir: Seq<char>, name: Seq<char>) -> bool {
    if dir.len() == 0 || dir.last() == '/' {
        path == dir + name
    } else {
        ||| path == dir + seq!['/'] + name
        ||| path == dir + seq!['\\'] + name
        ||| (dir.last() == '\\' || dir.last() == ':') && path == dir + name
    }
}

/// What is the same on every system about the path of `name` in `dir`.
pub open spec fn joined(path: Seq<char>, dir: Seq<char>, name: Seq<char>) -> bool {
    &&& simple_name(name) && !verbatim(dir) ==> inside(path, dir, name)
    &&& !verbatim(dir) || (simple_name(name) && name != seq!['.'] && name != seq!['.', '.'])
        ==> name.is_suffix_of(path)
}

/// `Path::join`: the path of `name` inside `dir`. Where `name` is not simple or
/// `dir` is verbatim, it is only stated that the path ends with the name, and
/// not even that where both hold. Nor is it stated which separator is written.
#[verifier::external_body]
pub(crate) fn join(dir: &str, name: &str) -> (path: String)
    ensures
        joined(path@, dir@, name@),
{
    Path::new(dir).join(name).display().to_string()
}

/// A file name without its extension: what stands before the last dot, unless
/// there is no dot but at the start.
pub open spec fn name_stem(name: Seq<char>) -> Seq<char> {
    if head(name, '.').len() <= 1 {
        name
    } else {
        head(name, '.').drop_last()
    }
}

/// The extension of a file name: what stands after the last dot, unless there
/// is no dot but at the start.
pub open spec fn name_extension(name: Seq<char>) -> Option<Seq<char>> {
    if head(name, '.').len() <= 1 {
        None
    } else {
        Some(tail(name, '.'))
    }
}

/// The stem of a file name, where there is a name.
pub open spec fn stem_of(name: Option<Seq<char>>) -> Option<Seq<char>> {
    match name {
        Some(n) => Some(name_stem(n)),
        None => None,
    }
}

/// The extension of a file name, where there is a name.
pub open spec fn extension_of(name: Option<Seq<char>>) -> Option<Seq<char>> {
    match name {
        Some(n) => name_extension(n),
        None => None,
    }
}

/// How many characters stand up to and with the last dot.
fn last_dot(name: &str) -> (at: usize)
    ensures
        at == head(name@, '.').len(),
        at <= name@.len(),
        head(name@, '.') == name@.take(at as int),
        tail(name@, '.') == name@.skip(at as int),
{
    let len: usize = name.unicode_len();
    let mut at: usize = len;
    assert(name@.take(at as int) =~= name@);
    while at > 0 && name.get_char(at - 1) != '.'
        invariant
            at <= len,
            len == name@.len(),
            head(name@, '.') == head(name@.take(at as int), '.'),
        decreases at,
    {
        assert(name@.take(at as int).drop_last() =~= name@.take(at - 1));
        at = at - 1;
    }
    proof {
        head_and_tail(name@, '.');
        assert(tail(name@, '.') =~= name@.skip(at as int));
    }
    at
}

/// The stem of a file name, where there is a name.
pub fn file_stem(name: &Option<String>) -> (stem: Option<String>)
    ensures
        text::opt_text(stem) == stem_of(text::opt_text(*name)),
{
    match name {
        Some(name) => {
            let at: usize = last_dot(name.as_str());
            if at <= 1 {
                Some(owned(name.as_str()))
            } else {
                assert(name@.take(at as int).drop_last() =~= name@.subrange(0, at - 1));
                Some(owned(name.as_str().substring_char(0, at - 1)))
            }
        },
        None => None,
    }
}

/// The extension of a file name, where there is a name.
pub fn extension(name: &Option<String>) -> (ext: Option<String>)
    ensures
        text::opt_text(ext) == extension_of(text::opt_text(*name)),
{
    match name {
        Some(name) => {
            let at: usize = last_dot(name.as_str());
            if at <= 1 {
                None
            } else {
                let len: usize = name.as_str().unicode_len();
                Some(owned(name.as_str().substring_char(at, len)))
            }
        },
        None => None,
    }
}

/// The name of the output at place `index` beside `stem` and `ext`: counted
/// from one, and `.png` where there is no extension.
pub open spec fn numbered(
    stem: Option<Seq<char>>,
    ext: Option<Seq<char>>,
    index: int,
) -> Seq<char> {
    (match stem {
        Some(s) => s,
        None => "image"@,
    }) + "-"@ + text::decimal((index + 1) as nat) + (match ext {
        Some(e) => "."@ + e,
        None => ".png"@,
    })
}

/// The file name of the output at place `index`.
pub fn numbered_name(stem: &Option<String>, ext: &Option<String>, index: usize) -> (name: String)
    requires
        index < usize::MAX,
    ensures
        name@ == numbered(text::opt_text(*stem), text::opt_text(*ext), index as int),
{
    let base: String = match stem {
        Some(s) => owned(s.as_str()),
        None => owned("image"),
    };
    let suffix: String = match ext {
        Some(e) => owned(".").concat(e.as_str()),
        None => owned(".png"),
    };
    let number: String = decimal_text((index + 1) as u64);
    base.concat("-").concat(number.as_str()).concat(suffix.as_str())
}

/// Outputs at different places beside one stem and extension have different
/// names.
pub proof fn numbered_names_differ(
    stem: Option<Seq<char>>,
    ext: Option<Seq<char>>,
    i: nat,
    j: nat,
)
    requires
        i != j,
    ensures
        numbered(stem, ext, i as int) != numbered(stem, ext, j as int),
{
    let base = (match stem {
        Some(s) => s,
        None => "image"@,
    }) + "-"@;
    let suffix = match ext {
        Some(e) => "."@ + e,
        None => ".png"@,
    };
    let a = text::decimal(i + 1);
    let b = text::decimal(j + 1);
    if base + a + suffix == base + b + suffix {
        assert((base + a + suffix).len() == (base + b + suffix).len());
        assert((base + a + suffix).subrange(base.len() as int, (base.len() + a.len()) as int) =~= a);
        assert((base + b + suffix).subrange(base.len() as int, (base.len() + b.len()) as int) =~= b);
        text::decimal_injective(i + 1, j + 1);
    }
}

/// A path taken apart: its directory, and its last name.
pub struct OutView {
    pub dir: Seq<char>,
    pub name: Option<Seq<char>>,
}

impl OutView {
    /// The name of the output at place `index`.
    pub open spec fn output(self, index: int) -> Seq<char> {
        numbered(stem_of(self.name), extension_of(self.name), index)
    }
}

/// What is the same on every system about a path that is taken apart.
pub open spec fn takes_apart(parts: OutView, out: Seq<char>) -> bool {
    &&& names(parts.name, out)
    &&& places(Some(parts.dir), out) || (parts.dir == "."@ && places(None, out))
    &&& parts.dir.is_prefix_of(out) || parts.dir == "."@
}

/// What is the same on every system about the path, inside the directory, of
/// the output at place `index`.
pub open spec fn stands_at(path: Seq<char>, parts: OutView, index: int) -> bool {
    joined(path, parts.dir, parts.output(index))
}

/// Whether `path` may be where the output at place `index` beside `out` goes.
pub open spec fn numbered_beside(path: Seq<char>, out: Seq<char>, index: int) -> bool {
    exists|parts: OutView| #[trigger] takes_apart(parts, out) && stands_at(path, parts, index)
}

/// A path taken apart.
pub struct OutParts {
    pub dir: String,
    pub name: Option<String>,
}

impl View for OutParts {
    type V = OutView;

    open spec fn view(&self) -> OutView {
        OutView { dir: self.dir@, name: text::opt_text(self.name) }
    }
}

impl OutParts {
    /// The path taken apart.
    pub fn of(out: &str) -> (parts: OutParts)
        ensures
            takes_apart(parts@, out@),
    {
        let name: Option<String> = file_name(out);
        let dir: String = match parent(out) {
            Some(dir) => dir,
            None => owned("."),
        };
        OutParts { dir, name }
    }

    /// The path, inside the directory, of the output at place `index`.
    pub fn at(&self, index: usize) -> (path: String)
        requires
            index < usize::MAX,
        ensures
            stands_at(path@, self@, index as int),
    {
        let stem: Option<String> = file_stem(&self.name);
        let ext: Option<String> = extension(&self.name);
        let name: String = numbered_name(&stem, &ext, index);
        join(self.dir.as_str(), name.as_str())
    }
}

/// The path beside `out` for the output at place `index`.
pub fn numbered_out(out: &str, index: usize) -> (path: String)
    requires
        index < usize::MAX,
    ensures
        numbered_beside(path@, out@, index as int),
{
    let parts: OutParts = OutParts::of(out);
    let path: String = parts.at(index);
    assert(takes_apart(parts@, out@) && stands_at(path@, parts@, index as int));
    path
}

/// Portable paths are read alike on every system.
pub proof fn portable_paths_read_alike(path: Seq<char>)
    requires
        portable(path),
    ensures
        named_alike(path),
        placed_alike(path),
        final_name(path) matches Some(name) ==> simple_name(name),
{
    assert(path.skip(0) =~= path);
    assert(slashed(path) =~= path);
    lemma_parent(path);
    lemma_name_chars(path);
    if let Some(dir) = parent_of(path) {
        assert(path.take(dir.len() as int) =~= dir);
    }
}

/// The outputs beside a path that every system takes apart alike, and whose
/// name is simple, go into its directory, under numbered names.
pub proof fn outputs_stay_beside(path: Seq<char>, out: Seq<char>, index: int)
    requires
        named_alike(out),
        placed_alike(out),
        final_name(out) matches Some(name) ==> simple_name(name),
        index >= 0,
        numbered_beside(path, out, index),
    ensures
        inside(path, home(out), numbered(
            stem_of(final_name(out)),
            extension_of(final_name(out)),
            index,
        )),
{
    reveal_strlit(".");
    lemma_output(out, index);
    lemma_parent(out);
    let parts = choose|parts: OutView| #[trigger]
        takes_apart(parts, out) && stands_at(path, parts, index);
    lemma_dir_not_verbatim(parts, out);
}

/// The path of `name` in `dir` where slashes separate.
pub open spec fn slash_joined(dir: Seq<char>, name: Seq<char>) -> Seq<char> {
    if dir.len() == 0 || dir.last() == '/' {
        dir + name
    } else {
        dir + seq!['/'] + name
    }
}

/// Where slashes separate, whatever goes beside a path under a simple name of
/// more than two characters has the directory of that path as its parent.
pub proof fn slash_keeps_the_parent(out: Seq<char>, name: Seq<char>)
    requires
        simple_name(name),
        name.len() > 2,
    ensures
        parent_of(slash_joined(home(out), name)) == Some(home(out)),
{
    lemma_parent(out);
    lemma_joined_parent(home(out), name);
}

/// Where backslashes separate, whatever goes beside a path under a simple name
/// of more than two characters has the parent of that path as its own, if that
/// is more than a drive and a root.
pub proof fn backslash_keeps_the_parent(out: Seq<char>, name: Seq<char>)
    requires
        simple_name(name),
        name.len() > 2,
        driven_parent(out) is Some,
        driven_parent(out)->0.len() > drive(out),
        !separates(driven_parent(out)->0.last()),
    ensures
        driven_parent(driven_parent(out)->0 + seq!['\\'] + name) == driven_parent(out),
{
    let k = drive(out) as int;
    let body = driven(out);
    let inner = parent_of(body)->0;
    let dir = driven_parent(out)->0;
    let path = dir + seq!['\\'] + name;
    lemma_parent(body);
    assert(inner.is_prefix_of(body));
    assert forall|i: int| 0 <= i < inner.len() implies inner[i] == slashed(out.skip(k))[i] by {
        assert(inner[i] == body.subrange(0, inner.len() as int)[i]);
    }
    assert(dir.len() == k + inner.len());
    assert(drive(path) == drive(out)) by {
        assert(path[0] == out[0]);
        if dir.len() > 1 {
            assert(path[1] == out[1]);
        } else {
            assert(path[1] == '\\');
        }
    }
    assert(driven(path) =~= inner + seq!['/'] + name) by {
        assert forall|i: int| 0 <= i < driven(path).len() implies driven(path)[i] == (inner + seq![
            '/',
        ] + name)[i] by {
            if i < inner.len() {
                assert(path[k + i] == out[k + i]);
            }
        }
    }
    assert(inner.last() != '/');
    lemma_joined_parent(inner, name);
    assert(path.take(dir.len() as int) =~= dir);
}

proof fn lemma_joined_parent(dir: Seq<char>, name: Seq<char>)
    requires
        shorn(dir) == dir,
        simple_name(name),
        name.len() > 2,
    ensures
        parent_of(slash_joined(dir, name)) == Some(dir),
{
    let path = slash_joined(dir, name);
    let start = if dir.len() == 0 || dir.last() == '/' {
        dir
    } else {
        dir + seq!['/']
    };
    lemma_end(start, name);
    assert(shorn(path) == path);
    assert(cut(path) =~= dir) by {
        if dir.len() > 0 && dir.last() == '/' {
            lemma_cut(dir);
            lemma_shorn(cut(dir));
            assert(dir.len() == 1);
        } else if dir.len() > 0 {
            assert(start.drop_last() =~= dir);
        }
    }
}

/// Where the separator that is written is a slash, the outputs beside a
/// portable path have the directory of that path as their parent.
pub proof fn outputs_share_the_parent(path: Seq<char>, out: Seq<char>, index: int)
    requires
        portable(out),
        portable(path),
        index >= 0,
        numbered_beside(path, out, index),
    ensures
        parent_of(path) == Some(home(out)),
{
    portable_paths_read_alike(out);
    outputs_stay_beside(path, out, index);
    lemma_output(out, index);
    lemma_parent(out);
    let dir = home(out);
    let name = numbered(stem_of(final_name(out)), extension_of(final_name(out)), index);
    if path == dir + seq!['\\'] + name {
        assert(path[dir.len() as int] == '\\');
    }
    slash_keeps_the_parent(out, name);
}

/// Whether the path of an output is said to end with its name.
pub open spec fn ends_with_output(parts: OutView, index: int) -> bool {
    !verbatim(parts.dir) || (simple_name(parts.output(index)) && parts.output(index).len() > 2)
}

/// The path of an output tells its number: outputs at different places go to
/// different paths, whatever they stand beside.
pub proof fn numbered_outs_differ(
    a: OutView,
    p: Seq<char>,
    i: nat,
    b: OutView,
    q: Seq<char>,
    j: nat,
)
    requires
        i != j,
        ends_with_output(a, i as int),
        ends_with_output(b, j as int),
        stands_at(p, a, i as int),
        stands_at(q, b, j as int),
    ensures
        p != q,
{
    if p == q {
        if text::decimal(i + 1).len() <= text::decimal(j + 1).len() {
            lemma_one_number(p, a.name, i, b.name, j);
        } else {
            lemma_one_number(p, b.name, j, a.name, i);
        }
    }
}

/// Outputs at different places beside a path go to different paths, and none
/// goes to the path itself.
pub proof fn numbered_outs_are_new(
    out: Seq<char>,
    p: Seq<char>,
    i: nat,
    q: Seq<char>,
    j: nat,
)
    requires
        !verbatim(out),
        numbered_beside(p, out, i as int),
        numbered_beside(q, out, j as int),
    ensures
        i != j ==> p != q,
        !doubled(out) ==> p != out,
{
    let a = choose|parts: OutView| #[trigger]
        takes_apart(parts, out) && stands_at(p, parts, i as int);
    let b = choose|parts: OutView| #[trigger]
        takes_apart(parts, out) && stands_at(q, parts, j as int);
    lemma_dir_not_verbatim(a, out);
    lemma_dir_not_verbatim(b, out);
    if i != j {
        numbered_outs_differ(a, p, i, b, q, j);
    }
    if !doubled(out) && p == out {
        if a.name == final_name(out) {
            lemma_output(out, i as int);
            lemma_no_end(out, a.output(i as int));
        } else {
            lemma_no_driven_end(out, i as int);
        }
    }
}

/// No path ends with a text that is longer than its last part and holds no
/// slash.
proof fn lemma_no_end(path: Seq<char>, end: Seq<char>)
    requires
        end.len() > tail(path, '/').len(),
        forall|i: int| 0 <= i < end.len() ==> end[i] != '/',
    ensures
        !end.is_suffix_of(path),
{
    head_and_tail(path, '/');
    lemma_head_ends(path, '/');
    let at = head(path, '/').len() - 1;
    if at >= 0 && end.is_suffix_of(path) {
        assert(path[at] == '/');
        let k = at - (path.len() - end.len());
        assert(path.subrange(path.len() - end.len(), path.len() as int)[k] == end[k]);
    }
}

/// No path ends with the name of an output beside it, where backslashes
/// separate too.
proof fn lemma_no_driven_end(out: Seq<char>, index: int)
    requires
        index >= 0,
    ensures
        !numbered(stem_of(driven_name(out)), extension_of(driven_name(out)), index).is_suffix_of(
            out,
        ),
{
    let body = driven(out);
    let name = driven_name(out);
    let end = numbered(stem_of(name), extension_of(name), index);
    assert(forall|i: int| 0 <= i < body.len() ==> body[i] != '\\');
    lemma_output(body, index);
    head_and_tail(body, '/');
    if head(body, '/').len() > 0 {
        lemma_no_parted_end(out, end);
    } else if end.is_suffix_of(out) {
        assert(body =~= tail(body, '/'));
        if name is None {
            assert(out.len() <= 4);
        } else {
            lemma_whole_name(body);
            lemma_drive_only(out, end);
            lemma_no_drive_end(out[0], body, index);
        }
    }
}

/// A path without slashes has its whole text for a name, if it has a name.
proof fn lemma_whole_name(path: Seq<char>)
    requires
        head(path, '/').len() == 0,
        final_name(path) is Some,
    ensures
        final_name(path) == Some(path),
{
    head_and_tail(path, '/');
    assert(path =~= tail(path, '/'));
}

/// No path ends with a text that is longer than its last part and holds no
/// separator.
proof fn lemma_no_parted_end(out: Seq<char>, end: Seq<char>)
    requires
        head(driven(out), '/').len() > 0,
        end.len() > tail(driven(out), '/').len(),
        forall|i: int| 0 <= i < end.len() ==> end[i] != '/',
        forall|i: int| 0 <= i < end.len() ==> end[i] != '\\',
    ensures
        !end.is_suffix_of(out),
{
    let body = driven(out);
    head_and_tail(body, '/');
    lemma_head_ends(body, '/');
    let at = head(body, '/').len() - 1;
    let place = drive(out) + at;
    assert(body[at] == '/');
    assert(separates(out[place]));
    if end.is_suffix_of(out) {
        let k = place - (out.len() - end.len());
        assert(out.subrange(out.len() - end.len(), out.len() as int)[k] == end[k]);
    }
}

/// A path of one part that ends with a text longer than that part by two is
/// that text, and has a drive.
proof fn lemma_drive_only(out: Seq<char>, end: Seq<char>)
    requires
        head(driven(out), '/').len() == 0,
        end.len() >= driven(out).len() + 2,
        end.is_suffix_of(out),
    ensures
        end == out,
        out == seq![out[0], ':'] + driven(out),
{
    let body = driven(out);
    head_and_tail(body, '/');
    assert(body =~= tail(body, '/'));
    assert(end =~= out);
    let rest = out.skip(2);
    assert forall|i: int| 0 <= i < rest.len() implies body[i] == rest[i] by {
        assert(body[i] != '/');
    }
    assert(out =~= seq![out[0], ':'] + body);
}

/// The name of an output is not the name that it is made from with a drive
/// before it.
proof fn lemma_no_drive_end(letter: char, name: Seq<char>, index: int)
    requires
        index >= 0,
    ensures
        numbered(Some(name_stem(name)), name_extension(name), index) != seq![letter, ':'] + name,
{
    let whole = seq![letter, ':'] + name;
    let number = text::decimal((index + 1) as nat);
    let stem = name_stem(name);
    let output = numbered(Some(stem), name_extension(name), index);
    head_and_tail(name, '.');
    reveal_strlit(".");
    reveal_strlit("-");
    reveal_strlit(".png");
    text::lemma_decimal_digits((index + 1) as nat);
    if output == whole {
        if head(name, '.').len() <= 1 {
            assert(output == name + "-"@ + number + ".png"@);
            assert(output.len() == name.len() + 1 + number.len() + 4);
        }
        let rest = "."@ + tail(name, '.');
        assert(output == stem + "-"@ + number + rest);
        assert(output.len() == stem.len() + 1 + number.len() + rest.len());
        assert(number.len() == 1);
        let left = stem + seq!['-', number[0]];
        let right = seq![letter, ':'] + stem;
        assert forall|i: int| 0 <= i < left.len() implies left[i] == right[i] by {
            assert(output[i] == left[i]);
            assert(whole[i] == right[i]);
        }
        assert(left =~= right);
        assert(text::is_digit(number[0]));
        lemma_no_drive_shift(stem, letter, number[0]);
    }
}

/// A text with a number behind it is not the text with a drive before it.
proof fn lemma_no_drive_shift(s: Seq<char>, letter: char, d: char)
    requires
        text::is_digit(d),
    ensures
        s + seq!['-', d] != seq![letter, ':'] + s,
    decreases s.len(),
{
    let left = s + seq!['-', d];
    let right = seq![letter, ':'] + s;
    if s.len() == 0 {
        assert(left[1] == d && right[1] == ':');
    } else if s.len() == 1 {
        assert(left[1] == '-' && right[1] == ':');
    } else if left == right {
        let inner = s.skip(2);
        assert(s[0] == left[0] && s[1] == left[1]);
        assert(right[0] == letter && right[1] == ':');
        assert(s =~= seq![letter, ':'] + inner);
        assert(left.skip(2) =~= inner + seq!['-', d]);
        assert(right.skip(2) =~= s);
        lemma_no_drive_shift(inner, letter, d);
    }
}

pub(crate) proof fn lemma_dir_not_verbatim(parts: OutView, out: Seq<char>)
    requires
        !verbatim(out),
        takes_apart(parts, out),
    ensures
        !verbatim(parts.dir),
{
    reveal_strlit(".");
    if parts.dir.is_prefix_of(out) {
        assert(forall|i: int| 0 <= i < parts.dir.len() ==> parts.dir[i] == out[i]);
    }
}

/// No path ends with two different numbers.
proof fn lemma_one_number(
    path: Seq<char>,
    first: Option<Seq<char>>,
    i: nat,
    second: Option<Seq<char>>,
    j: nat,
)
    requires
        text::decimal(i + 1).len() <= text::decimal(j + 1).len(),
        numbered(stem_of(first), extension_of(first), i as int).is_suffix_of(path),
        numbered(stem_of(second), extension_of(second), j as int).is_suffix_of(path),
    ensures
        i == j,
{
    lemma_number_ends(path, first, i);
    lemma_number_ends(path, second, j);
    text::lemma_decimal_digits(j + 1);
    let short = text::decimal(i + 1);
    let long = text::decimal(j + 1);
    let a = ending(first);
    let b = ending(second);
    let n = path.len();
    if a.len() < b.len() {
        assert(path[n - a.len() - 1] == '.');
        assert(b[b.len() - a.len() - 1] != '.');
    } else if b.len() < a.len() {
        assert(path[n - b.len() - 1] == '.');
        assert(a[a.len() - b.len() - 1] != '.');
    }
    let end = n - a.len() - 1;
    if short.len() < long.len() {
        assert(path[end - short.len() - 1] == '-');
        let at = long.len() - short.len() - 1;
        assert(text::is_digit(long[at]));
        assert(long[at] == path[end - long.len() + at]);
    } else {
        assert(short =~= long) by {
            assert forall|k: int| 0 <= k < short.len() implies short[k] == long[k] by {
                assert(short[k] == path[end - short.len() + k]);
                assert(long[k] == path[end - long.len() + k]);
            }
        }
        text::decimal_injective(i + 1, j + 1);
    }
}

/// What the name of an output has after its last dot.
spec fn ending(name: Option<Seq<char>>) -> Seq<char> {
    match extension_of(name) {
        Some(ext) => ext,
        None => seq!['p', 'n', 'g'],
    }
}

/// A path that ends with the name of an output ends with a dash, the number, a
/// dot, and no further dot.
proof fn lemma_number_ends(path: Seq<char>, name: Option<Seq<char>>, i: nat)
    requires
        numbered(stem_of(name), extension_of(name), i as int).is_suffix_of(path),
    ensures
        ({
            let number = text::decimal(i + 1);
            let end = path.len() - ending(name).len() - 1;
            &&& end - number.len() - 1 >= 0
            &&& path[end] == '.'
            &&& path[end - number.len() - 1] == '-'
            &&& forall|k: int|
                0 <= k < number.len() ==> #[trigger] number[k] == path[end - number.len() + k]
            &&& forall|k: int|
                0 <= k < ending(name).len() ==> (#[trigger] ending(name)[k]) != '.'
                    && ending(name)[k] == path[end + 1 + k]
        }),
{
    reveal_strlit("-");
    reveal_strlit(".");
    reveal_strlit(".png");
    let base = (match stem_of(name) {
        Some(s) => s,
        None => "image"@,
    }) + "-"@;
    let suffix = match extension_of(name) {
        Some(e) => "."@ + e,
        None => ".png"@,
    };
    if let Some(n) = name {
        head_and_tail(n, '.');
    }
    let number = text::decimal(i + 1);
    let whole = base + number + suffix;
    let tip = ending(name);
    assert(whole == numbered(stem_of(name), extension_of(name), i as int));
    assert(suffix =~= seq!['.'] + tip);
    let from = path.len() - whole.len();
    assert forall|k: int| 0 <= k < whole.len() implies whole[k] == path[from + k] by {
        assert(path.subrange(from, path.len() as int)[k] == whole[k]);
    }
    assert(whole[base.len() - 1] == '-');
    assert(whole[(base.len() + number.len()) as int] == '.');
    assert forall|k: int| 0 <= k < number.len() implies #[trigger] number[k] == path[path.len()
        - tip.len() - 1 - number.len() + k] by {
        assert(whole[base.len() + k] == number[k]);
    }
    assert forall|k: int| 0 <= k < tip.len() implies (#[trigger] tip[k]) != '.' && tip[k]
        == path[path.len() - tip.len() + k] by {
        assert(whole[base.len() + number.len() + 1 + k] == tip[k]);
    }
}

/// Head and tail make up the whole, and no mark is in the tail.
pub proof fn head_and_tail(s: Seq<char>, mark: char)
    ensures
        head(s, mark) + tail(s, mark) == s,
        head(s, mark).len() + tail(s, mark).len() == s.len(),
        forall|i: int| 0 <= i < tail(s, mark).len() ==> #[trigger] tail(s, mark)[i] != mark,
        forall|i: int| 0 <= i < head(s, mark).len() ==> #[trigger] head(s, mark)[i] == s[i],
        forall|i: int|
            0 <= i < tail(s, mark).len() ==> #[trigger] tail(s, mark)[i] == s[i + head(
                s,
                mark,
            ).len()],
    decreases s.len(),
{
    if s.len() > 0 && s.last() != mark {
        let init = s.drop_last();
        head_and_tail(init, mark);
        assert(s =~= init.push(s.last()));
        assert(head(s, mark) + tail(s, mark) =~= (head(init, mark) + tail(init, mark)).push(
            s.last(),
        ));
    } else {
        assert(head(s, mark) + tail(s, mark) =~= s);
    }
    assert forall|i: int| 0 <= i < head(s, mark).len() implies #[trigger] head(s, mark)[i]
        == s[i] by {
        assert((head(s, mark) + tail(s, mark))[i] == head(s, mark)[i]);
    }
    assert forall|i: int| 0 <= i < tail(s, mark).len() implies #[trigger] tail(s, mark)[i] == s[i
        + head(s, mark).len()] by {
        assert((head(s, mark) + tail(s, mark))[i + head(s, mark).len()] == tail(s, mark)[i]);
    }
}

/// What stands up to and with the last mark ends with it.
pub(crate) proof fn lemma_head_ends(s: Seq<char>, mark: char)
    ensures
        head(s, mark).len() > 0 ==> head(s, mark).last() == mark,
    decreases s.len(),
{
    if s.len() > 0 && s.last() != mark {
        lemma_head_ends(s.drop_last(), mark);
    }
}

/// A name after a last slash is where a path is cut.
pub(crate) proof fn lemma_end(start: Seq<char>, name: Seq<char>)
    requires
        start.len() == 0 || start.last() == '/',
        forall|i: int| 0 <= i < name.len() ==> name[i] != '/',
    ensures
        head(start + name, '/') == start,
        tail(start + name, '/') == name,
    decreases name.len(),
{
    let whole = start + name;
    if name.len() == 0 {
        assert(whole =~= start);
    } else {
        assert(whole.drop_last() =~= start + name.drop_last());
        assert(whole.last() == name.last());
        lemma_end(start, name.drop_last());
        assert(name.drop_last().push(name.last()) =~= name);
    }
}

/// Cutting a path shortens it and leaves its start.
pub proof fn lemma_cut(path: Seq<char>)
    ensures
        cut(path).is_prefix_of(path),
        path.len() > lead(path) ==> cut(path).len() < path.len(),
{
    head_and_tail(path, '/');
    lemma_head_ends(path, '/');
    assert(cut(path) =~= path.subrange(0, cut(path).len() as int));
}

/// Shearing leaves the start of a path and has nothing left to do.
proof fn lemma_shorn(path: Seq<char>)
    ensures
        shorn(path).is_prefix_of(path),
        shorn(shorn(path)) == shorn(path),
    decreases path.len(),
{
    lemma_cut(path);
    if path.len() > lead(path) && idle(tail(path, '/')) {
        lemma_shorn(cut(path));
        lemma_prefix(shorn(cut(path)), cut(path), path);
    } else {
        assert(path =~= path.subrange(0, path.len() as int));
    }
}

proof fn lemma_prefix(a: Seq<char>, b: Seq<char>, c: Seq<char>)
    requires
        a.is_prefix_of(b),
        b.is_prefix_of(c),
    ensures
        a.is_prefix_of(c),
{
    assert forall|i: int| 0 <= i < a.len() implies a[i] == c[i] by {
        assert(a[i] == b.subrange(0, a.len() as int)[i]);
        assert(b[i] == c.subrange(0, b.len() as int)[i]);
    }
    assert(a =~= c.subrange(0, a.len() as int));
}

/// The directory of a path is sheared; the parent begins the path, and that of
/// a portable path is portable.
proof fn lemma_parent(out: Seq<char>)
    ensures
        shorn(home(out)) == home(out),
        parent_of(out) matches Some(dir) ==> dir.is_prefix_of(out),
        portable(out) ==> portable(home(out)),
{
    reveal_strlit(".");
    let whole = shorn(out);
    lemma_shorn(out);
    lemma_cut(whole);
    lemma_shorn(cut(whole));
    if parent_of(out) is None {
        assert(home(out) =~= seq!['.']);
        assert(lead(home(out)) == 1);
    } else if whole.len() > lead(whole) {
        lemma_prefix(shorn(cut(whole)), cut(whole), whole);
        lemma_prefix(shorn(cut(whole)), whole, out);
        let dir = home(out);
        assert forall|i: int| 0 <= i < dir.len() implies dir[i] == out[i] by {
            assert(dir[i] == out.subrange(0, dir.len() as int)[i]);
        }
    }
}

/// The last name of a path is made of characters of the path, without slashes.
proof fn lemma_name_chars(path: Seq<char>)
    ensures
        final_name(path) matches Some(name) ==> name.len() > 0 && forall|i: int|
            0 <= i < name.len() ==> (#[trigger] name[i]) != '/' && path.contains(name[i]),
    decreases path.len(),
{
    head_and_tail(path, '/');
    let part = tail(path, '/');
    let rest = head(path, '/');
    if idle(part) {
        if rest.len() > 0 {
            let dir = rest.drop_last();
            lemma_name_chars(dir);
            if let Some(name) = final_name(dir) {
                assert forall|i: int| 0 <= i < name.len() implies (#[trigger] name[i]) != '/'
                    && path.contains(name[i]) by {
                    let k = choose|k: int| 0 <= k < dir.len() && dir[k] == name[i];
                    assert(path[k] == name[i]);
                }
            }
        }
    } else {
        assert forall|i: int| 0 <= i < part.len() implies (#[trigger] part[i]) != '/'
            && path.contains(part[i]) by {
            assert(path[i + rest.len()] == part[i]);
        }
    }
}

/// The name of an output is longer than the last part of its path, holds no
/// slash, no backslash where the path holds none, and is simple where the name
/// of the path is.
proof fn lemma_output(path: Seq<char>, index: int)
    requires
        index >= 0,
    ensures
        ({
            let name = final_name(path);
            let part = tail(path, '/');
            let output = numbered(stem_of(name), extension_of(name), index);
            &&& output.len() >= 3
            &&& output.len() > part.len()
            &&& name == Some(part) ==> output.len() >= part.len() + 2
            &&& name != Some(part) ==> part.len() <= 2
            &&& name is None ==> output.len() > 4
            &&& forall|i: int| 0 <= i < output.len() ==> output[i] != '/'
            &&& (forall|i: int| 0 <= i < path.len() ==> path[i] != '\\') ==> forall|i: int|
                0 <= i < output.len() ==> output[i] != '\\'
            &&& (name matches Some(n) ==> simple_name(n)) ==> simple_name(output)
        }),
{
    head_and_tail(path, '/');
    lemma_name_chars(path);
    reveal_strlit("image");
    reveal_strlit("-");
    reveal_strlit(".");
    reveal_strlit(".png");
    text::lemma_decimal_digits((index + 1) as nat);
    let name = final_name(path);
    let number = text::decimal((index + 1) as nat);
    let stem = match stem_of(name) {
        Some(s) => s,
        None => "image"@,
    };
    let suffix = match extension_of(name) {
        Some(e) => "."@ + e,
        None => ".png"@,
    };
    if let Some(n) = name {
        head_and_tail(n, '.');
    }
    let output = stem + "-"@ + number + suffix;
    assert(output == numbered(stem_of(name), extension_of(name), index));
    assert forall|c: char| #![trigger lacks(output, c)]
        (c == '/' || c == '\\' || c == ':') && (name matches Some(n) ==> lacks(n, c)) implies lacks(
        output,
        c,
    ) by {
        if let Some(n) = name {
            assert(lacks(head(n, '.'), c));
            assert(lacks(tail(n, '.'), c));
        }
        assert(lacks(stem, c));
        assert(lacks("-"@, c));
        assert(lacks(number, c)) by {
            assert forall|i: int| 0 <= i < number.len() implies number[i] != c by {
                assert(text::is_digit(number[i]));
            }
        }
        assert(lacks(suffix, c));
        assert(lacks(stem + "-"@, c));
        assert(lacks(stem + "-"@ + number, c));
        assert(lacks(stem + "-"@ + number + suffix, c));
    }
    if let Some(n) = name {
        assert(lacks(n, '/'));
        if forall|i: int| 0 <= i < path.len() ==> path[i] != '\\' {
            assert(lacks(n, '\\'));
        }
        if simple_name(n) {
            assert(lacks(n, '\\') && lacks(n, ':'));
        }
    }
    assert(lacks(output, '/'));
    assert((name matches Some(n) ==> lacks(n, '\\')) ==> lacks(output, '\\'));
    assert((name matches Some(n) ==> lacks(n, ':')) ==> lacks(output, ':'));
}

/// Whether a character does not occur in a text.
spec fn lacks(s: Seq<char>, c: char) -> bool {
    forall|i: int| 0 <= i < s.len() ==> s[i] != c
}

} // verus!
