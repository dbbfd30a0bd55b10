//! The on-disk layout of a YCB download, written as `/`-separated path text.
//!
//! Paths are held as strings: joining follows `PathBuf::push` on `/`
//! separators (an absolute part replaces the base, and a separator is added
//! only where the base does not already end in one).

use vstd::prelude::*;
use vstd::string::*;
use crate::catalog::{GOOGLE_16K_MESH_RELATIVE, GOOGLE_16K_TEXTURE_RELATIVE};
use crate::text::same_text;

verus! {

/// `base` joined with `part`.
pub open spec fn join(base: Seq<char>, part: Seq<char>) -> Seq<char> {
    if part.len() > 0 && part[0] == '/' {
        part
    } else if base.len() == 0 || base.last() == '/' {
        base + part
    } else {
        base + seq!['/'] + part
    }
}

/// Joins `part` onto `base`.
pub fn join_path(base: &str, part: &str) -> (r: String)
    ensures
        r@ == join(base@, part@),
{
    let mut out = String::from_str(base);
    if part.unicode_len() > 0 && part.get_char(0) == '/' {
        return String::from_str(part);
    }
    let n = base.unicode_len();
    if n > 0 && base.get_char(n - 1) != '/' {
        proof {
            reveal_strlit("/");
        }
        out.append("/");
    }
    out.append(part);
    out
}

/// The mesh file of `object` under `ycb_dir`.
pub open spec fn mesh_path(ycb_dir: Seq<char>, object: Seq<char>) -> Seq<char> {
    join(join(ycb_dir, object), GOOGLE_16K_MESH_RELATIVE@)
}

/// The texture file of `object` under `ycb_dir`.
pub open spec fn texture_path(ycb_dir: Seq<char>, object: Seq<char>) -> Seq<char> {
    join(join(ycb_dir, object), GOOGLE_16K_TEXTURE_RELATIVE@)
}

/// Returns the expected path to an object's mesh file:
/// `ycb_dir/object/google_16k/textured.obj`.
pub fn object_mesh_path(ycb_dir: &str, object: &str) -> (r: String)
    ensures
        r@ == mesh_path(ycb_dir@, object@),
{
    let object_dir = join_path(ycb_dir, object);
    join_path(object_dir.as_str(), GOOGLE_16K_MESH_RELATIVE)
}

/// Returns the expected path to an object's texture file:
/// `ycb_dir/object/google_16k/texture_map.png`.
pub fn object_texture_path(ycb_dir: &str, object: &str) -> (r: String)
    ensures
        r@ == texture_path(ycb_dir@, object@),
{
    let object_dir = join_path(ycb_dir, object);
    join_path(object_dir.as_str(), GOOGLE_16K_TEXTURE_RELATIVE)
}

/// Whether position `i` of `s` starts a `..` path component.
pub open spec fn parent_segment_at(s: Seq<char>, i: int) -> bool {
    &&& 0 <= i
    &&& i + 2 <= s.len()
    &&& s[i] == '.'
    &&& s[i + 1] == '.'
    &&& (i == 0 || s[i - 1] == '/')
    &&& (i + 2 == s.len() || s[i + 2] == '/')
}

/// Whether the path has a `..` (parent directory) component, components
/// being separated by `/`.
pub open spec fn has_parent_segment(s: Seq<char>) -> bool {
    exists|i: int| parent_segment_at(s, i)
}

/// Whether the path has a `..` (parent directory) component.
pub fn has_parent_dir(path: &str) -> (r: bool)
    ensures
        r == has_parent_segment(path@),
{
    let n = path.unicode_len();
    let mut i: usize = 0;
    while i < n && n - i >= 2
        invariant
            n == path@.len(),
            i <= n,
            forall|j: int| 0 <= j < i ==> !parent_segment_at(path@, j),
        decreases n - i,
    {
        if path.get_char(i) == '.' && path.get_char(i + 1) == '.'
            && (i == 0 || path.get_char(i - 1) == '/')
            && (i + 2 == n || path.get_char(i + 2) == '/')
        {
            assert(parent_segment_at(path@, i as int));
            return true;
        }
        i = i + 1;
    }
    assert forall|j: int| !parent_segment_at(path@, j) by {
        if 0 <= j < i {
        }
    }
    false
}

/// Whether the path `dest` lies within the directory `dir`, both already
/// canonical (absolute, without `.`/`..` components or trailing separator,
/// apart from the root `/` itself).
pub open spec fn within_dir(dest: Seq<char>, dir: Seq<char>) -> bool {
    ||| dest == dir
    ||| (dir.len() > 0 && dir.last() == '/' && dir.len() <= dest.len() && dest.subrange(0, dir.len() as int) == dir)
    ||| (dir.len() < dest.len() && dest.subrange(0, dir.len() as int) == dir && dest[dir.len() as int] == '/')
}

/// Whether the canonical path `dest` lies within the canonical directory `dir`.
pub fn is_within_dir(dest: &str, dir: &str) -> (r: bool)
    ensures
        r == within_dir(dest@, dir@),
{
    let n = dest.unicode_len();
    let m = dir.unicode_len();
    if same_text(dest, dir) {
        return true;
    }
    if m > n {
        return false;
    }
    let head = dest.substring_char(0, m);
    if !same_text(head, dir) {
        return false;
    }
    if m > 0 && dir.get_char(m - 1) == '/' {
        return true;
    }
    m < n && dest.get_char(m) == '/'
}

/// An archive entry refused by extraction, with the reason.
#[derive(Clone, Debug)]
pub enum UnsafeEntry {
    /// The entry path has a `..` component.
    ParentDir { entry: String },
    /// The entry's destination resolves outside the output directory.
    Escapes { dest: String },
}

impl UnsafeEntry {
    /// The message describing the refusal.
    pub fn message(&self) -> (r: String)
        ensures
            r@ == match self {
                UnsafeEntry::ParentDir { entry } => "archive entry contains '..': "@ + entry@,
                UnsafeEntry::Escapes { dest } => "archive entry escapes output dir: "@ + dest@,
            },
    {
        match self {
            UnsafeEntry::ParentDir { entry } => {
                let mut m = String::from_str("archive entry contains '..': ");
                m.append(entry.as_str());
                m
            },
            UnsafeEntry::Escapes { dest } => {
                let mut m = String::from_str("archive entry escapes output dir: ");
                m.append(dest.as_str());
                m
            },
        }
    }
}

/// Whether a path is absolute: it starts with `/`.
pub open spec fn is_absolute_entry(s: Seq<char>) -> bool {
    s.len() > 0 && s[0] == '/'
}

/// Screens the path of an archive entry before extraction: an entry with a
/// `..` component is refused.
pub fn screen_archive_entry(entry_path: &str) -> (r: Result<(), UnsafeEntry>)
    ensures
        r is Err <==> has_parent_segment(entry_path@),
        r matches Err(e) ==> (e matches UnsafeEntry::ParentDir { entry } && entry@ == entry_path@),
{
    if has_parent_dir(entry_path) {
        Err(UnsafeEntry::ParentDir { entry: String::from_str(entry_path) })
    } else {
        Ok(())
    }
}

/// Whether `dest` lies inside `dir` as text: it is `dir` followed by a
/// relative path without `..` components, at a component boundary.
pub open spec fn lexically_inside(dest: Seq<char>, dir: Seq<char>) -> bool {
    let rest = dest.skip(dir.len() as int);
    &&& dir.len() <= dest.len()
    &&& dest.take(dir.len() as int) == dir
    &&& !has_parent_segment(rest)
    &&& if dir.len() == 0 || dir.last() == '/' {
        !is_absolute_entry(rest)
    } else {
        rest.len() == 0 || rest[0] == '/'
    }
}

/// Whether the place an entry is written resolves inside the output
/// directory: `ancestor` is the canonical form of the destination's nearest
/// existing ancestor (the destination itself when it exists), `remainder` the
/// components below that ancestor that do not exist yet, and
/// `canonical_output` the canonical output directory. The ancestor must lie
/// within the output directory, and the remainder must be relative and free
/// of `..` components, so that nothing below the ancestor can lead out again.
pub open spec fn resolves_inside(ancestor: Seq<char>, remainder: Seq<char>, canonical_output: Seq<char>) -> bool {
    &&& within_dir(ancestor, canonical_output)
    &&& !has_parent_segment(remainder)
    &&& !is_absolute_entry(remainder)
}

/// Screens where an archive entry would be written (`dest`, the entry joined
/// onto the output directory), from the canonical form `ancestor` of its
/// nearest existing ancestor (itself when it exists) and the `remainder` of
/// the path below that ancestor. The destination is refused unless it
/// resolves inside the canonical output directory, which catches absolute
/// entries and symbolic links pointing out of the output directory alike.
pub fn screen_destination(
    dest: &str,
    ancestor: &str,
    remainder: &str,
    canonical_output: &str,
) -> (r: Result<(), UnsafeEntry>)
    ensures
        r is Err <==> !resolves_inside(ancestor@, remainder@, canonical_output@),
        r matches Err(e) ==> (e matches UnsafeEntry::Escapes { dest: d } && d@ == dest@),
{
    let absolute = remainder.unicode_len() > 0 && remainder.get_char(0) == '/';
    if is_within_dir(ancestor, canonical_output) && !has_parent_dir(remainder) && !absolute {
        Ok(())
    } else {
        Err(UnsafeEntry::Escapes { dest: String::from_str(dest) })
    }
}

proof fn lemma_no_parent_after_slash(entry: Seq<char>)
    requires
        !has_parent_segment(entry),
    ensures
        !has_parent_segment(seq!['/'] + entry),
{
    let r = seq!['/'] + entry;
    assert forall|i: int| !parent_segment_at(r, i) by {
        if parent_segment_at(r, i) {
            assert(i >= 1);
            assert(r[i] == entry[i - 1]);
            assert(r[i + 1] == entry[i]);
            if i >= 2 {
                assert(r[i - 1] == entry[i - 2]);
            }
            if i + 2 < r.len() {
                assert(r[i + 2] == entry[i + 1]);
            }
            assert(parent_segment_at(entry, i - 1));
        }
    }
}

/// A relative path without `..` components, joined onto any directory,
/// gives a path that is, as text, inside that directory. So a destination
/// accepted by [`screen_destination`] is its canonical ancestor, inside the
/// output directory, followed by components that stay inside the ancestor.
pub proof fn lemma_relative_path_stays_inside(dir: Seq<char>, entry: Seq<char>)
    requires
        !has_parent_segment(entry),
        !is_absolute_entry(entry),
    ensures
        lexically_inside(join(dir, entry), dir),
{
    let dest = join(dir, entry);
    if dir.len() == 0 || dir.last() == '/' {
        assert(dest =~= dir + entry);
        assert(dest.take(dir.len() as int) =~= dir);
        assert(dest.skip(dir.len() as int) =~= entry);
    } else {
        assert(dest =~= dir + seq!['/'] + entry);
        assert(dest.take(dir.len() as int) =~= dir);
        assert(dest.skip(dir.len() as int) =~= seq!['/'] + entry);
        lemma_no_parent_after_slash(entry);
    }
}


/// A destination accepted by [`screen_destination`] is written at a place
/// inside the output directory: its canonical ancestor lies within the
/// canonical output directory, and the not-yet-existing remainder joined onto
/// that ancestor stays, as text, inside the ancestor.
pub proof fn lemma_accepted_destination_inside(ancestor: Seq<char>, remainder: Seq<char>, canonical_output: Seq<char>)
    requires
        resolves_inside(ancestor, remainder, canonical_output),
    ensures
        within_dir(ancestor, canonical_output),
        lexically_inside(join(ancestor, remainder), ancestor),
{
    lemma_relative_path_stays_inside(ancestor, remainder);
}


/// Being within a directory is a component-prefix test at any depth: a
/// directory is within itself, anything below it (however many components
/// down) is within it, and whatever is within it starts with it.
pub proof fn lemma_within_dir_any_depth(dir: Seq<char>, rest: Seq<char>, dest: Seq<char>)
    ensures
        within_dir(dir, dir),
        dir.len() > 0 && dir.last() != '/' && rest.len() > 0 ==> within_dir(dir + seq!['/'] + rest, dir),
        dir.len() > 0 && dir.last() == '/' ==> within_dir(dir + rest, dir),
        within_dir(dest, dir) ==> dir.len() <= dest.len() && dest.subrange(0, dir.len() as int) == dir,
{
    if dir.len() > 0 && dir.last() != '/' && rest.len() > 0 {
        let d = dir + seq!['/'] + rest;
        assert(d.subrange(0, dir.len() as int) =~= dir);
        assert(d[dir.len() as int] == '/');
    }
    if dir.len() > 0 && dir.last() == '/' {
        assert((dir + rest).subrange(0, dir.len() as int) =~= dir);
    }
    if dest == dir {
        assert(dest.subrange(0, dir.len() as int) =~= dir);
    }
}

/// Being within a directory is transitive: a path within a directory that is
/// itself within another directory is within that other directory.
pub proof fn lemma_within_dir_transitive(a: Seq<char>, b: Seq<char>, c: Seq<char>)
    requires
        within_dir(a, b),
        within_dir(b, c),
    ensures
        within_dir(a, c),
{
    lemma_within_dir_any_depth(b, seq![], a);
    lemma_within_dir_any_depth(c, seq![], b);
    assert(a.subrange(0, c.len() as int) =~= b.subrange(0, c.len() as int));
    if a != c {
        if c.len() > 0 && c.last() == '/' {
        } else if b == c {
        } else {
            assert(c.len() < b.len());
            assert(b[c.len() as int] == '/');
            assert(a[c.len() as int] == b[c.len() as int]);
            assert(c.len() < a.len());
        }
    }
}

} // verus!
