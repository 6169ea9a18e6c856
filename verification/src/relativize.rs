//! Rewriting absolute dependency paths relative to the working directory.
//!
//! The anchor is the caller's root directory `R` and working directory `C`,
//! both resolved once per call. The relative form of `R` as seen from `C` is
//! computed once; each dependency that lies under `R` has the `R` prefix
//! stripped and the remainder joined onto that relative root. A dependency
//! outside `R` passes through unchanged, and when no relative path from `C`
//! to `R` exists the root itself is used unchanged as the anchor.
//!
//! Paths are byte strings; a prefix match recognizes the root only on a
//! component boundary, that is when the root is followed by a `/` separator
//! (or ends the path, or itself ends in `/`).

use crate::path::clone_bytes;
use crate::path::NativePath;
use vstd::prelude::*;
use vstd::utf8::{decode_utf8, encode_utf8, valid_utf8};

verus! {

/// The byte value of the path separator `/`.
pub open spec fn sep() -> u8 {
    47u8
}

/// What remains of `dep` after stripping the `root` prefix on a component
/// boundary, when `dep` lies under `root`.
pub open spec fn root_remainder(dep: Seq<u8>, root: Seq<u8>) -> Option<Seq<u8>> {
    if dep.len() >= root.len() && dep.take(root.len() as int) == root {
        if dep.len() == root.len() {
            Some(Seq::empty())
        } else if root.len() > 0 && root.last() == sep() {
            Some(dep.skip(root.len() as int))
        } else if dep[root.len() as int] == sep() {
            Some(dep.skip(root.len() as int + 1))
        } else {
            None
        }
    } else {
        None
    }
}

/// Joining a relative remainder onto a base path: an empty side contributes
/// nothing, otherwise the two are separated by one `/`.
pub open spec fn join_path(base: Seq<u8>, rest: Seq<u8>) -> Seq<u8> {
    if base.len() == 0 {
        rest
    } else if rest.len() == 0 {
        base
    } else {
        base + seq![sep()] + rest
    }
}

/// The relativized form of one dependency: the remainder under `root` joined
/// onto `rel_root` when the dependency lies under the root, and the
/// dependency unchanged otherwise.
pub open spec fn relativized(dep: Seq<u8>, root: Seq<u8>, rel_root: Seq<u8>) -> Seq<u8> {
    match root_remainder(dep, root) {
        Some(rest) => join_path(rel_root, rest),
        None => dep,
    }
}

/// The relative path from `base` to `path` that the path-difference
/// computation yields, when one can be expressed. Its value is a fixed
/// function of the two path strings alone.
pub uninterp spec fn diff_of(path: Seq<char>, base: Seq<char>) -> Option<Seq<char>>;

/// The relativization anchor: the relative path from the working directory
/// `cwd` to `root` when both are text and a difference exists, and `root`
/// itself unchanged otherwise.
pub open spec fn rel_root_spec(root: Seq<u8>, cwd: Seq<u8>) -> Seq<u8> {
    if valid_utf8(root) && valid_utf8(cwd) {
        match diff_of(decode_utf8(root), decode_utf8(cwd)) {
            Some(d) => encode_utf8(d),
            None => root,
        }
    } else {
        root
    }
}

/// The text of an optional string.
pub open spec fn opt_text(r: Option<String>) -> Option<Seq<char>> {
    match r {
        Some(s) => Some(s@),
        None => None,
    }
}

/// Relies on pathdiff::diff_paths: it computes the relative path from `base`
/// to `path`, or nothing when none can be expressed; the result depends on
/// the two arguments alone, and on two equal paths it is the empty relative
/// path. The result's characters are drawn from the two text arguments plus
/// `.` and `/`, so turning it back into text cannot fail.
#[verifier::external_body]
fn diff_paths_text(path: &str, base: &str) -> (r: Option<String>)
    ensures
        opt_text(r) == diff_of(path@, base@),
        r is Some || path@ != base@,
        r matches Some(s) ==> (path@ == base@ ==> s@.len() == 0),
{
    match pathdiff::diff_paths(path, base) {
        Some(p) => match p.into_os_string().into_string() {
            Ok(s) => Some(s),
            Err(_) => None,
        },
        None => None,
    }
}

/// Computes the relativization anchor for `root` as seen from `cwd`,
/// falling back to `root` itself when no relative path can be expressed.
/// When the working directory is the root itself, the anchor is empty.
pub fn relative_root(root: &NativePath, cwd: &NativePath) -> (r: Vec<u8>)
    ensures
        r@ == rel_root_spec(root@, cwd@),
        root@ == cwd@ && valid_utf8(root@) ==> r@.len() == 0,
{
    let root_text = root.as_text();
    let cwd_text = cwd.as_text();
    match (root_text, cwd_text) {
        (Some(rs), Some(cs)) => match diff_paths_text(rs, cs) {
            Some(d) => d.as_str().as_bytes_vec(),
            None => clone_bytes(&root.bytes),
        },
        _ => clone_bytes(&root.bytes),
    }
}

/// Relativization under the root: a dependency of the form `R/rest`, with a
/// root `R` that does not itself end in the separator, relativizes to
/// exactly `rest` when the anchor is empty — as it is when the working
/// directory equals the root.
pub proof fn lemma_relativization(root: Seq<u8>, rest: Seq<u8>)
    requires
        root.len() > 0,
        root.last() != sep(),
    ensures
        relativized(root + seq![sep()] + rest, root, Seq::empty()) == rest,
{
    let dep = root + seq![sep()] + rest;
    assert(dep.take(root.len() as int) =~= root);
    assert(dep[root.len() as int] == sep());
    assert(dep.skip(root.len() as int + 1) =~= rest);
}

/// Relativization outside the root: a dependency that does not lie under
/// the root is emitted unchanged, whatever the anchor.
pub proof fn lemma_outside_root_unchanged(dep: Seq<u8>, root: Seq<u8>, rel_root: Seq<u8>)
    requires
        root_remainder(dep, root) is None,
    ensures
        relativized(dep, root, rel_root) == dep,
{
}

/// Relativizes one dependency against the root and the precomputed anchor.
pub fn relativize_one(dep: &NativePath, root: &NativePath, rel_root: &Vec<u8>) -> (r: NativePath)
    ensures
        r@ == relativized(dep@, root@, rel_root@),
{
    let dn: usize = dep.bytes.len();
    let rn: usize = root.bytes.len();
    if dn < rn {
        return NativePath { bytes: clone_bytes(&dep.bytes) };
    }
    // Does the root prefix match byte for byte?
    let mut i: usize = 0;
    while i < rn
        invariant
            i <= rn,
            rn <= dep@.len(),
            rn == root@.len(),
            dep@.take(i as int) == root@.take(i as int),
        decreases rn - i,
    {
        if dep.bytes[i] != root.bytes[i] {
            proof {
                assert(dep@.take(rn as int)[i as int] != root@[i as int]);
            }
            return NativePath { bytes: clone_bytes(&dep.bytes) };
        }
        i = i + 1;
        proof {
            assert(dep@.take(i as int) =~= root@.take(i as int));
        }
    }
    proof {
        assert(dep@.take(rn as int) =~= root@);
    }
    // The prefix matches; find where the remainder starts, or give up when
    // the match does not end on a component boundary.
    let rest_start: usize = if dn == rn {
        rn
    } else if rn > 0 && root.bytes[rn - 1] == 47u8 {
        rn
    } else if dep.bytes[rn] == 47u8 {
        rn + 1
    } else {
        return NativePath { bytes: clone_bytes(&dep.bytes) };
    };
    proof {
        assert(root_remainder(dep@, root@) == Some(dep@.skip(rest_start as int)));
    }
    // Join the remainder onto the relative root.
    let mut out: Vec<u8> = clone_bytes(rel_root);
    if rest_start == dn {
        proof {
            assert(dep@.skip(rest_start as int) =~= Seq::<u8>::empty());
        }
        return NativePath { bytes: out };
    }
    if out.len() > 0 {
        out.push(47u8);
    }
    let ghost head = out@;
    let mut j: usize = rest_start;
    while j < dn
        invariant
            rest_start <= j <= dn,
            dn == dep@.len(),
            out@ == head + dep@.subrange(rest_start as int, j as int),
        decreases dn - j,
    {
        out.push(dep.bytes[j]);
        j = j + 1;
        proof {
            assert(out@ =~= head + dep@.subrange(rest_start as int, j as int));
        }
    }
    proof {
        assert(dep@.subrange(rest_start as int, dn as int) =~= dep@.skip(rest_start as int));
        assert(out@ =~= join_path(rel_root@, dep@.skip(rest_start as int)));
    }
    NativePath { bytes: out }
}

/// Relativizes the whole dependency sequence, in order, consuming it in one
/// pass. The root and working directory are used consistently for every
/// entry of the one call.
pub fn relative_dependencies(deps: Vec<NativePath>, root: &NativePath, cwd: &NativePath) -> (r:
    Vec<NativePath>)
    ensures
        r@.len() == deps@.len(),
        forall|i: int|
            0 <= i < deps@.len() ==> r@[i]@ == relativized(
                deps@[i]@,
                root@,
                rel_root_spec(root@, cwd@),
            ),
{
    let rel_root = relative_root(root, cwd);
    let mut out: Vec<NativePath> = Vec::new();
    let mut i: usize = 0;
    while i < deps.len()
        invariant
            i <= deps@.len(),
            out@.len() == i,
            rel_root@ == rel_root_spec(root@, cwd@),
            forall|k: int|
                0 <= k < i ==> out@[k]@ == relativized(
                    deps@[k]@,
                    root@,
                    rel_root_spec(root@, cwd@),
                ),
        decreases deps@.len() - i,
    {
        let p = relativize_one(&deps[i], root, &rel_root);
        out.push(p);
        i = i + 1;
    }
    out
}

} // verus!
