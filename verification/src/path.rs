//! The byte-level model of native paths and output targets.
//!
//! A dependency path is an absolute filesystem path in the platform's native
//! encoding; it need not be valid text. The library therefore carries paths
//! as raw byte strings and offers an explicit, fallible text view.

use vstd::prelude::*;
use vstd::string::StringSliceAdditionalSpecFns;
use vstd::utf8::{decode_utf8, valid_utf8};

verus! {

/// A filesystem path in its native byte encoding. It may or may not be
/// valid text; formats that need text obtain it through [`NativePath::as_text`].
#[derive(Debug)]
pub struct NativePath {
    pub bytes: Vec<u8>,
}

impl View for NativePath {
    type V = Seq<u8>;

    open spec fn view(&self) -> Seq<u8> {
        self.bytes@
    }
}

impl NativePath {
    /// Wraps a native byte string as a path.
    pub fn new(bytes: Vec<u8>) -> (r: NativePath)
        ensures
            r@ == bytes@,
    {
        NativePath { bytes }
    }

    /// Copies the path.
    pub fn duplicate(&self) -> (r: NativePath)
        ensures
            r@ == self@,
    {
        NativePath { bytes: clone_bytes(&self.bytes) }
    }

    /// The fallible text view: the decoded characters when the path's bytes
    /// are valid UTF-8, and nothing otherwise.
    ///
    /// Relies on core::str::from_utf8: it returns Ok exactly on valid UTF-8
    /// input, and the returned slice is the input viewed as a string.
    #[verifier::external_body]
    pub fn as_text(&self) -> (r: Option<&str>)
        ensures
            r is Some <==> valid_utf8(self@),
            r matches Some(s) ==> s@ == decode_utf8(self@) && s.spec_bytes() == self@,
    {
        core::str::from_utf8(&self.bytes).ok()
    }
}

/// Copies a byte string.
pub fn clone_bytes(v: &Vec<u8>) -> (r: Vec<u8>)
    ensures
        r@ == v@,
{
    let mut r: Vec<u8> = Vec::new();
    let mut i: usize = 0;
    while i < v.len()
        invariant
            i <= v@.len(),
            r@ == v@.take(i as int),
        decreases v@.len() - i,
    {
        r.push(v[i]);
        i = i + 1;
        proof {
            assert(r@ =~= v@.take(i as int));
        }
    }
    proof {
        assert(v@.take(v@.len() as int) =~= v@);
    }
    r
}

/// One entry of the caller-supplied output list: either a literal file path
/// or the standard output stream (which has no addressable path).
#[derive(Debug)]
pub enum OutputTarget {
    Path(NativePath),
    Stdout,
}

/// The byte string of an output target, when it has one.
pub open spec fn target_path(t: OutputTarget) -> Option<Seq<u8>> {
    match t {
        OutputTarget::Path(p) => Some(p@),
        OutputTarget::Stdout => None,
    }
}

/// The targets of an output list: the path bytes of each entry that has a
/// path, and nothing for a standard-output entry.
pub open spec fn targets_of(outs: Seq<OutputTarget>) -> Seq<Option<Seq<u8>>> {
    outs.map_values(|t: OutputTarget| target_path(t))
}

/// The model of the optional output list.
pub open spec fn opt_targets(outs: Option<&Vec<OutputTarget>>) -> Option<Seq<Option<Seq<u8>>>> {
    match outs {
        Some(v) => Some(targets_of(v@)),
        None => None,
    }
}

} // verus!
