//! Export of a compilation run's dependency set in one of three formats
//! consumable by external build systems: a structured (JSON) document, a
//! NUL-delimited list of raw paths, or a classic build-tool rule line.
//!
//! The pipeline is: relativize each dependency path against the caller's
//! root and working directory, then serialize the resulting sequence with
//! the writer the requested format selects.

use vstd::prelude::*;

pub mod delimited;
pub mod escape;
pub mod path;
pub mod relativize;
pub mod rule;
pub mod structured;

verus! {

/// The dependency-tracking formats an export can be requested in.
#[derive(Debug)]
pub enum DepsFormat {
    Json,
    Zero,
    Make,
}

/// The fatal failures of an export. Writing to the destination is the
/// caller's business, so stream failures do not appear here; each variant
/// that concerns a path carries the offending path.
#[derive(Debug)]
pub enum DepsError {
    /// A dependency path was not valid text where the format requires text.
    NonUtf8Input(path::NativePath),
    /// An output path was not valid text where the format requires text.
    NonUtf8Output(path::NativePath),
    /// The output list named the standard output stream where the format
    /// requires a literal output path.
    StdoutOutput,
}

/// The relativized byte strings of a dependency sequence, anchored at the
/// given root and working directory.
pub open spec fn relativized_paths(
    deps: Seq<path::NativePath>,
    root: Seq<u8>,
    cwd: Seq<u8>,
) -> Seq<Seq<u8>> {
    delimited::paths_of(deps).map_values(
        |d: Seq<u8>| relativize::relativized(d, root, relativize::rel_root_spec(root, cwd)),
    )
}

/// Exports the dependency set in the requested format: the dependency
/// sequence is consumed once, each path relativized against `root` as seen
/// from `cwd`, and the selected writer's bytes are returned for the caller
/// to hand to its destination stream. A rule-format request without an
/// output list is a no-op, not an error.
pub fn write_deps(
    deps: Vec<path::NativePath>,
    root: &path::NativePath,
    cwd: &path::NativePath,
    fmt: DepsFormat,
    outputs: Option<&Vec<path::OutputTarget>>,
) -> (r: Result<Vec<u8>, DepsError>)
    ensures
        fmt is Zero ==> (r matches Ok(b) && b@ == delimited::zero_bytes(
            relativized_paths(deps@, root@, cwd@),
        )),
        fmt is Json ==> (r is Ok <==> structured::all_inputs_text(
            relativized_paths(deps@, root@, cwd@),
        ) && structured::opt_all_outputs_text(path::opt_targets(outputs))),
        fmt is Json ==> (r matches Ok(b) ==> b@ == vstd::utf8::encode_utf8(
            structured::structured_doc(
                relativized_paths(deps@, root@, cwd@),
                path::opt_targets(outputs),
            ),
        )),
        fmt is Json ==> (r matches Err(e) ==> e is NonUtf8Input || e is NonUtf8Output),
        forall|i: int|
            (fmt is Json && 0 <= i < relativized_paths(deps@, root@, cwd@).len()
                && !vstd::utf8::valid_utf8(relativized_paths(deps@, root@, cwd@)[i]) && (forall|
                j: int,
            |
                0 <= j < i ==> vstd::utf8::valid_utf8(relativized_paths(deps@, root@, cwd@)[j])))
                ==> (r matches Err(e) && e matches DepsError::NonUtf8Input(p) && p@
                == relativized_paths(deps@, root@, cwd@)[i]),
        forall|i: int|
            (fmt is Json && structured::all_inputs_text(relativized_paths(deps@, root@, cwd@))
                && outputs is Some && 0 <= i < path::targets_of(outputs->Some_0@).len()
                && path::targets_of(outputs->Some_0@)[i] is Some && !vstd::utf8::valid_utf8(
                path::targets_of(outputs->Some_0@)[i]->Some_0,
            ) && (forall|j: int|
                0 <= j < i ==> (path::targets_of(outputs->Some_0@)[j] is Some
                    ==> vstd::utf8::valid_utf8(path::targets_of(outputs->Some_0@)[j]->Some_0))))
                ==> (r matches Err(e) && e matches DepsError::NonUtf8Output(p) && p@
                == path::targets_of(outputs->Some_0@)[i]->Some_0),
        fmt is Make && outputs is None ==> (r matches Ok(b) && b@ == Seq::<u8>::empty()),
        fmt is Make && outputs is Some ==> (r is Ok <==> rule::no_stdout_target(
            path::targets_of(outputs->Some_0@),
        )),
        fmt is Make && outputs is Some ==> (r matches Ok(b) ==> b@ == vstd::utf8::encode_utf8(
            if rule::text_target_before(
                path::targets_of(outputs->Some_0@),
                outputs->Some_0@.len() as int,
            ) {
                rule::rule_line(
                    relativized_paths(deps@, root@, cwd@),
                    path::targets_of(outputs->Some_0@),
                )
            } else {
                Seq::empty()
            },
        )),
        fmt is Make ==> (r matches Err(e) ==> e is StdoutOutput),
{
    let rel = relativize::relative_dependencies(deps, root, cwd);
    proof {
        assert(delimited::paths_of(rel@) =~= relativized_paths(deps@, root@, cwd@));
    }
    match fmt {
        DepsFormat::Zero => Ok(delimited::write_deps_zero(rel)),
        DepsFormat::Json => match structured::write_deps_json(&rel, outputs) {
            Ok(doc) => Ok(doc.as_str().as_bytes_vec()),
            Err(e) => Err(e),
        },
        DepsFormat::Make => match outputs {
            None => Ok(Vec::new()),
            Some(outs) => match rule::write_deps_make(&rel, outs) {
                Ok(line) => Ok(line.as_str().as_bytes_vec()),
                Err(e) => Err(e),
            },
        },
    }
}

} // verus!
