//! The rule (build-tool dependency rule) writer.
//!
//! It produces one line of the form `TARGETS: DEPS\n`: the escaped output
//! paths, space-separated; a literal `:`; every escaped dependency path
//! preceded by one space; a final newline. A standard-output entry in the
//! output list is fatal, since this format needs a literal path for each
//! rule target. A path that is not valid text is skipped silently, so the
//! rest of the rule is still produced.

use crate::delimited::paths_of;
use crate::escape::{munge, munge_spec};
use crate::path::{target_path, targets_of, NativePath, OutputTarget};
use crate::DepsError;
use vstd::prelude::*;
use vstd::string::StringExecFns;
use vstd::utf8::{decode_utf8, valid_utf8};

verus! {

/// True when some entry before index `i` contributes an emitted target:
/// an entry with a path that is valid text.
pub open spec fn text_target_before(ts: Seq<Option<Seq<u8>>>, i: int) -> bool {
    exists|j: int| 0 <= j < i && (#[trigger] ts[j]) is Some && valid_utf8(ts[j]->Some_0)
}

/// The escaped, space-joined targets from index `i` on: entries that are
/// not valid text contribute nothing, and a space stands between successive
/// emitted targets only.
pub open spec fn rule_targets_from(ts: Seq<Option<Seq<u8>>>, i: int) -> Seq<char>
    decreases ts.len() - i,
{
    if i < 0 || i >= ts.len() {
        Seq::empty()
    } else {
        (match ts[i] {
            Some(b) => if valid_utf8(b) {
                (if text_target_before(ts, i) {
                    " "@
                } else {
                    Seq::empty()
                }) + munge_spec(decode_utf8(b))
            } else {
                Seq::empty()
            },
            None => Seq::empty(),
        }) + rule_targets_from(ts, i + 1)
    }
}

/// The escaped dependencies from index `i` on, each preceded by one space;
/// entries that are not valid text contribute nothing.
pub open spec fn rule_deps_from(ds: Seq<Seq<u8>>, i: int) -> Seq<char>
    decreases ds.len() - i,
{
    if i < 0 || i >= ds.len() {
        Seq::empty()
    } else {
        (if valid_utf8(ds[i]) {
            " "@ + munge_spec(decode_utf8(ds[i]))
        } else {
            Seq::empty()
        }) + rule_deps_from(ds, i + 1)
    }
}

/// True when every entry of the output list has a literal path, that is
/// none of them is the standard output stream.
pub open spec fn no_stdout_target(ts: Seq<Option<Seq<u8>>>) -> bool {
    forall|i: int| 0 <= i < ts.len() ==> (#[trigger] ts[i]) is Some
}

/// The complete rule line.
pub open spec fn rule_line(ds: Seq<Seq<u8>>, ts: Seq<Option<Seq<u8>>>) -> Seq<char> {
    rule_targets_from(ts, 0) + ":"@ + rule_deps_from(ds, 0) + "\n"@
}

/// Serializes the (already relativized) dependency sequence and the output
/// list as one build-tool rule line, consuming the dependencies in one
/// pass. Fails, with nothing produced, when the output list names the
/// standard output stream; emits no rule at all when zero targets remain
/// after the text filtering, since a rule needs at least one target.
pub fn write_deps_make(deps: &Vec<NativePath>, outputs: &Vec<OutputTarget>) -> (r: Result<
    String,
    DepsError,
>)
    ensures
        r is Ok <==> no_stdout_target(targets_of(outputs@)),
        r matches Ok(line) ==> line@ == (if text_target_before(
            targets_of(outputs@),
            outputs@.len() as int,
        ) {
            rule_line(paths_of(deps@), targets_of(outputs@))
        } else {
            Seq::empty()
        }),
        r matches Err(e) ==> e is StdoutOutput,
{
    let ghost ds = paths_of(deps@);
    let ghost ts = targets_of(outputs@);
    let mut line = String::new();
    let mut emitted = false;
    let mut k: usize = 0;
    while k < outputs.len()
        invariant
            k <= outputs@.len(),
            ts == targets_of(outputs@),
            forall|j: int| 0 <= j < k ==> (#[trigger] ts[j]) is Some,
            emitted == text_target_before(ts, k as int),
            rule_targets_from(ts, 0) == line@ + rule_targets_from(ts, k as int),
        decreases outputs@.len() - k,
    {
        let ghost k0: int = k as int;
        proof {
            assert(ts[k0] == target_path(outputs@[k0]));
        }
        match &outputs[k] {
            OutputTarget::Stdout => {
                proof {
                    assert(ts[k0] is None);
                }
                return Err(DepsError::StdoutOutput);
            },
            OutputTarget::Path(p) => {
                match p.as_text() {
                    None => {
                        proof {
                            assert(ts[k0] is Some && ts[k0]->Some_0 == p@);
                            assert(!valid_utf8(ts[k0]->Some_0));
                            assert(text_target_before(ts, k0 + 1) == text_target_before(ts, k0));
                        }
                    },
                    Some(s) => {
                        if emitted {
                            line.append(" ");
                        }
                        let m = munge(s);
                        line.append(m.as_str());
                        emitted = true;
                        proof {
                            assert(ts[k0] is Some && ts[k0]->Some_0 == p@);
                            assert(s@ == decode_utf8(ts[k0]->Some_0));
                            assert(text_target_before(ts, k0 + 1));
                        }
                    },
                }
            },
        }
        k = k + 1;
        proof {
            assert(rule_targets_from(ts, 0) =~= line@ + rule_targets_from(ts, k as int));
        }
    }
    if !emitted {
        return Ok(String::new());
    }
    line.append(":");
    let ghost mid = line@;
    let mut i: usize = 0;
    while i < deps.len()
        invariant
            i <= deps@.len(),
            ds == paths_of(deps@),
            mid + rule_deps_from(ds, 0) == line@ + rule_deps_from(ds, i as int),
        decreases deps@.len() - i,
    {
        let ghost i0: int = i as int;
        proof {
            assert(ds[i0] == deps@[i0]@);
        }
        match deps[i].as_text() {
            None => {
                proof {
                    assert(!valid_utf8(ds[i0]));
                }
            },
            Some(s) => {
                line.append(" ");
                let m = munge(s);
                line.append(m.as_str());
                proof {
                    assert(s@ == decode_utf8(ds[i0]));
                }
            },
        }
        i = i + 1;
        proof {
            assert(mid + rule_deps_from(ds, 0) =~= line@ + rule_deps_from(ds, i as int));
        }
    }
    line.append("\n");
    proof {
        assert(line@ =~= rule_line(ds, ts));
    }
    Ok(line)
}

} // verus!
