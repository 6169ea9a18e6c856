//! The structured (JSON) writer.
//!
//! It produces one object with exactly two fields, in this order: `inputs`,
//! an array of the relativized dependency paths as text, and `outputs`,
//! which is `null` when the caller passed no output list and otherwise an
//! array of the output paths as text with standard-output entries silently
//! omitted. A path that is not valid text is fatal: the whole export fails
//! with an error naming the offending path.

use crate::path::{opt_targets, target_path, targets_of, NativePath, OutputTarget};
use crate::delimited::paths_of;
use crate::DepsError;
use vstd::prelude::*;
use vstd::string::StringExecFns;
use vstd::utf8::{decode_utf8, valid_utf8};

verus! {

/// The JSON string literal that encodes the given text: the text between
/// double quotes, with the characters JSON cannot carry verbatim escaped.
pub uninterp spec fn json_string_of(s: Seq<char>) -> Seq<char>;

/// True of text that JSON string encoding passes through verbatim: no
/// double quote, no backslash, no control character.
pub open spec fn plain_text(s: Seq<char>) -> bool {
    forall|i: int| 0 <= i < s.len() ==> s[i] != '"' && s[i] != '\\' && s[i] as u32 >= 0x20
}

/// Relies on serde_json::to_string: serializing a string slice yields its
/// JSON string literal — the text between double quotes with `"`, `\` and
/// the control characters escaped, every other character verbatim — and it
/// cannot fail, since the writer is an in-memory buffer. The result depends
/// on the characters alone.
#[verifier::external_body]
fn json_string(s: &str) -> (r: String)
    ensures
        r@ == json_string_of(s@),
        r@ == if plain_text(s@) {
            seq!['"'] + s@ + seq!['"']
        } else {
            json_string_of(s@)
        },
{
    match serde_json::to_string(s) {
        Ok(j) => j,
        Err(_) => String::new(),
    }
}

/// Every input path is valid text.
pub open spec fn all_inputs_text(ds: Seq<Seq<u8>>) -> bool {
    forall|i: int| 0 <= i < ds.len() ==> valid_utf8(ds[i])
}

/// Every output path is valid text (standard-output entries carry none).
pub open spec fn all_outputs_text(ts: Seq<Option<Seq<u8>>>) -> bool {
    forall|i: int| 0 <= i < ts.len() ==> (#[trigger] ts[i] matches Some(b) ==> valid_utf8(b))
}

/// Every output path of an optional output list is valid text.
pub open spec fn opt_all_outputs_text(outs: Option<Seq<Option<Seq<u8>>>>) -> bool {
    match outs {
        Some(ts) => all_outputs_text(ts),
        None => true,
    }
}

/// The members of the `inputs` array from index `i` on: every path as a
/// JSON string, comma-separated.
pub open spec fn json_inputs_items(ds: Seq<Seq<u8>>, i: int) -> Seq<char>
    decreases ds.len() - i,
{
    if i < 0 || i >= ds.len() {
        Seq::empty()
    } else {
        (if i == 0 {
            Seq::empty()
        } else {
            ","@
        }) + json_string_of(decode_utf8(ds[i])) + json_inputs_items(ds, i + 1)
    }
}

/// True when some entry before index `i` contributes an array member.
pub open spec fn some_target_before(ts: Seq<Option<Seq<u8>>>, i: int) -> bool {
    exists|j: int| 0 <= j < i && ts[j] is Some
}

/// The members of the `outputs` array from index `i` on: every output path
/// as a JSON string, comma-separated, standard-output entries omitted.
pub open spec fn json_outputs_items(ts: Seq<Option<Seq<u8>>>, i: int) -> Seq<char>
    decreases ts.len() - i,
{
    if i < 0 || i >= ts.len() {
        Seq::empty()
    } else {
        (match ts[i] {
            Some(b) => (if some_target_before(ts, i) {
                ","@
            } else {
                Seq::empty()
            }) + json_string_of(decode_utf8(b)),
            None => Seq::empty(),
        }) + json_outputs_items(ts, i + 1)
    }
}

/// The value of the `outputs` field: `null` without an output list, the
/// array of its members otherwise.
pub open spec fn json_outputs_value(outs: Option<Seq<Option<Seq<u8>>>>) -> Seq<char> {
    match outs {
        None => "null"@,
        Some(ts) => "["@ + json_outputs_items(ts, 0) + "]"@,
    }
}

/// The complete structured document.
pub open spec fn structured_doc(ds: Seq<Seq<u8>>, outs: Option<Seq<Option<Seq<u8>>>>) -> Seq<
    char,
> {
    "{\"inputs\":["@ + json_inputs_items(ds, 0) + "],\"outputs\":"@ + json_outputs_value(outs)
        + "}"@
}

/// The structured schema: the document always consists of exactly the two
/// fields `inputs` and `outputs`, in this order and with nothing else, and
/// the `outputs` value is `null` exactly when the caller passed no output
/// list.
pub proof fn lemma_structured_schema(ds: Seq<Seq<u8>>, outs: Option<Seq<Option<Seq<u8>>>>)
    ensures
        structured_doc(ds, outs) == "{\"inputs\":["@ + json_inputs_items(ds, 0) + "],\"outputs\":"@
            + json_outputs_value(outs) + "}"@,
        json_outputs_value(outs) == "null"@ <==> outs is None,
{
    reveal_strlit("null");
    reveal_strlit("[");
    if outs is Some {
        let v = json_outputs_value(outs);
        assert(v[0] == '[');
        assert("null"@[0] == 'n');
    }
}

/// Serializes the (already relativized) dependency sequence and the optional
/// output list as one structured document, consuming the dependencies in one
/// pass. Fails on the first path that is not valid text, naming it; inputs
/// are examined before outputs.
pub fn write_deps_json(deps: &Vec<NativePath>, outputs: Option<&Vec<OutputTarget>>) -> (r: Result<
    String,
    DepsError,
>)
    ensures
        r is Ok <==> all_inputs_text(paths_of(deps@)) && opt_all_outputs_text(
            opt_targets(outputs),
        ),
        r matches Ok(doc) ==> doc@ == structured_doc(paths_of(deps@), opt_targets(outputs)),
        forall|i: int|
            (0 <= i < deps@.len() && !valid_utf8(paths_of(deps@)[i]) && (forall|j: int|
                0 <= j < i ==> valid_utf8(paths_of(deps@)[j]))) ==> (r matches Err(e)
                && e matches DepsError::NonUtf8Input(p) && p@ == paths_of(deps@)[i]),
        forall|i: int|
            (all_inputs_text(paths_of(deps@)) && outputs is Some && 0 <= i < targets_of(
                outputs->Some_0@,
            ).len() && targets_of(outputs->Some_0@)[i] is Some && !valid_utf8(
                targets_of(outputs->Some_0@)[i]->Some_0,
            ) && (forall|j: int|
                0 <= j < i ==> (targets_of(outputs->Some_0@)[j] is Some ==> valid_utf8(
                    targets_of(outputs->Some_0@)[j]->Some_0,
                )))) ==> (r matches Err(e) && e matches DepsError::NonUtf8Output(p) && p@
                == targets_of(outputs->Some_0@)[i]->Some_0),
        r matches Err(e) ==> e is NonUtf8Input || e is NonUtf8Output,
{
    let ghost ds = paths_of(deps@);
    let mut doc = String::new();
    doc.append("{\"inputs\":[");
    let ghost head = "{\"inputs\":["@;
    let mut i: usize = 0;
    while i < deps.len()
        invariant
            i <= deps@.len(),
            ds == paths_of(deps@),
            forall|j: int| 0 <= j < i ==> valid_utf8(ds[j]),
            head + json_inputs_items(ds, 0) == doc@ + json_inputs_items(ds, i as int),
        decreases deps@.len() - i,
    {
        let ghost i0: int = i as int;
        proof {
            assert(ds[i0] == deps@[i0]@);
        }
        let t = deps[i].as_text();
        match t {
            None => {
                proof {
                    assert(!valid_utf8(ds[i0]));
                }
                return Err(DepsError::NonUtf8Input(deps[i].duplicate()));
            },
            Some(s) => {
                if i != 0 {
                    doc.append(",");
                }
                let js = json_string(s);
                doc.append(js.as_str());
                proof {
                    assert(s@ == decode_utf8(ds[i0]));
                    assert(js@ == json_string_of(decode_utf8(ds[i0])));
                }
            },
        }
        i = i + 1;
        proof {
            assert(head + json_inputs_items(ds, 0) =~= doc@ + json_inputs_items(ds, i as int));
        }
    }
    proof {
        assert(doc@ =~= head + json_inputs_items(ds, 0));
    }
    doc.append("],\"outputs\":");
    let ghost mid = doc@;
    match outputs {
        None => {
            doc.append("null");
        },
        Some(outs) => {
            let ghost ts = targets_of(outs@);
            doc.append("[");
            let mut emitted = false;
            let mut k: usize = 0;
            while k < outs.len()
                invariant
                    k <= outs@.len(),
                    ts == targets_of(outs@),
                    outputs is Some && outputs->Some_0 == outs,
                    forall|j: int| 0 <= j < i ==> valid_utf8(ds[j]),
                    i == deps@.len(),
                    ds == paths_of(deps@),
                    forall|j: int|
                        0 <= j < k ==> (#[trigger] ts[j] matches Some(b) ==> valid_utf8(b)),
                    emitted == some_target_before(ts, k as int),
                    mid + "["@ + json_outputs_items(ts, 0) == doc@ + json_outputs_items(
                        ts,
                        k as int,
                    ),
                decreases outs@.len() - k,
            {
                let ghost k0: int = k as int;
                proof {
                    assert(ts[k0] == target_path(outs@[k0]));
                }
                match &outs[k] {
                    OutputTarget::Stdout => {
                        proof {
                            assert(ts[k0] is None);
                            assert(some_target_before(ts, k0 + 1) == some_target_before(ts, k0));
                        }
                    },
                    OutputTarget::Path(p) => {
                        let t = p.as_text();
                        match t {
                            None => {
                                proof {
                                    assert(ts[k0] is Some && ts[k0]->Some_0 == p@);
                                    assert(!valid_utf8(ts[k0]->Some_0));
                                    assert(!all_outputs_text(ts));
                                    assert(outputs is Some && outputs->Some_0 == outs);
                                    assert(targets_of(outputs->Some_0@) == ts);
                                    assert(forall|j: int|
                                        0 <= j < k0 ==> (targets_of(outputs->Some_0@)[j] is Some
                                            ==> valid_utf8(
                                            targets_of(outputs->Some_0@)[j]->Some_0,
                                        )));
                                }
                                return Err(DepsError::NonUtf8Output(p.duplicate()));
                            },
                            Some(s) => {
                                if emitted {
                                    doc.append(",");
                                }
                                let js = json_string(s);
                                doc.append(js.as_str());
                                emitted = true;
                                proof {
                                    assert(ts[k0] is Some && ts[k0]->Some_0 == p@);
                                    assert(s@ == decode_utf8(ts[k0]->Some_0));
                                    assert(js@ == json_string_of(decode_utf8(ts[k0]->Some_0)));
                                    assert(some_target_before(ts, k0 + 1));
                                }
                            },
                        }
                    },
                }
                k = k + 1;
                proof {
                    assert(mid + "["@ + json_outputs_items(ts, 0) =~= doc@
                        + json_outputs_items(ts, k as int));
                }
            }
            doc.append("]");
            proof {
                assert(doc@ =~= mid + json_outputs_value(opt_targets(outputs)));
            }
        },
    }
    doc.append("}");
    proof {
        assert(doc@ =~= structured_doc(ds, opt_targets(outputs)));
    }
    Ok(doc)
}

} // verus!
