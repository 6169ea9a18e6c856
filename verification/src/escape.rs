//! Escaping of paths embedded in a build-tool rule line.
//!
//! The escaper walks the path one character at a time while counting the run
//! of consecutive backslashes seen so far. A `$` is doubled, `:` and `#` get
//! one `\` in front, and a space or tab preceded by N backslashes is emitted
//! as 2N + 1 backslashes followed by the whitespace character, so that the N
//! literal backslashes and the whitespace itself all survive the consumer's
//! unescaping. Characters with no representable escape pass through verbatim.

use vstd::prelude::*;
use vstd::string::StrSliceExecFns;
use vstd::string::StringExecFns;

verus! {

/// A run of `n` backslash characters.
pub open spec fn backslashes(n: nat) -> Seq<char> {
    Seq::new(n, |i: int| '\\')
}

/// The characters emitted in front of `c` when `slashes` consecutive
/// backslashes immediately precede it.
pub open spec fn munge_prefix(c: char, slashes: nat) -> Seq<char> {
    if c == '$' {
        seq!['$']
    } else if c == ':' {
        seq!['\\']
    } else if c == ' ' || c == '\t' {
        backslashes(slashes + 1)
    } else if c == '#' {
        seq!['\\']
    } else {
        Seq::empty()
    }
}

/// The backslash-run count after handling `c`: a backslash extends the run,
/// anything else resets it.
pub open spec fn next_slashes(c: char, slashes: nat) -> nat {
    if c == '\\' {
        slashes + 1
    } else {
        0
    }
}

/// The escaped form of `s[i..]`, entered with a pending backslash run of
/// `slashes`: each character is emitted as its prefix followed by the
/// character itself, unchanged.
pub open spec fn munge_from(s: Seq<char>, i: int, slashes: nat) -> Seq<char>
    decreases s.len() - i,
{
    if i < 0 || i >= s.len() {
        Seq::empty()
    } else {
        munge_prefix(s[i], slashes) + seq![s[i]] + munge_from(s, i + 1, next_slashes(s[i], slashes))
    }
}

/// The escaped form of a whole path string.
pub open spec fn munge_spec(s: Seq<char>) -> Seq<char> {
    munge_from(s, 0, 0)
}

/// Relies on String::push: it appends exactly the one given character.
#[verifier::external_body]
fn push_char(s: &mut String, c: char)
    ensures
        final(s)@ == old(s)@.push(c),
{
    s.push(c);
}

/// Escapes a path string for inclusion in a build-tool rule line.
pub fn munge(s: &str) -> (r: String)
    ensures
        r@ == munge_spec(s@),
{
    let len: usize = s.unicode_len();
    let mut res = String::new();
    let mut slashes: usize = 0;
    let mut i: usize = 0;
    while i < len
        invariant
            len == s@.len(),
            i <= len,
            slashes <= i,
            munge_spec(s@) == res@ + munge_from(s@, i as int, slashes as nat),
        decreases len - i,
    {
        let ghost i0: int = i as int;
        let ghost sl0: nat = slashes as nat;
        let ghost res0 = res@;
        let c = s.get_char(i);
        if c == '\\' {
            slashes = slashes + 1;
        } else if c == '$' {
            push_char(&mut res, '$');
            slashes = 0;
        } else if c == ':' {
            push_char(&mut res, '\\');
            slashes = 0;
        } else if c == ' ' || c == '\t' {
            let n: usize = slashes + 1;
            let mut k: usize = 0;
            while k < n
                invariant
                    k <= n,
                    res@ == res0 + backslashes(k as nat),
                decreases n - k,
            {
                push_char(&mut res, '\\');
                k = k + 1;
                proof {
                    assert(res@ =~= res0 + backslashes(k as nat));
                }
            }
            slashes = 0;
        } else if c == '#' {
            push_char(&mut res, '\\');
            slashes = 0;
        } else {
            slashes = 0;
        }
        proof {
            assert(res@ =~= res0 + munge_prefix(s@[i0], sl0));
        }
        push_char(&mut res, c);
        i = i + 1;
        proof {
            assert(slashes as nat == next_slashes(s@[i0], sl0));
            assert(munge_from(s@, i0, sl0) == munge_prefix(s@[i0], sl0) + seq![s@[i0]]
                + munge_from(s@, i0 + 1, next_slashes(s@[i0], sl0)));
            assert(res0 + munge_from(s@, i0, sl0) =~= res@ + munge_from(
                s@,
                i as int,
                slashes as nat,
            ));
        }
    }
    res
}

} // verus!
