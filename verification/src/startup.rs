//! Before the client starts: is there an account, and did linking one work?

use crate::text::{is_blank, is_white, trim};
use vstd::prelude::*;
use vstd::utf8::{decode_utf8, valid_utf8};

verus! {

/// The text that `String::from_utf8_lossy` makes of bytes.
pub uninterp spec fn lossy_text(bytes: Seq<u8>) -> Seq<char>;

/// `String::from_utf8_lossy`. Bytes that are UTF-8 are read as the text that
/// they encode. What comes of other bytes is named, not described.
#[verifier::external_body]
fn read_lossy(bytes: &Vec<u8>) -> (s: String)
    ensures
        s@ == lossy_text(bytes@),
        valid_utf8(bytes@) ==> s@ == decode_utf8(bytes@),
{
    String::from_utf8_lossy(bytes).into_owned()
}

/// Whether a list of accounts names any: it does unless it is blank.
pub fn names_account(accounts: &str) -> (any: bool)
    ensures
        any == !is_blank(accounts@),
        any <==> exists|i: int| 0 <= i < accounts@.len() && !is_white(#[trigger] accounts@[i]),
{
    let inner = trim(accounts);
    proof {
        let s = accounts@;
        let (from, to) = choose|from: int, to: int|
            {
                &&& 0 <= from <= to <= s.len()
                &&& inner@ == #[trigger] s.subrange(from, to)
                &&& is_blank(s.subrange(0, from))
                &&& is_blank(s.subrange(to, s.len() as int))
                &&& from < to ==> !is_white(s[from]) && !is_white(s[to - 1])
            };
        if from == to {
            assert forall|i: int| 0 <= i < s.len() implies is_white(#[trigger] s[i]) by {
                if i < from {
                    assert(s.subrange(0, from)[i] == s[i]);
                } else {
                    assert(s.subrange(to, s.len() as int)[i - to] == s[i]);
                }
            }
        } else {
            assert(inner@.len() == to - from);
        }
    }
    !inner.is_empty()
}

/// Whether an account is linked, by what `signal-cli listAccounts` printed;
/// `None` where it could not be run. One is unless the output is blank.
pub fn is_linked(output: Option<&Vec<u8>>) -> (linked: bool)
    ensures
        linked == (output is Some && !is_blank(lossy_text(output->0@))),
        output is Some && valid_utf8(output->0@) ==> linked == !is_blank(decode_utf8(output->0@)),
{
    match output {
        Some(bytes) => names_account(read_lossy(bytes).as_str()),
        None => false,
    }
}

/// What to say when `signal-cli link` has ended: a message where it succeeded,
/// an error where it did not.
pub fn link_outcome(success: bool) -> (outcome: Result<String, String>)
    ensures
        match outcome {
            Ok(message) => success && message@
                == "\nLinked successfully. Starting signal-tui...\n"@,
            Err(error) => !success && error@ == "linking failed or was cancelled"@,
        },
{
    if success {
        Ok("\nLinked successfully. Starting signal-tui...\n".to_string())
    } else {
        Err("linking failed or was cancelled".to_string())
    }
}

} // verus!
