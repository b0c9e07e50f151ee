//! Decoding of UTF-8 text.

use vstd::prelude::*;
use vstd::utf8::{decode_utf8, valid_utf8};

use crate::text::{decimal, push_decimal};

verus! {

/// Why bytes are not UTF-8.
#[derive(Clone, Copy, Debug, PartialEq, Eq)]
pub struct Utf8Fault {
    /// How many bytes at the start are UTF-8.
    pub valid_up_to: usize,
    /// The length of the bad sequence that follows, or `None` where the bytes end too early.
    pub error_len: Option<usize>,
}

/// The length of the longest start of `bytes` that is UTF-8, among those of at most `n` bytes.
pub open spec fn valid_start(bytes: Seq<u8>, n: nat) -> nat
    decreases n,
{
    if n == 0 || valid_utf8(bytes.subrange(0, n as int)) {
        n
    } else {
        valid_start(bytes, (n - 1) as nat)
    }
}

/// The length of the sequence at which the decoding of `bytes` fails, as `error_len` of
/// `std::str::Utf8Error` gives it.
pub uninterp spec fn bad_sequence_len(bytes: Seq<u8>) -> Option<usize>;

/// Why `bytes` are not UTF-8.
pub open spec fn fault_of(bytes: Seq<u8>) -> Utf8Fault {
    Utf8Fault {
        valid_up_to: valid_start(bytes, bytes.len()) as usize,
        error_len: bad_sequence_len(bytes),
    }
}

/// Decodes UTF-8 text with `std::str::from_utf8`.
///
/// The contract claims that exactly the valid UTF-8 is decoded, and that the error tells how long
/// the longest valid start is and how long the sequence after it that is not valid.
#[verifier::external_body]
pub(crate) fn decode(bytes: &[u8]) -> (r: Result<String, Utf8Fault>)
    ensures
        r is Ok <==> valid_utf8(bytes@),
        r matches Ok(text) ==> text@ == decode_utf8(bytes@),
        r matches Err(fault) ==> fault.valid_up_to == valid_start(bytes@, bytes@.len()),
        r matches Err(fault) ==> fault.error_len == bad_sequence_len(bytes@),
{
    match std::str::from_utf8(bytes) {
        Ok(text) => Ok(text.to_string()),
        Err(e) => Err(Utf8Fault { valid_up_to: e.valid_up_to(), error_len: e.error_len() }),
    }
}

impl Utf8Fault {
    /// The fault in words.
    pub open spec fn words(self) -> Seq<char> {
        match self.error_len {
            Some(n) => "invalid utf-8 sequence of "@ + decimal(n as nat) + " bytes from index "@
                + decimal(self.valid_up_to as nat),
            None => "incomplete utf-8 byte sequence from index "@ + decimal(
                self.valid_up_to as nat,
            ),
        }
    }

    /// The fault in words.
    pub fn message(&self) -> (s: String)
        ensures
            s@ == self.words(),
    {
        match self.error_len {
            Some(n) => {
                let mut s = String::from_str("invalid utf-8 sequence of ");
                push_decimal(&mut s, n as u128);
                s.append(" bytes from index ");
                push_decimal(&mut s, self.valid_up_to as u128);
                s
            },
            None => {
                let mut s = String::from_str("incomplete utf-8 byte sequence from index ");
                push_decimal(&mut s, self.valid_up_to as u128);
                s
            },
        }
    }
}

/// The valid start of bytes is UTF-8 and is the longest one: no longer start is.
pub proof fn lemma_valid_start(bytes: Seq<u8>, n: nat)
    requires
        n <= bytes.len(),
    ensures
        valid_start(bytes, n) <= n,
        valid_utf8(bytes.subrange(0, valid_start(bytes, n) as int)),
        forall|m: int|
            valid_start(bytes, n) < m <= n ==> !#[trigger] valid_utf8(bytes.subrange(0, m)),
    decreases n,
{
    if n == 0 {
        assert(bytes.subrange(0, 0) =~= seq![]);
        assert(valid_utf8(Seq::<u8>::empty()));
    } else if !valid_utf8(bytes.subrange(0, n as int)) {
        lemma_valid_start(bytes, (n - 1) as nat);
    }
}

/// A fault in words: bytes that end too early are told from a bad sequence, whose length is given;
/// either way the number of good bytes is given.
pub proof fn lemma_fault_in_words(fault: Utf8Fault, s: String)
    requires
        call_ensures(Utf8Fault::message, (&fault,), s),
    ensures
        call_requires(Utf8Fault::message, (&fault,)),
        fault.error_len is None ==> s@ == "incomplete utf-8 byte sequence from index "@ + decimal(
            fault.valid_up_to as nat,
        ),
        fault.error_len matches Some(n) ==> s@ == "invalid utf-8 sequence of "@ + decimal(n as nat)
            + " bytes from index "@ + decimal(fault.valid_up_to as nat),
{
}

} // verus!
