//! Byte-level utility functions shared by the wire helpers.

pub mod de;

use vstd::prelude::*;

verus! {

/// A byte that carries no information at the front of a numeric bitstring:
/// a run of leading `0x00` bytes (for non-negative values) or `0xFF` bytes
/// (for sign-extended negative values) can be dropped without changing the
/// value the bitstring denotes.
pub open spec fn is_filler(b: u8) -> bool {
    b == 0x00 || b == 0xFF
}

/// Index of the first byte of `s` that is not a filler byte, or `s.len()`
/// when every byte is a filler byte.
pub open spec fn first_keep(s: Seq<u8>) -> int
    decreases s.len(),
{
    if s.len() == 0 {
        0
    } else if !is_filler(s[0]) {
        0
    } else {
        1 + first_keep(s.drop_first())
    }
}

/// The canonical form of a bitstring: the suffix that starts at the first
/// non-filler byte; just the last byte when the whole string is filler;
/// empty input stays empty.
pub open spec fn canonical_form(s: Seq<u8>) -> Seq<u8> {
    if s.len() == 0 {
        s
    } else if first_keep(s) == s.len() {
        seq![s.last()]
    } else {
        s.subrange(first_keep(s), s.len() as int)
    }
}

proof fn lemma_first_keep_at(s: Seq<u8>, i: int)
    requires
        0 <= i <= s.len(),
        forall|j: int| 0 <= j < i ==> is_filler(s[j]),
        i == s.len() || !is_filler(s[i]),
    ensures
        first_keep(s) == i,
    decreases s.len(),
{
    if i > 0 {
        assert(is_filler(s[0]));
        assert(forall|j: int| 0 <= j < i - 1 ==> s.drop_first()[j] == s[j + 1]);
        lemma_first_keep_at(s.drop_first(), i - 1);
    }
}

/// Canonicalize a bitstring.
///
/// P4Runtime uses a canonical form for bitstrings: the representation should
/// be the shortest possible. This function removes leading `0x00` or `0xFF`
/// bytes; when the whole string consists of such bytes, the last byte alone
/// is kept.
pub fn canonicalize_bitstring(bytes: Vec<u8>) -> (r: Vec<u8>)
    ensures
        r@ == canonical_form(bytes@),
{
    if bytes.len() == 0 {
        return bytes;
    }

    // Find the first byte that is neither 0x00 nor 0xFF.
    let mut i: usize = 0;
    while i < bytes.len() && (bytes[i] == 0x00 || bytes[i] == 0xFF)
        invariant
            i <= bytes@.len(),
            forall|j: int| 0 <= j < i ==> is_filler(bytes@[j]),
        decreases bytes@.len() - i,
    {
        i += 1;
    }

    if i == bytes.len() {
        // Every byte is a filler byte: keep the last byte alone.
        proof {
            lemma_first_keep_at(bytes@, bytes@.len() as int);
        }
        let last = bytes[bytes.len() - 1];
        let mut r: Vec<u8> = Vec::new();
        r.push(last);
        assert(r@ =~= canonical_form(bytes@));
        r
    } else {
        proof {
            lemma_first_keep_at(bytes@, i as int);
        }
        let mut r: Vec<u8> = Vec::new();
        let mut k: usize = i;
        while k < bytes.len()
            invariant
                i <= k <= bytes@.len(),
                r@ == bytes@.subrange(i as int, k as int),
            decreases bytes@.len() - k,
        {
            let b = bytes[k];
            r.push(b);
            assert(r@ =~= bytes@.subrange(i as int, k as int + 1));
            k += 1;
        }
        assert(r@ =~= canonical_form(bytes@));
        r
    }
}

} // verus!
