//! Helpers for building device configuration blobs.

use vstd::prelude::*;

verus! {

use vstd::bytes::{spec_u32_to_le_bytes, u32_to_le_bytes};
use vstd::string::StringSliceAdditionalSpecFns;

/// A payload framed for the Tofino configuration format: its length as a
/// four-byte little-endian integer, then the payload bytes themselves.
pub open spec fn length_prefixed(payload: Seq<u8>) -> Seq<u8>
    recommends
        payload.len() <= u32::MAX,
{
    spec_u32_to_le_bytes(payload.len() as u32) + payload
}

/// Append every byte of `src` at the tail of `dst`, in order.
fn append_bytes(dst: &mut Vec<u8>, src: &[u8])
    ensures
        final(dst)@ == old(dst)@ + src@,
{
    let mut i: usize = 0;
    while i < src.len()
        invariant
            i <= src@.len(),
            dst@ == old(dst)@ + src@.subrange(0, i as int),
        decreases src@.len() - i,
    {
        dst.push(src[i]);
        assert(dst@ =~= old(dst)@ + src@.subrange(0, i as int + 1));
        i += 1;
    }
    assert(old(dst)@ + src@.subrange(0, src@.len() as int) =~= old(dst)@ + src@);
}

/// Build a Tofino device configuration blob.
///
/// The blob is the concatenation of three length-prefixed sections, each
/// introduced by the four-byte little-endian length of what follows it:
/// the program name in ASCII, the Tofino binary, and the context JSON.
///
/// # Arguments
///
/// - `program_name`: name of the program; it can be chosen freely.
/// - `tofino_bin`: the compiled Tofino binary.
/// - `context_json`: the context JSON emitted beside the binary.
pub fn build_tofino_config(program_name: &str, tofino_bin: &[u8], context_json: &[u8]) -> (r: Vec<
    u8,
>)
    requires
        program_name.spec_bytes().len() <= u32::MAX,
        tofino_bin@.len() <= u32::MAX,
        context_json@.len() <= u32::MAX,
    ensures
        r@ == length_prefixed(program_name.spec_bytes()) + length_prefixed(tofino_bin@)
            + length_prefixed(context_json@),
{
    let mut config: Vec<u8> = Vec::new();

    let mut name_len = u32_to_le_bytes(program_name.len() as u32);
    config.append(&mut name_len);
    append_bytes(&mut config, program_name.as_bytes());

    let mut bin_len = u32_to_le_bytes(tofino_bin.len() as u32);
    config.append(&mut bin_len);
    append_bytes(&mut config, tofino_bin);

    let mut json_len = u32_to_le_bytes(context_json.len() as u32);
    config.append(&mut json_len);
    append_bytes(&mut config, context_json);

    proof {
        assert(config@ =~= length_prefixed(program_name.spec_bytes()) + length_prefixed(
            tofino_bin@,
        ) + length_prefixed(context_json@));
    }
    config
}

} // verus!
