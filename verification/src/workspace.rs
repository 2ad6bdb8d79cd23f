//! Workspace identity: the stable id under which a project's sessions are
//! stored.
use vstd::prelude::*;

use crate::text::string_of;

verus! {

pub const FNV_OFFSET: u64 = 0xcbf29ce484222325;
pub const FNV_PRIME: u64 = 0x100000001b3;

/// FNV-1a over bytes: xor each byte in, then multiply (wrapping).
pub open spec fn fnv1a(bs: Seq<u8>) -> u64
    decreases bs.len(),
{
    if bs.len() == 0 {
        FNV_OFFSET
    } else {
        (fnv1a(bs.drop_last()) ^ (bs.last() as u64)).wrapping_mul(FNV_PRIME)
    }
}

/// Lowercase hex digit for `d < 16`.
pub open spec fn hex_lower(d: u64) -> char {
    if d < 10 {
        ((0x30 + d) as u8) as char
    } else {
        ((0x61 + d - 10) as u8) as char
    }
}

/// The last `count` hex digits of `n`, most significant first.
pub open spec fn hex_digits(n: u64, count: nat) -> Seq<char>
    decreases count,
{
    if count == 0 {
        seq![]
    } else {
        hex_digits(n / 16, (count - 1) as nat).push(hex_lower(n % 16))
    }
}

fn push_hex(out: &mut Vec<char>, n: u64, count: usize)
    ensures
        final(out)@ == old(out)@ + hex_digits(n, count as nat),
    decreases count,
{
    if count > 0 {
        push_hex(out, n / 16, count - 1);
        let d = n % 16;
        let c = if d < 10 {
            ((0x30 + d) as u8) as char
        } else {
            ((0x61 + d - 10) as u8) as char
        };
        out.push(c);
        assert(old(out)@ + hex_digits(n, count as nat) =~= old(out)@ + hex_digits(
            n / 16,
            (count - 1) as nat,
        ) + seq![hex_lower(n % 16)]);
    }
}

/// A stable, filesystem-independent id for a workspace path (FNV-1a over
/// its UTF-8 bytes, as 16 lowercase hex digits). Used as the session
/// storage directory name.
pub fn workspace_id(workspace: &str) -> (r: String)
    ensures
        r@ == hex_digits(fnv1a(vstd::utf8::encode_utf8(workspace@)), 16),
{
    let bytes = workspace.as_bytes();
    let ghost bs = bytes@;
    let mut hash: u64 = FNV_OFFSET;
    assert(bs.take(0) =~= Seq::<u8>::empty());
    for k in 0..bytes.len()
        invariant
            bs == bytes@,
            hash == fnv1a(bs.take(k as int)),
    {
        assert(bs.take(k + 1).drop_last() =~= bs.take(k as int));
        hash = (hash ^ (bytes[k] as u64)).wrapping_mul(FNV_PRIME);
    }
    assert(bs.take(bytes@.len() as int) =~= bs);
    let mut out: Vec<char> = Vec::new();
    push_hex(&mut out, hash, 16);
    assert(out@ =~= hex_digits(hash, 16));
    string_of(&out)
}

} // verus!
