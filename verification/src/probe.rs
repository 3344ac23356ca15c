//! Primitive-probe dispatch encoding: the function selector of a primitive
//! name and the 48-byte push-constant block (selector, padding, eight argument
//! words) handed to the probe shader.

use vstd::prelude::*;
use crate::names::str_eq;

verus! {

/// The probe shader's function selector code of a primitive name.
pub open spec fn fn_sel_spec(name: Seq<char>) -> Option<i32> {
    if name == "hash2"@ {
        Some(0)
    } else if name == "value_noise"@ {
        Some(1)
    } else if name == "fbm"@ {
        Some(2)
    } else if name == "ridged_multifractal"@ {
        Some(3)
    } else if name == "warp_x"@ {
        Some(4)
    } else if name == "warp_z"@ {
        Some(5)
    } else {
        None
    }
}

/// `fn_sel` codes shared with the probe shader; `None` for an unknown name.
pub fn fn_sel(name: &str) -> (sel: Option<i32>)
    ensures
        sel == fn_sel_spec(name@),
{
    if str_eq(name, "hash2") {
        Some(0)
    } else if str_eq(name, "value_noise") {
        Some(1)
    } else if str_eq(name, "fbm") {
        Some(2)
    } else if str_eq(name, "ridged_multifractal") {
        Some(3)
    } else if str_eq(name, "warp_x") {
        Some(4)
    } else if str_eq(name, "warp_z") {
        Some(5)
    } else {
        None
    }
}


// ---------------------------------------------------------------------------
// Push constants
// ---------------------------------------------------------------------------

/// Little-endian bytes of a 32-bit word.
pub open spec fn le_bytes_u32(x: u32) -> Seq<u8> {
    seq![
        (x % 0x100) as u8,
        ((x / 0x100) % 0x100) as u8,
        ((x / 0x1_0000) % 0x100) as u8,
        (x / 0x100_0000) as u8,
    ]
}

/// Argument word `i`, zero past the supplied arguments.
pub open spec fn arg_word(args: Seq<u32>, i: int) -> u32 {
    if 0 <= i < args.len() {
        args[i]
    } else {
        0
    }
}

/// The first `n` bytes of the little-endian encoding of the eight argument words.
pub open spec fn arg_bytes(args: Seq<u32>, n: nat) -> Seq<u8> {
    Seq::new(n, |k: int| le_bytes_u32(arg_word(args, k / 4))[k % 4])
}

/// The push-constant block: the selector and three zero words (16 bytes), then
/// argument words 0..8 (32 bytes), all little-endian.
pub open spec fn push_constant_bytes(sel: i32, args: Seq<u32>) -> Seq<u8> {
    le_bytes_u32(sel as u32) + le_bytes_u32(0) + le_bytes_u32(0) + le_bytes_u32(0) + arg_bytes(args, 32)
}

/// The 32-bit word stored little-endian at byte `at` of `b`.
pub open spec fn le_word_at(b: Seq<u8>, at: int) -> int {
    b[at] + 0x100 * b[at + 1] + 0x1_0000 * b[at + 2] + 0x100_0000 * b[at + 3]
}

/// Reading back the four little-endian bytes of a word gives the word.
pub proof fn lemma_le_bytes_read_back(x: u32)
    ensures
        le_bytes_u32(x).len() == 4,
        le_word_at(le_bytes_u32(x), 0) == x,
{
    let b = le_bytes_u32(x);
    let b0 = x % 0x100;
    let b1 = (x / 0x100) % 0x100;
    let b2 = (x / 0x1_0000) % 0x100;
    let b3 = x / 0x100_0000;
    assert(b[0] == b0 && b[1] == b1 && b[2] == b2 && b[3] == b3);
    assert(b0 + 0x100 * b1 + 0x1_0000 * b2 + 0x100_0000 * b3 == x) by (nonlinear_arith)
        requires
            b0 == x % 0x100,
            b1 == (x / 0x100) % 0x100,
            b2 == (x / 0x1_0000) % 0x100,
            b3 == x / 0x100_0000,
            0 <= x <= 0xffff_ffff,
    ;
}

/// Byte `16 + 4 * i + k` of the block is byte `k` of argument word `i`.
proof fn lemma_arg_byte(sel: i32, args: Seq<u32>, i: int, k: int)
    requires
        0 <= i < 8,
        0 <= k < 4,
    ensures
        push_constant_bytes(sel, args)[16 + 4 * i + k] == le_bytes_u32(arg_word(args, i))[k],
{
    let j = 4 * i + k;
    assert(j / 4 == i && j % 4 == k) by (nonlinear_arith)
        requires
            j == 4 * i + k,
            0 <= k < 4,
    ;
    let head = le_bytes_u32(sel as u32) + le_bytes_u32(0) + le_bytes_u32(0) + le_bytes_u32(0);
    assert(head.len() == 16);
    assert(push_constant_bytes(sel, args)[16 + j] == arg_bytes(args, 32)[j]);
}

/// The push-constant block is 48 bytes: the selector read back at byte 0,
/// zeros in bytes 4..16, argument word `i` read back at byte `16 + 4 i` for
/// each supplied argument among the first eight, and zeros in every
/// argument word past the supplied ones.
pub proof fn lemma_push_block_layout(sel: i32, args: Seq<u32>)
    ensures
        push_constant_bytes(sel, args).len() == 48,
        le_word_at(push_constant_bytes(sel, args), 0) == sel as u32,
        forall|k: int| 4 <= k < 16 ==> #[trigger] push_constant_bytes(sel, args)[k] == 0,
        forall|i: int|
            0 <= i < 8 && i < args.len() ==> le_word_at(push_constant_bytes(sel, args), 16 + 4 * i)
                == #[trigger] args[i],
        forall|i: int, k: int|
            args.len() <= i < 8 && 0 <= k < 4 ==> #[trigger] push_constant_bytes(sel, args)[16 + 4 * i
                + k] == 0,
{
    let b = push_constant_bytes(sel, args);
    lemma_le_bytes_read_back(sel as u32);
    lemma_le_bytes_read_back(0);
    assert(le_bytes_u32(0) =~= seq![0u8, 0u8, 0u8, 0u8]);
    assert forall|i: int| 0 <= i < 8 && i < args.len() implies le_word_at(b, 16 + 4 * i)
        == #[trigger] args[i] by {
        lemma_arg_byte(sel, args, i, 0);
        lemma_arg_byte(sel, args, i, 1);
        lemma_arg_byte(sel, args, i, 2);
        lemma_arg_byte(sel, args, i, 3);
        lemma_le_bytes_read_back(args[i]);
    }
    assert forall|i: int, k: int| args.len() <= i < 8 && 0 <= k < 4 implies #[trigger] b[16 + 4 * i
        + k] == 0 by {
        lemma_arg_byte(sel, args, i, k);
    }
}

fn push_le_u32(out: &mut Vec<u8>, x: u32)
    ensures
        final(out)@ == old(out)@ + le_bytes_u32(x),
{
    proof {
        assert((x & 0xff) == x % 0x100) by (bit_vector);
        assert(((x >> 8u32) & 0xff) == (x / 0x100) % 0x100) by (bit_vector);
        assert(((x >> 16u32) & 0xff) == (x / 0x1_0000) % 0x100) by (bit_vector);
        assert((x >> 24u32) == x / 0x100_0000) by (bit_vector);
    }
    out.push((x & 0xff) as u8);
    out.push(((x >> 8u32) & 0xff) as u8);
    out.push(((x >> 16u32) & 0xff) as u8);
    out.push((x >> 24u32) as u8);
    assert(final(out)@ =~= old(out)@ + le_bytes_u32(x));
}

/// Build the 48-byte push constant: `sel` and three zero words, then eight
/// argument words from `arg_bits` (the `f32` bit patterns `a0..`; missing
/// arguments are 0, extra ones are ignored).
pub fn build_push(sel: i32, arg_bits: &[u32]) -> (b: Vec<u8>)
    ensures
        b@ == push_constant_bytes(sel, arg_bits@),
        b@.len() == 48,
        le_word_at(b@, 0) == sel as u32,
        forall|i: int|
            0 <= i < 8 && i < arg_bits@.len() ==> le_word_at(b@, 16 + 4 * i) == #[trigger] arg_bits@[i],
        forall|i: int, k: int|
            arg_bits@.len() <= i < 8 && 0 <= k < 4 ==> #[trigger] b@[16 + 4 * i + k] == 0,
{
    proof {
        lemma_push_block_layout(sel, arg_bits@);
    }
    let mut b: Vec<u8> = Vec::new();
    push_le_u32(&mut b, sel as u32);
    push_le_u32(&mut b, 0);
    push_le_u32(&mut b, 0);
    push_le_u32(&mut b, 0);
    let ghost header = b@;
    let mut i: usize = 0;
    while i < 8
        invariant
            i <= 8,
            header == le_bytes_u32(sel as u32) + le_bytes_u32(0) + le_bytes_u32(0) + le_bytes_u32(0),
            b@ == header + arg_bytes(arg_bits@, (4 * i) as nat),
        decreases 8 - i,
    {
        let v: u32 = if i < arg_bits.len() {
            arg_bits[i]
        } else {
            0
        };
        push_le_u32(&mut b, v);
        proof {
            assert(v == arg_word(arg_bits@, i as int));
            assert(arg_bytes(arg_bits@, (4 * (i + 1)) as nat) =~= arg_bytes(arg_bits@, (4 * i) as nat)
                + le_bytes_u32(v));
        }
        i = i + 1;
    }
    b
}

} // verus!
