//! Name handling: string equality and runtime-biome routing of grammar family ids.

use vstd::prelude::*;
use vstd::string::StringSliceAdditionalSpecFns;
use vstd::utf8::*;

verus! {

broadcast use vstd::utf8::group_utf8_lib;

/// Byte-wise equality of two slices.
fn bytes_eq(a: &[u8], b: &[u8]) -> (r: bool)
    ensures
        r == (a@ == b@),
{
    let n = a.len();
    if n != b.len() {
        return false;
    }
    let mut i: usize = 0;
    while i < n
        invariant
            n == a@.len(),
            n == b@.len(),
            i <= n,
            forall|j: int| 0 <= j < i ==> a@[j] == b@[j],
        decreases n - i,
    {
        if a[i] != b[i] {
            return false;
        }
        i = i + 1;
    }
    assert(a@ =~= b@);
    true
}

/// String equality by content.
pub fn str_eq(a: &str, b: &str) -> (r: bool)
    ensures
        r == (a@ == b@),
{
    let r = bytes_eq(a.as_bytes(), b.as_bytes());
    proof {
        encode_utf8_decode_utf8(a@);
        encode_utf8_decode_utf8(b@);
    }
    r
}

// ---------------------------------------------------------------------------
// Runtime biome of a grammar family id
// ---------------------------------------------------------------------------

/// Bytes `j` and `j + 1` are `__`.
pub open spec fn sep_at(b: Seq<u8>, j: int) -> bool {
    0 <= j && j + 1 < b.len() && b[j] == 0x5f && b[j + 1] == 0x5f
}

/// The first `__` at or after `i`, or the length when there is none.
pub open spec fn sep_from(b: Seq<u8>, i: int) -> int
    decreases b.len() - i,
{
    if i < 0 || i + 1 >= b.len() {
        b.len() as int
    } else if sep_at(b, i) {
        i
    } else {
        sep_from(b, i + 1)
    }
}

/// The stem of a family id: its bytes before the first `__` (`split_once`).
pub open spec fn stem_bytes(b: Seq<u8>) -> Seq<u8> {
    b.subrange(0, sep_from(b, 0))
}

/// The runtime biome of a family id: its stem, except that `badlands` routes to
/// `desert` (no badlands runtime yet).
pub open spec fn runtime_biome_bytes(b: Seq<u8>) -> Seq<u8> {
    if decode_utf8(stem_bytes(b)) == "badlands"@ {
        "desert".spec_bytes()
    } else {
        stem_bytes(b)
    }
}

proof fn lemma_sep_from_bounds(b: Seq<u8>, i: int)
    requires
        0 <= i,
    ensures
        i <= sep_from(b, i) <= b.len() || (i > b.len() && sep_from(b, i) == b.len()),
        sep_from(b, i) == b.len() || sep_at(b, sep_from(b, i)),
        forall|j: int| i <= j < sep_from(b, i) ==> !sep_at(b, j),
    decreases b.len() - i,
{
    if i + 1 < b.len() && !sep_at(b, i) {
        lemma_sep_from_bounds(b, i + 1);
    }
}

/// An index whose byte is ASCII (or the end) is a char boundary of valid UTF-8.
proof fn lemma_ascii_boundary(bytes: Seq<u8>, idx: int)
    requires
        valid_utf8(bytes),
        0 <= idx <= bytes.len(),
        idx == bytes.len() || bytes[idx] <= 0x7f,
    ensures
        is_char_boundary(bytes, idx),
    decreases bytes.len(),
{
    if idx != 0 {
        let l = length_of_first_scalar(bytes);
        assert(l <= idx);
        let rest = pop_first_scalar(bytes);
        assert(rest.len() == bytes.len() - l);
        if idx < bytes.len() {
            assert(rest[idx - l] == bytes[idx]);
        }
        lemma_ascii_boundary(rest, idx - l);
    }
}

/// Runtime biome of a grammar family id: the stem before `__`, with `badlands`
/// routed to `desert`.
pub fn runtime_biome_from_family_id(family_id: &str) -> (biome: &str)
    ensures
        biome.spec_bytes() == runtime_biome_bytes(family_id.spec_bytes()),
{
    let bytes = family_id.as_bytes();
    let n = bytes.len();
    let mut i: usize = 0;
    let mut mid: usize = n;
    while n > 0 && i < n - 1
        invariant_except_break
            mid == n,
        invariant
            n == bytes@.len(),
            bytes@ == family_id.spec_bytes(),
            i <= n,
            sep_from(bytes@, i as int) == sep_from(bytes@, 0),
        ensures
            mid as int == sep_from(bytes@, 0),
        decreases n - i,
    {
        if bytes[i] == 0x5f && bytes[i + 1] == 0x5f {
            mid = i;
            break;
        }
        i = i + 1;
    }
    proof {
        lemma_sep_from_bounds(bytes@, 0);
        lemma_ascii_boundary(bytes@, mid as int);
    }
    let (stem, _) = family_id.split_at(mid);
    proof {
        assert(stem.spec_bytes() == stem_bytes(bytes@));
        encode_utf8_decode_utf8(stem@);
    }
    if str_eq(stem, "badlands") {
        "desert"
    } else {
        stem
    }
}

proof fn lemma_sep_from_none(b: Seq<u8>, i: int)
    requires
        0 <= i,
        forall|j: int| i <= j ==> !sep_at(b, j),
    ensures
        sep_from(b, i) == b.len(),
    decreases b.len() - i,
{
    if i + 1 < b.len() {
        lemma_sep_from_none(b, i + 1);
    }
}

proof fn lemma_stem_has_no_sep(b: Seq<u8>)
    ensures
        stem_bytes(stem_bytes(b)) == stem_bytes(b),
{
    lemma_sep_from_bounds(b, 0);
    let st = stem_bytes(b);
    assert forall|j: int| 0 <= j implies !sep_at(st, j) by {
        if sep_at(st, j) {
            assert(sep_at(b, j));
        }
    }
    lemma_sep_from_none(st, 0);
    assert(st.subrange(0, st.len() as int) =~= st);
}

proof fn lemma_desert_is_plain()
    ensures
        stem_bytes("desert".spec_bytes()) == "desert".spec_bytes(),
        decode_utf8("desert".spec_bytes()) == "desert"@,
        "desert"@ != "badlands"@,
{
    reveal_strlit("desert");
    reveal_strlit("badlands");
    let d = "desert".spec_bytes();
    assert(vstd::string::is_ascii("desert"));
    vstd::string::is_ascii_spec_bytes("desert");
    assert forall|j: int| 0 <= j implies !sep_at(d, j) by {
        if 0 <= j < 6 {
            assert(d[j] == ("desert"@[j] as u8));
        }
    }
    lemma_sep_from_none(d, 0);
    assert(d.subrange(0, d.len() as int) =~= d);
    encode_utf8_decode_utf8("desert"@);
    assert("desert"@.len() != "badlands"@.len());
}

/// Routing a family id to its runtime biome is idempotent, and no routed biome
/// is `badlands`.
pub proof fn lemma_runtime_biome_idempotent(b: Seq<u8>)
    ensures
        runtime_biome_bytes(runtime_biome_bytes(b)) == runtime_biome_bytes(b),
        decode_utf8(runtime_biome_bytes(b)) != "badlands"@,
{
    lemma_stem_has_no_sep(b);
    lemma_desert_is_plain();
}

} // verus!
