use vstd::prelude::*;
use vstd::arithmetic::div_mod::{
    lemma_div_multiples_vanish, lemma_fundamental_div_mod, lemma_fundamental_div_mod_converse,
};
use vstd::arithmetic::mul::{lemma_mul_is_commutative, lemma_mul_upper_bound};

verus! {

/// Byte offset of the legacy MBR partition table within a disk.
pub const TABLE_OFFSET: u64 = 0x1BE;

/// Size in bytes of the table: four entries of sixteen bytes each.
pub const TABLE_SIZE: u64 = 64;

/// A proportional scale factor `num / den`, the exact ratio of the
/// destination capacity to the source capacity. Kept as a ratio so that
/// scaled lengths are defined by integer arithmetic alone.
#[derive(Debug, Clone, Copy, PartialEq, Eq, Structural)]
pub struct ScaleFactor {
    pub num: u64,
    pub den: u64,
}

impl ScaleFactor {
    pub open spec fn wf(&self) -> bool {
        self.den > 0
    }

    pub fn new(num: u64, den: u64) -> (r: ScaleFactor)
        requires
            den > 0,
        ensures
            r == (ScaleFactor { num, den }),
            r.wf(),
    {
        ScaleFactor { num, den }
    }
}

/// The unsigned 32-bit value stored little-endian in the four bytes of
/// `t` starting at `i`.
pub open spec fn le32_at(t: Seq<u8>, i: int) -> int {
    t[i] + 256 * (t[i + 1] + 256 * (t[i + 2] + 256 * t[i + 3]))
}

/// The four little-endian bytes of the unsigned 32-bit value `v`.
pub open spec fn le32_bytes(v: int) -> Seq<u8> {
    seq![
        (v % 256) as u8,
        ((v / 256) % 256) as u8,
        ((v / 65536) % 256) as u8,
        ((v / 16777216) % 256) as u8,
    ]
}

/// A partition length after scaling: multiplied by `num / den` and
/// truncated toward zero (integer division of non-negative values).
pub open spec fn scale_len(len: int, num: int, den: int) -> int {
    (len * num) / den
}

/// One 16-byte partition entry after rescaling: an empty entry (type code
/// zero at byte 4) is left untouched; otherwise bytes 0 through 11 (type
/// code and start sector among them) are kept bit-for-bit and bytes 12
/// through 15 hold the scaled length, little-endian.
pub open spec fn entry_scaled(e: Seq<u8>, num: int, den: int) -> Seq<u8> {
    if e[4] == 0 {
        e
    } else {
        e.take(12) + le32_bytes(scale_len(le32_at(e, 12), num, den))
    }
}

/// Whether the scaled length of this entry no longer fits its 32-bit
/// field. Empty entries never overflow: they are not scaled.
pub open spec fn entry_overflows(e: Seq<u8>, num: int, den: int) -> bool {
    e[4] != 0 && scale_len(le32_at(e, 12), num, den) > u32::MAX
}

/// The first `e` entries of the table after rescaling, concatenated.
pub open spec fn scaled_entries(t: Seq<u8>, num: int, den: int, e: int) -> Seq<u8>
    decreases e,
{
    if e <= 0 {
        Seq::empty()
    } else {
        scaled_entries(t, num, den, e - 1)
            + entry_scaled(t.subrange(16 * (e - 1), 16 * e), num, den)
    }
}

/// The whole 64-byte table after rescaling.
pub open spec fn table_scaled(t: Seq<u8>, num: int, den: int) -> Seq<u8> {
    scaled_entries(t, num, den, 4)
}

/// Whether any entry of the table overflows its length field when scaled.
pub open spec fn table_overflows(t: Seq<u8>, num: int, den: int) -> bool {
    exists|k: int|
        0 <= k < 4 && entry_overflows(#[trigger] t.subrange(16 * k, 16 * k + 16), num, den)
}

/// A scaled entry is as long as the original: sixteen bytes.
pub proof fn lemma_entry_scaled_len(e: Seq<u8>, num: int, den: int)
    requires
        e.len() == 16,
    ensures
        entry_scaled(e, num, den).len() == 16,
{
}

/// Each 16-byte slot of the scaled table holds the scaled image of the
/// corresponding original entry, and the table keeps its 64 bytes.
pub proof fn lemma_table_scaled_entry(t: Seq<u8>, num: int, den: int, k: int)
    requires
        t.len() == 64,
        0 <= k < 4,
    ensures
        table_scaled(t, num, den).len() == 64,
        table_scaled(t, num, den).subrange(16 * k, 16 * k + 16)
            == entry_scaled(t.subrange(16 * k, 16 * k + 16), num, den),
{
    let s0 = scaled_entries(t, num, den, 0);
    let s1 = scaled_entries(t, num, den, 1);
    let s2 = scaled_entries(t, num, den, 2);
    let s3 = scaled_entries(t, num, den, 3);
    let s4 = scaled_entries(t, num, den, 4);
    lemma_entry_scaled_len(t.subrange(0, 16), num, den);
    lemma_entry_scaled_len(t.subrange(16, 32), num, den);
    lemma_entry_scaled_len(t.subrange(32, 48), num, den);
    lemma_entry_scaled_len(t.subrange(48, 64), num, den);
    assert(s0 == Seq::<u8>::empty());
    assert(s1 == s0 + entry_scaled(t.subrange(0, 16), num, den));
    assert(s2 == s1 + entry_scaled(t.subrange(16, 32), num, den));
    assert(s3 == s2 + entry_scaled(t.subrange(32, 48), num, den));
    assert(s4 == s3 + entry_scaled(t.subrange(48, 64), num, den));
    assert(s4.subrange(16 * k, 16 * k + 16)
        =~= entry_scaled(t.subrange(16 * k, 16 * k + 16), num, den));
}

/// Reading back the four little-endian bytes of a stored 32-bit value
/// gives the bytes it came from.
pub proof fn lemma_le32_roundtrip(t: Seq<u8>, i: int)
    requires
        0 <= i,
        i + 4 <= t.len(),
    ensures
        le32_bytes(le32_at(t, i)) == t.subrange(i, i + 4),
{
    let b0 = t[i] as int;
    let b1 = t[i + 1] as int;
    let b2 = t[i + 2] as int;
    let b3 = t[i + 3] as int;
    let v = le32_at(t, i);
    assert(v == b0 + 256 * (b1 + 256 * (b2 + 256 * b3)));
    lemma_fundamental_div_mod_converse(v, 256, b1 + 256 * (b2 + 256 * b3), b0);
    assert(v % 256 == b0);
    assert(v / 256 == b1 + 256 * (b2 + 256 * b3));
    lemma_fundamental_div_mod_converse(v / 256, 256, b2 + 256 * b3, b1);
    assert((v / 256) % 256 == b1);
    assert((v / 256) / 256 == b2 + 256 * b3);
    lemma_fundamental_div_mod_converse(b2 + 256 * b3, 256, b3, b2);
    assert(v / 65536 == b2 + 256 * b3) by {
        vstd::arithmetic::div_mod::lemma_div_denominator(v, 256, 256);
    }
    assert((v / 65536) % 256 == b2);
    assert(v / 16777216 == b3) by {
        vstd::arithmetic::div_mod::lemma_div_denominator(v, 65536, 256);
        assert((b2 + 256 * b3) / 256 == b3);
    }
    assert(le32_bytes(v) =~= t.subrange(i, i + 4));
}

/// Scaling by a factor equal to one (`num == den`) leaves the whole table
/// unchanged, byte for byte.
pub proof fn lemma_rescale_identity(t: Seq<u8>, num: int, den: int)
    requires
        t.len() == 64,
        den > 0,
        num == den,
    ensures
        table_scaled(t, num, den) == t,
{
    assert forall|k: int| 0 <= k < 4 implies entry_scaled(
        #[trigger] t.subrange(16 * k, 16 * k + 16),
        num,
        den,
    ) == t.subrange(16 * k, 16 * k + 16) by {
        let e = t.subrange(16 * k, 16 * k + 16);
        if e[4] != 0 {
            let l = le32_at(e, 12);
            lemma_mul_is_commutative(l, den);
            lemma_div_multiples_vanish(l, den);
            assert(scale_len(l, num, den) == l);
            lemma_le32_roundtrip(e, 12);
            assert(e.take(12) + le32_bytes(l) =~= e);
        }
    }
    let s0 = scaled_entries(t, num, den, 0);
    let s1 = scaled_entries(t, num, den, 1);
    let s2 = scaled_entries(t, num, den, 2);
    let s3 = scaled_entries(t, num, den, 3);
    let s4 = scaled_entries(t, num, den, 4);
    assert(s0 == Seq::<u8>::empty());
    assert(s1 == s0 + t.subrange(0, 16));
    assert(s2 == s1 + t.subrange(16, 32));
    assert(s3 == s2 + t.subrange(32, 48));
    assert(s4 == s3 + t.subrange(48, 64));
    assert(s4 =~= t);
}

/// An empty entry (type code zero) is never modified, whatever the factor.
pub proof fn lemma_rescale_preserves_empty_entries(t: Seq<u8>, num: int, den: int, k: int)
    requires
        t.len() == 64,
        0 <= k < 4,
        t[16 * k + 4] == 0,
    ensures
        table_scaled(t, num, den).subrange(16 * k, 16 * k + 16)
            == t.subrange(16 * k, 16 * k + 16),
{
    lemma_table_scaled_entry(t, num, den, k);
    assert(t.subrange(16 * k, 16 * k + 16)[4] == 0);
}

/// The 32-bit value stored little-endian at offset `i` of `t`.
pub fn read_le32(t: &Vec<u8>, i: usize) -> (r: u32)
    requires
        i + 4 <= t@.len(),
    ensures
        r == le32_at(t@, i as int),
{
    let tlen: usize = t.len();
    let b0 = t[i] as u32;
    let b1 = t[i + 1] as u32;
    let b2 = t[i + 2] as u32;
    let b3 = t[i + 3] as u32;
    b0 + 256 * (b1 + 256 * (b2 + 256 * b3))
}

/// A partition length scaled by `factor`, or `None` when the result does
/// not fit the 32-bit length field.
pub fn scale_length(len: u32, factor: &ScaleFactor) -> (r: Option<u32>)
    requires
        factor.wf(),
    ensures
        match r {
            Some(v) => scale_len(len as int, factor.num as int, factor.den as int) <= u32::MAX
                && v == scale_len(len as int, factor.num as int, factor.den as int),
            None => scale_len(len as int, factor.num as int, factor.den as int) > u32::MAX,
        },
{
    proof {
        lemma_mul_upper_bound(len as int, u32::MAX as int, factor.num as int, u64::MAX as int);
    }
    let prod: u128 = (len as u128) * (factor.num as u128);
    let scaled: u128 = prod / (factor.den as u128);
    if scaled > 0xFFFF_FFFFu128 {
        None
    } else {
        Some(scaled as u32)
    }
}

/// The rescaled image of a 64-byte partition table, or `None` when some
/// non-empty entry's scaled length would overflow its field. Empty
/// entries are copied untouched; of the others only the length field
/// changes.
pub fn rescale_table(t: &Vec<u8>, factor: &ScaleFactor) -> (r: Option<Vec<u8>>)
    requires
        t@.len() == 64,
        factor.wf(),
    ensures
        match r {
            Some(out) => !table_overflows(t@, factor.num as int, factor.den as int)
                && out@ == table_scaled(t@, factor.num as int, factor.den as int),
            None => table_overflows(t@, factor.num as int, factor.den as int),
        },
{
    let ghost num = factor.num as int;
    let ghost den = factor.den as int;
    let mut out: Vec<u8> = Vec::new();
    let mut e: usize = 0;
    while e < 4
        invariant
            t@.len() == 64,
            factor.wf(),
            num == factor.num as int,
            den == factor.den as int,
            e <= 4,
            out@ == scaled_entries(t@, num, den, e as int),
            forall|k: int|
                0 <= k < e ==> !entry_overflows(
                    #[trigger] t@.subrange(16 * k, 16 * k + 16),
                    num,
                    den,
                ),
        decreases 4 - e,
    {
        let base: usize = 16 * e;
        let ghost entry = t@.subrange(base as int, base + 16);
        let ghost pref = scaled_entries(t@, num, den, e as int);
        if t[base + 4] == 0 {
            let mut j: usize = 0;
            while j < 16
                invariant
                    t@.len() == 64,
                    base + 16 <= 64,
                    j <= 16,
                    entry == t@.subrange(base as int, base + 16),
                    out@ == pref + entry.take(j as int),
                decreases 16 - j,
            {
                out.push(t[base + j]);
                assert(out@ =~= pref + entry.take(j + 1));
                j = j + 1;
            }
            proof {
                assert(entry.take(16) =~= entry);
                assert(entry[4] == 0);
                assert(out@ == pref + entry_scaled(entry, num, den));
            }
        } else {
            let l: u32 = read_le32(t, base + 12);
            proof {
                assert(le32_at(t@, base + 12) == le32_at(entry, 12));
            }
            match scale_length(l, factor) {
                None => {
                    proof {
                        assert(entry_overflows(t@.subrange(16 * (e as int), 16 * (e as int)
                            + 16), num, den));
                    }
                    return None;
                },
                Some(v) => {
                    let mut j: usize = 0;
                    while j < 12
                        invariant
                            t@.len() == 64,
                            base + 16 <= 64,
                            j <= 12,
                            entry == t@.subrange(base as int, base + 16),
                            out@ == pref + entry.take(j as int),
                        decreases 12 - j,
                    {
                        out.push(t[base + j]);
                        assert(out@ =~= pref + entry.take(j + 1));
                        j = j + 1;
                    }
                    out.push((v % 256) as u8);
                    out.push(((v / 256) % 256) as u8);
                    out.push(((v / 65536) % 256) as u8);
                    out.push(((v / 16777216) % 256) as u8);
                    proof {
                        assert(seq![
                            (v as int % 256) as u8,
                            ((v as int / 256) % 256) as u8,
                            ((v as int / 65536) % 256) as u8,
                            ((v as int / 16777216) % 256) as u8,
                        ] =~= le32_bytes(v as int));
                        assert(v as int == scale_len(le32_at(entry, 12), num, den));
                        assert(out@ =~= pref + entry_scaled(entry, num, den));
                    }
                },
            }
        }
        e = e + 1;
    }
    proof {
        assert(!table_overflows(t@, num, den));
    }
    Some(out)
}

} // verus!
