//! The sixteen-byte trailer that ends every package file: the archive's byte
//! length as an eight-byte little-endian integer, one reserved zero byte, and
//! the seven marker bytes `RMSKIN\0`. A reader seeks to the end of the file,
//! checks the marker, and reads the length to locate the archive's start.

use vstd::prelude::*;
use vstd::arithmetic::power::pow;
use vstd::arithmetic::div_mod::lemma_fundamental_div_mod;

verus! {

/// The seven marker bytes `RMSKIN\0`.
pub open spec fn marker_bytes() -> Seq<u8> {
    seq![0x52u8, 0x4du8, 0x53u8, 0x4bu8, 0x49u8, 0x4eu8, 0u8]
}

/// The `k` little-endian bytes of `n`.
pub open spec fn le_bytes(n: int, k: nat) -> Seq<u8>
    decreases k,
{
    if k == 0 {
        Seq::empty()
    } else {
        seq![(n % 256) as u8] + le_bytes(n / 256, (k - 1) as nat)
    }
}

/// The number that a little-endian byte sequence encodes.
pub open spec fn le_value(s: Seq<u8>) -> int
    decreases s.len(),
{
    if s.len() == 0 {
        0
    } else {
        s[0] + 256 * le_value(s.drop_first())
    }
}

/// A whole package file: the archive bytes, then the length, the reserved
/// byte, and the marker.
pub open spec fn rmskin_bytes(archive: Seq<u8>) -> Seq<u8> {
    archive + le_bytes(archive.len() as int, 8) + seq![0u8] + marker_bytes()
}

/// Decoding the little-endian bytes of `n` gives `n` back.
pub proof fn lemma_le_round_trip(n: int, k: nat)
    requires
        0 <= n < pow(256, k),
    ensures
        le_value(le_bytes(n, k)) == n,
    decreases k,
{
    reveal(pow);
    if k == 0 {
        assert(pow(256, 0) == 1);
    } else {
        lemma_fundamental_div_mod(n, 256);
        assert(pow(256, k) == 256 * pow(256, (k - 1) as nat));
        assert(n / 256 < pow(256, (k - 1) as nat)) by {
            if n / 256 >= pow(256, (k - 1) as nat) {
                assert(n >= 256 * pow(256, (k - 1) as nat)) by (nonlinear_arith)
                    requires
                        n == 256 * (n / 256) + n % 256,
                        n % 256 >= 0,
                        n / 256 >= pow(256, (k - 1) as nat),
                ;
            }
        }
        lemma_le_round_trip(n / 256, (k - 1) as nat);
        let s = le_bytes(n, k);
        assert(s.drop_first() =~= le_bytes(n / 256, (k - 1) as nat));
        assert(s[0] == (n % 256) as u8);
        assert(le_value(s) == n % 256 + 256 * (n / 256));
    }
}

/// The eight little-endian bytes of a 64-bit length.
fn le64_encode(n: u64) -> (r: Vec<u8>)
    ensures
        r@ == le_bytes(n as int, 8),
{
    let mut out: Vec<u8> = Vec::new();
    let mut m: u64 = n;
    let mut i: usize = 0;
    while i < 8
        invariant
            i <= 8,
            out@.len() == i,
            le_bytes(n as int, 8) =~= out@ + le_bytes(m as int, (8 - i) as nat),
        decreases 8 - i,
    {
        let ghost pre = out@;
        let ghost m0 = m as int;
        out.push((m % 256) as u8);
        m = m / 256;
        i = i + 1;
        proof {
            assert(le_bytes(m0, (8 - (i - 1)) as nat) =~= seq![(m0 % 256) as u8] + le_bytes(
                m0 / 256,
                (8 - i) as nat,
            ));
            assert(out@ =~= pre + seq![(m0 % 256) as u8]);
            assert(le_bytes(n as int, 8) =~= out@ + le_bytes(m as int, (8 - i) as nat));
        }
    }
    proof {
        assert(le_bytes(m as int, 0) =~= Seq::<u8>::empty());
        assert(out@ =~= le_bytes(n as int, 8));
    }
    out
}

/// Appends the trailer to the completed archive bytes, producing the bytes of
/// the finished package file.
pub fn append_footer(archive: Vec<u8>) -> (r: Vec<u8>)
    ensures
        r@ == rmskin_bytes(archive@),
{
    let ghost orig = archive@;
    let len: u64 = archive.len() as u64;
    let mut out = archive;
    let mut tail = le64_encode(len);
    out.append(&mut tail);
    out.push(0u8);
    out.push(0x52u8);
    out.push(0x4du8);
    out.push(0x53u8);
    out.push(0x4bu8);
    out.push(0x49u8);
    out.push(0x4eu8);
    out.push(0u8);
    proof {
        assert(out@ =~= rmskin_bytes(orig));
    }
    out
}

/// The trailer locates the archive exactly: a package file is sixteen bytes
/// longer than its archive, it ends in the marker, the byte before the marker
/// is the reserved zero, and the eight bytes before that decode to the
/// archive's length.
pub proof fn lemma_footer_locates_archive(archive: Seq<u8>)
    requires
        archive.len() <= u64::MAX,
    ensures
        rmskin_bytes(archive).len() == archive.len() as int + 16,
        rmskin_bytes(archive).subrange(
            archive.len() as int,
            archive.len() as int + 16,
        ).skip(9) =~= marker_bytes(),
        rmskin_bytes(archive)[archive.len() as int + 8] == 0u8,
        le_value(rmskin_bytes(archive).subrange(archive.len() as int, archive.len() as int + 8))
            == archive.len(),
        rmskin_bytes(archive).subrange(0, archive.len() as int) =~= archive,
{
    let p = rmskin_bytes(archive);
    assert(le_bytes(archive.len() as int, 8).len() == 8) by {
        lemma_le_bytes_len(archive.len() as int, 8);
    }
    assert(p.subrange(archive.len() as int, archive.len() as int + 8) =~= le_bytes(
        archive.len() as int,
        8,
    ));
    assert(archive.len() < pow(256, 8)) by {
        reveal_with_fuel(pow, 9);
        assert(pow(256, 8) == 0x1_0000_0000_0000_0000);
    }
    lemma_le_round_trip(archive.len() as int, 8);
}

/// `le_bytes` always has exactly `k` bytes.
pub proof fn lemma_le_bytes_len(n: int, k: nat)
    ensures
        le_bytes(n, k).len() == k,
    decreases k,
{
    if k > 0 {
        lemma_le_bytes_len(n / 256, (k - 1) as nat);
    }
}

} // verus!
