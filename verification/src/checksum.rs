//! The CRC-32C (Castagnoli) checksum.
//!
//! The checksum is the reflected CRC with polynomial 0x82F63B78, initial value 0xFFFFFFFF
//! and final XOR 0xFFFFFFFF. It is computed bit by bit, and the computation is proved
//! against the definition below.

use vstd::prelude::*;

verus! {

/// The reflected CRC-32C polynomial.
pub const CRC32C_POLYNOMIAL: u32 = 0x82F6_3B78;

/// The initial register value, which is also XORed into the final register.
pub const CRC32C_INIT: u32 = 0xFFFF_FFFF;

/// One bit step of the register: shift right, and XOR the polynomial in when a one
/// bit was shifted out.
pub open spec fn crc32c_shift(register: u32) -> u32 {
    if register & 1 == 1 {
        (register >> 1) ^ 0x82F6_3B78u32
    } else {
        register >> 1
    }
}

/// `n` bit steps of the register.
pub open spec fn crc32c_shifts(register: u32, n: nat) -> u32
    decreases n,
{
    if n == 0 {
        register
    } else {
        crc32c_shifts(crc32c_shift(register), (n - 1) as nat)
    }
}

/// The register after taking in one byte.
pub open spec fn crc32c_byte(register: u32, byte: u8) -> u32 {
    crc32c_shifts(register ^ (byte as u32), 8)
}

/// The register after taking in all of `data`, starting from the initial value.
pub open spec fn crc32c_register(data: Seq<u8>) -> u32
    decreases data.len(),
{
    if data.len() == 0 {
        0xFFFF_FFFFu32
    } else {
        crc32c_byte(crc32c_register(data.drop_last()), data.last())
    }
}

/// The CRC-32C checksum of `data`.
pub open spec fn crc32c(data: Seq<u8>) -> u32 {
    crc32c_register(data) ^ 0xFFFF_FFFFu32
}

/// Compute the CRC-32C checksum of `data`.
pub fn crc32c_checksum(data: &[u8]) -> (checksum: u32)
    ensures
        checksum == crc32c(data@),
{
    let n = data.len();
    let mut register: u32 = CRC32C_INIT;
    let mut i: usize = 0;
    while i < n
        invariant
            n == data@.len(),
            i <= n,
            register == crc32c_register(data@.take(i as int)),
        decreases n - i,
    {
        let ghost target = crc32c_byte(register, data@[i as int]);
        let mut bits: u32 = register ^ (data[i] as u32);
        let mut k: u32 = 0;
        while k < 8
            invariant
                k <= 8,
                crc32c_shifts(bits, (8 - k) as nat) == target,
            decreases 8 - k,
        {
            bits = if bits & 1 == 1 {
                (bits >> 1) ^ CRC32C_POLYNOMIAL
            } else {
                bits >> 1
            };
            k = k + 1;
        }
        assert(data@.take(i + 1).drop_last() =~= data@.take(i as int));
        register = bits;
        i = i + 1;
    }
    assert(data@.take(n as int) =~= data@);
    register ^ CRC32C_INIT
}

/// A bit step is linear: it distributes over XOR.
pub proof fn lemma_shift_xor(a: u32, b: u32)
    ensures
        crc32c_shift(a ^ b) == crc32c_shift(a) ^ crc32c_shift(b),
{
    assert((if (a ^ b) & 1 == 1 {
        ((a ^ b) >> 1) ^ 0x82F6_3B78u32
    } else {
        (a ^ b) >> 1
    }) == (if a & 1 == 1 {
        (a >> 1) ^ 0x82F6_3B78u32
    } else {
        a >> 1
    }) ^ (if b & 1 == 1 {
        (b >> 1) ^ 0x82F6_3B78u32
    } else {
        b >> 1
    })) by (bit_vector);
}

/// A bit step maps only zero to zero.
pub proof fn lemma_shift_nonzero(a: u32)
    requires
        a != 0,
    ensures
        crc32c_shift(a) != 0,
{
    assert(a != 0 ==> (if a & 1 == 1 {
        (a >> 1) ^ 0x82F6_3B78u32
    } else {
        a >> 1
    }) != 0) by (bit_vector);
}

/// Bit steps distribute over XOR.
pub proof fn lemma_shifts_xor(a: u32, b: u32, n: nat)
    ensures
        crc32c_shifts(a ^ b, n) == crc32c_shifts(a, n) ^ crc32c_shifts(b, n),
    decreases n,
{
    if n > 0 {
        lemma_shift_xor(a, b);
        lemma_shifts_xor(crc32c_shift(a), crc32c_shift(b), (n - 1) as nat);
    }
}

/// Bit steps map only zero to zero.
pub proof fn lemma_shifts_nonzero(a: u32, n: nat)
    requires
        a != 0,
    ensures
        crc32c_shifts(a, n) != 0,
    decreases n,
{
    if n > 0 {
        lemma_shift_nonzero(a);
        lemma_shifts_nonzero(crc32c_shift(a), (n - 1) as nat);
    }
}

/// Taking in bytes into two registers keeps them apart when the registers differ and
/// the byte is the same, or when the registers are the same and the bytes differ.
pub proof fn lemma_byte_apart(r1: u32, r2: u32, x: u8, y: u8)
    requires
        (r1 != r2 && x == y) || (r1 == r2 && x != y),
    ensures
        crc32c_byte(r1, x) != crc32c_byte(r2, y),
{
    let a = r1 ^ (x as u32);
    let b = r2 ^ (y as u32);
    assert(((r1 != r2 && x == y) || (r1 == r2 && x != y)) ==> (r1 ^ (x as u32)) ^ (r2 ^ (y as u32))
        != 0) by (bit_vector);
    lemma_shifts_xor(a, b, 8);
    lemma_shifts_nonzero(a ^ b, 8);
    let sa = crc32c_shifts(a, 8);
    let sb = crc32c_shifts(b, 8);
    assert(sa ^ sb != 0 ==> sa != sb) by (bit_vector);
}

/// Registers after taking in the first `j` bytes of two sequences that differ only at
/// `i < j` differ.
proof fn lemma_registers_apart(a: Seq<u8>, b: Seq<u8>, i: int, j: int)
    requires
        a.len() == b.len(),
        0 <= i < j <= a.len(),
        a[i] != b[i],
        forall|k: int| 0 <= k < a.len() && k != i ==> a[k] == b[k],
    ensures
        crc32c_register(a.take(j)) != crc32c_register(b.take(j)),
    decreases j,
{
    assert(a.take(j).drop_last() =~= a.take(j - 1));
    assert(b.take(j).drop_last() =~= b.take(j - 1));
    if j == i + 1 {
        assert(a.take(i) =~= b.take(i));
    } else {
        lemma_registers_apart(a, b, i, j - 1);
    }
    lemma_byte_apart(crc32c_register(a.take(j - 1)), crc32c_register(b.take(j - 1)), a[j - 1], b[j - 1]);
}

/// Two byte sequences of the same length that differ in exactly one byte have different
/// CRC-32C checksums.
pub proof fn lemma_single_byte_change(a: Seq<u8>, b: Seq<u8>, i: int)
    requires
        a.len() == b.len(),
        0 <= i < a.len(),
        a[i] != b[i],
        forall|j: int| 0 <= j < a.len() && j != i ==> a[j] == b[j],
    ensures
        crc32c(a) != crc32c(b),
{
    lemma_registers_apart(a, b, i, a.len() as int);
    assert(a.take(a.len() as int) =~= a);
    assert(b.take(b.len() as int) =~= b);
    let ra = crc32c_register(a);
    let rb = crc32c_register(b);
    assert(ra != rb ==> ra ^ 0xFFFF_FFFFu32 != rb ^ 0xFFFF_FFFFu32) by (bit_vector);
}

/// The register after eight and after thirty-two bit steps from the initial value.
proof fn lemma_initial_register_shifts()
    ensures
        crc32c_shifts(0xFFFF_FFFFu32, 8) == 0xAD82_ACAEu32,
        crc32c_shifts(0xFFFF_FFFFu32, 32) == 0xB798_B438u32,
{
    assert(crc32c_shift(0xFFFFFFFFu32) == 0xFD09C487u32 && crc32c_shift(0xFD09C487u32) == 0xFC72D93Bu32 && crc32c_shift(0xFC72D93Bu32) == 0xFCCF57E5u32 && crc32c_shift(0xFCCF57E5u32) == 0xFC91908Au32 && crc32c_shift(0xFC91908Au32) == 0x7E48C845u32 && crc32c_shift(0x7E48C845u32) == 0xBDD25F5Au32 && crc32c_shift(0xBDD25F5Au32) == 0x5EE92FADu32 && crc32c_shift(0x5EE92FADu32) == 0xAD82ACAEu32 && crc32c_shift(0xAD82ACAEu32) == 0x56C15657u32 && crc32c_shift(0x56C15657u32) == 0xA9969053u32 && crc32c_shift(0xA9969053u32) == 0xD63D7351u32 && crc32c_shift(0xD63D7351u32) == 0xE9E882D0u32 && crc32c_shift(0xE9E882D0u32) == 0x74F44168u32 && crc32c_shift(0x74F44168u32) == 0x3A7A20B4u32 && crc32c_shift(0x3A7A20B4u32) == 0x1D3D105Au32 && crc32c_shift(0x1D3D105Au32) == 0x0E9E882Du32 && crc32c_shift(0x0E9E882Du32) == 0x85B97F6Eu32 && crc32c_shift(0x85B97F6Eu32) == 0x42DCBFB7u32 && crc32c_shift(0x42DCBFB7u32) == 0xA39864A3u32 && crc32c_shift(0xA39864A3u32) == 0xD33A0929u32 && crc32c_shift(0xD33A0929u32) == 0xEB6B3FECu32 && crc32c_shift(0xEB6B3FECu32) == 0x75B59FF6u32 && crc32c_shift(0x75B59FF6u32) == 0x3ADACFFBu32 && crc32c_shift(0x3ADACFFBu32) == 0x9F9B5C85u32 && crc32c_shift(0x9F9B5C85u32) == 0xCD3B953Au32 && crc32c_shift(0xCD3B953Au32) == 0x669DCA9Du32 && crc32c_shift(0x669DCA9Du32) == 0xB1B8DE36u32 && crc32c_shift(0xB1B8DE36u32) == 0x58DC6F1Bu32 && crc32c_shift(0x58DC6F1Bu32) == 0xAE980CF5u32 && crc32c_shift(0xAE980CF5u32) == 0xD5BA3D02u32 && crc32c_shift(0xD5BA3D02u32) == 0x6ADD1E81u32 && crc32c_shift(0x6ADD1E81u32) == 0xB798B438u32) by (bit_vector);
    reveal_with_fuel(crc32c_shifts, 33);
}

/// Bit steps compose: `a` steps and then `b` steps are `a + b` steps.
proof fn lemma_shifts_add(x: u32, a: nat, b: nat)
    ensures
        crc32c_shifts(crc32c_shifts(x, a), b) == crc32c_shifts(x, a + b),
    decreases a,
{
    if a > 0 {
        lemma_shifts_add(crc32c_shift(x), (a - 1) as nat, b);
        assert((a - 1) as nat + b == (a + b - 1) as nat);
    }
}

/// Eight bit steps of a value whose low byte is zero shift it right by eight bits.
proof fn lemma_shifts_high_byte(y: u32)
    requires
        y & 0xff == 0,
    ensures
        crc32c_shifts(y, 8) == y >> 8,
{
    reveal_with_fuel(crc32c_shifts, 9);
    assert(y & 0xff == 0 ==> {
        &&& y & 1 == 0
        &&& (y >> 1) & 1 == 0
        &&& ((y >> 1) >> 1) & 1 == 0
        &&& (((y >> 1) >> 1) >> 1) & 1 == 0
        &&& ((((y >> 1) >> 1) >> 1) >> 1) & 1 == 0
        &&& (((((y >> 1) >> 1) >> 1) >> 1) >> 1) & 1 == 0
        &&& ((((((y >> 1) >> 1) >> 1) >> 1) >> 1) >> 1) & 1 == 0
        &&& (((((((y >> 1) >> 1) >> 1) >> 1) >> 1) >> 1) >> 1) & 1 == 0
        &&& ((((((((y >> 1) >> 1) >> 1) >> 1) >> 1) >> 1) >> 1) >> 1) == y >> 8
    }) by (bit_vector);
}

/// Taking in the low byte of `w` into register `r` is eight bit steps of `r ^ w`, up to
/// the rest of `w` shifted down by a byte.
proof fn lemma_byte_of_word(r: u32, w: u32)
    ensures
        crc32c_shifts(r ^ w, 8) == crc32c_byte(r, (w & 0xff) as u8) ^ (w >> 8),
{
    let low = r ^ (((w & 0xff) as u8) as u32);
    let high = w & 0xFFFF_FF00u32;
    assert(r ^ w == (r ^ (((w & 0xff) as u8) as u32)) ^ (w & 0xFFFF_FF00u32) && (w & 0xFFFF_FF00u32)
        & 0xff == 0 && (w & 0xFFFF_FF00u32) >> 8 == w >> 8) by (bit_vector);
    lemma_shifts_xor(low, high, 8);
    lemma_shifts_high_byte(high);
}

/// The register after taking in one more byte.
proof fn lemma_register_push(data: Seq<u8>, byte: u8)
    ensures
        crc32c_register(data.push(byte)) == crc32c_byte(crc32c_register(data), byte),
{
    assert(data.push(byte).drop_last() =~= data);
}

/// The register after taking in the four little-endian bytes of `w` is thirty-two bit
/// steps of the register XOR `w`.
proof fn lemma_register_word(data: Seq<u8>, w: u32)
    ensures
        crc32c_register(
            data.push((w & 0xff) as u8).push(((w >> 8) & 0xff) as u8).push(
                ((w >> 16) & 0xff) as u8,
            ).push(((w >> 24) & 0xff) as u8),
        ) == crc32c_shifts(crc32c_register(data) ^ w, 32),
{
    let r0 = crc32c_register(data);
    let w1 = w >> 8;
    let w2 = w1 >> 8;
    let w3 = w2 >> 8;
    assert(((w >> 8) & 0xff) as u8 == ((w >> 8) & 0xff) as u8 && (((w >> 8) >> 8) & 0xff) as u8
        == ((w >> 16) & 0xff) as u8 && ((((w >> 8) >> 8) >> 8) & 0xff) as u8 == ((w >> 24)
        & 0xff) as u8 && (((w >> 8) >> 8) >> 8) >> 8 == 0) by (bit_vector);
    let d1 = data.push((w & 0xff) as u8);
    let d2 = d1.push(((w >> 8) & 0xff) as u8);
    let d3 = d2.push(((w >> 16) & 0xff) as u8);
    let d4 = d3.push(((w >> 24) & 0xff) as u8);
    lemma_register_push(data, (w & 0xff) as u8);
    lemma_register_push(d1, ((w >> 8) & 0xff) as u8);
    lemma_register_push(d2, ((w >> 16) & 0xff) as u8);
    lemma_register_push(d3, ((w >> 24) & 0xff) as u8);
    let r1 = crc32c_register(d1);
    let r2 = crc32c_register(d2);
    let r3 = crc32c_register(d3);
    lemma_byte_of_word(r0, w);
    lemma_byte_of_word(r1, w1);
    lemma_byte_of_word(r2, w2);
    lemma_byte_of_word(r3, w3);
    let r4 = crc32c_register(d4);
    assert(r4 ^ 0u32 == r4) by (bit_vector);
    lemma_shifts_add(r0 ^ w, 8, 24);
    lemma_shifts_add(r1 ^ w1, 8, 16);
    lemma_shifts_add(r2 ^ w2, 8, 8);
}

/// The checksum of any data followed by the little-endian bytes of its own checksum is the
/// constant residue 0x48674BC7, whatever the data.
pub proof fn lemma_checksum_residue(data: Seq<u8>)
    ensures
        ({
            let c = crc32c(data);
            crc32c(
                data + seq![
                    (c & 0xff) as u8,
                    ((c >> 8) & 0xff) as u8,
                    ((c >> 16) & 0xff) as u8,
                    ((c >> 24) & 0xff) as u8,
                ],
            ) == 0x4867_4BC7u32
        }),
{
    let c = crc32c(data);
    let r = crc32c_register(data);
    let appended = data + seq![
        (c & 0xff) as u8,
        ((c >> 8) & 0xff) as u8,
        ((c >> 16) & 0xff) as u8,
        ((c >> 24) & 0xff) as u8,
    ];
    assert(appended =~= data.push((c & 0xff) as u8).push(((c >> 8) & 0xff) as u8).push(
        ((c >> 16) & 0xff) as u8,
    ).push(((c >> 24) & 0xff) as u8));
    lemma_register_word(data, c);
    assert(r ^ (r ^ 0xFFFF_FFFFu32) == 0xFFFF_FFFFu32) by (bit_vector);
    lemma_initial_register_shifts();
    assert(0xB798_B438u32 ^ 0xFFFF_FFFFu32 == 0x4867_4BC7u32) by (bit_vector);
}

/// Registers that start apart stay apart while they take in the same bytes.
proof fn lemma_zero_prefix_registers(data: Seq<u8>, k: int)
    requires
        0 <= k <= data.len(),
    ensures
        crc32c_register((seq![0u8] + data).take(k + 1)) != crc32c_register(data.take(k)),
    decreases k,
{
    let z = seq![0u8] + data;
    if k == 0 {
        assert(z.take(1).drop_last() =~= Seq::<u8>::empty());
        assert(data.take(0) =~= Seq::<u8>::empty());
        assert(0xFFFF_FFFFu32 ^ (0u8 as u32) == 0xFFFF_FFFFu32) by (bit_vector);
        lemma_initial_register_shifts();
    } else {
        lemma_zero_prefix_registers(data, k - 1);
        assert(z.take(k + 1).drop_last() =~= z.take(k));
        assert(data.take(k).drop_last() =~= data.take(k - 1));
        assert(z[k] == data[k - 1]);
        lemma_byte_apart(
            crc32c_register(z.take(k)),
            crc32c_register(data.take(k - 1)),
            z[k],
            data[k - 1],
        );
    }
}

/// A leading zero byte changes the checksum of any data.
pub proof fn lemma_leading_zero_changes_checksum(data: Seq<u8>)
    ensures
        crc32c(seq![0u8] + data) != crc32c(data),
{
    let z = seq![0u8] + data;
    lemma_zero_prefix_registers(data, data.len() as int);
    assert(z.take(data.len() as int + 1) =~= z);
    assert(data.take(data.len() as int) =~= data);
    let a = crc32c_register(z);
    let b = crc32c_register(data);
    assert(a != b ==> a ^ 0xFFFF_FFFFu32 != b ^ 0xFFFF_FFFFu32) by (bit_vector);
}

/// The checksum is the register after all the data, with every bit flipped.
pub proof fn lemma_checksum_is_flipped_register(data: Seq<u8>)
    ensures
        crc32c(data) ^ crc32c_register(data) == 0xFFFF_FFFFu32,
{
    let r = crc32c_register(data);
    assert((r ^ 0xFFFF_FFFFu32) ^ r == 0xFFFF_FFFFu32) by (bit_vector);
}

} // verus!
