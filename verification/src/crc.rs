//! The checksum of an SCL3300 frame: CRC-8 over the upper 24 bits, generator
//! `x^8 + x^4 + x^3 + x^2 + 1`, register preset to ones, result complemented.
use vstd::prelude::*;

verus! {

/// The generator polynomial, one bit per coefficient.
pub const GENERATOR: u32 = 0x11D;

/// Bit `index` of `word`.
pub open spec fn bit_at(word: u32, index: u32) -> u8 {
    ((word >> index) & 1) as u8
}

/// The checksum register after one more message bit: the register times `x`, with the message
/// bit added to the coefficient that leaves at the top, reduced by the generator.
pub open spec fn shift_in(register: u8, bit: u8) -> u8 {
    if (register >> 7) ^ bit == 1 {
        (register << 1) ^ 0x1D
    } else {
        register << 1
    }
}

/// The checksum register after the `count` topmost of the 24 message bits.
pub open spec fn register_after(data_24: u32, count: nat) -> u8
    decreases count,
{
    if count == 0 {
        0xFF
    } else {
        shift_in(register_after(data_24, (count - 1) as nat), bit_at(data_24, (24 - count) as u32))
    }
}

/// The checksum of the 24 low bits of `data_24`.
pub open spec fn checksum(data_24: u32) -> u8 {
    !register_after(data_24, 24)
}

/// Computes the checksum of the 24 low bits of `data_24`; the bits above them play no part.
pub fn crc8(data_24: u32) -> (crc: u8)
    ensures
        crc == checksum(data_24),
{
    let mut crc: u8 = 0xFF;
    let mut bit_index: u32 = 24;

    while bit_index > 0
        invariant
            bit_index <= 24,
            crc == register_after(data_24, (24 - bit_index) as nat),
        decreases bit_index,
    {
        bit_index = bit_index - 1;
        let ghost before = crc;
        let bit: u8 = ((data_24 >> bit_index) & 0x01) as u8;
        let mut top: u8 = crc & 0x80;
        if bit == 1 {
            top = top ^ 0x80;
        }
        crc = crc << 1;
        if top != 0 {
            crc = crc ^ 0x1D;
        }
        proof {
            assert(((data_24 >> bit_index) & 1) <= 1) by (bit_vector);
            assert(bit <= 1);
            assert(before & 0x80 != 0 <==> (before >> 7) ^ 0 == 1) by (bit_vector);
            assert((before & 0x80) ^ 0x80 != 0 <==> (before >> 7) ^ 1 == 1) by (bit_vector);
        }
    }
    !crc
}

/// The polynomial `quotient` times the generator, over the `count` low coefficients of
/// `quotient`. Addition of coefficients is exclusive or.
pub open spec fn multiple(quotient: u32, count: nat) -> u32
    decreases count,
{
    if count == 0 {
        0
    } else {
        (multiple(quotient >> 1, (count - 1) as nat) << 1) ^ (if quotient & 1 == 1 {
            GENERATOR
        } else {
            0
        })
    }
}

/// `word` is a polynomial that the generator divides.
pub open spec fn divisible(word: u32) -> bool {
    exists|quotient: u32| quotient < 0x100_0000 && #[trigger] multiple(quotient, 24) == word
}

/// The low byte of `word` is the checksum of the 24 bits above it.
pub open spec fn intact(word: u32) -> bool {
    checksum(word >> 8) == word % 0x100
}

/// The quotient that the division of the message by the generator has built up after the
/// `count` topmost message bits.
spec fn quotient_after(data_24: u32, count: nat) -> u32
    decreases count,
{
    if count == 0 {
        0
    } else {
        let before = (count - 1) as nat;
        (quotient_after(data_24, before) << 1) | (((register_after(data_24, before) >> 7) ^ bit_at(
            data_24,
            (24 - count) as u32,
        )) as u32)
    }
}

/// After `count` message bits the register is the remainder of the preset and those bits.
proof fn lemma_register_is_remainder(data_24: u32, count: nat)
    requires
        count <= 24,
    ensures
        quotient_after(data_24, count) >> (count as u32) == 0,
        multiple(quotient_after(data_24, count), count) == (0xFFu32 << (count as u32)) ^ (((data_24
            & 0xFF_FFFF) >> ((24 - count) as u32)) << 8) ^ (register_after(data_24, count) as u32),
    decreases count,
{
    if count == 0 {
        assert(0u32 >> 0u32 == 0) by (bit_vector);
        assert((0xFFu32 << 0u32) ^ (((data_24 & 0xFF_FFFF) >> 24u32) << 8) ^ 0xFFu32 == 0)
            by (bit_vector);
    } else {
        let before = (count - 1) as nat;
        lemma_register_is_remainder(data_24, before);
        let n = before as u32;
        let n1 = count as u32;
        let k = (24 - count) as u32;
        let k1 = (24 - before) as u32;
        let q = quotient_after(data_24, before);
        let r = register_after(data_24, before);
        let b = bit_at(data_24, k);
        let c = (r >> 7) ^ b;
        let q1 = (q << 1) | (c as u32);
        let word = (data_24 >> k) & 1;
        assert(word <= 1) by (bit_vector)
            requires
                word == (data_24 >> k) & 1,
        ;
        assert(c <= 1) by (bit_vector)
            requires
                c == (r >> 7) ^ b,
                b <= 1,
        ;
        assert(q1 >> 1 == q && (q1 & 1 == 1 <==> c == 1) && q1 >> n1 == 0) by (bit_vector)
            requires
                q1 == (q << 1) | (c as u32),
                c <= 1,
                q >> n == 0,
                n < 24,
                n1 == n + 1,
        ;
        let p = multiple(q, before);
        let t = (data_24 & 0xFF_FFFF) >> k1;
        let t1 = (data_24 & 0xFF_FFFF) >> k;
        assert(t1 == (t << 1) | (b as u32) && t < 0x80_0000) by (bit_vector)
            requires
                t == (data_24 & 0xFF_FFFF) >> k1,
                t1 == (data_24 & 0xFF_FFFF) >> k,
                b == ((data_24 >> k) & 1) as u8,
                k1 == k + 1,
                k < 24,
        ;
        let r1 = shift_in(r, b);
        let g = if q1 & 1 == 1 {
            GENERATOR
        } else {
            0
        };
        assert(((p << 1) ^ g) == (0xFFu32 << n1) ^ (t1 << 8) ^ (r1 as u32)) by (bit_vector)
            requires
                p == (0xFFu32 << n) ^ (t << 8) ^ (r as u32),
                n < 24,
                n1 == n + 1,
                t1 == (t << 1) | (b as u32),
                b <= 1,
                c == (r >> 7) ^ b,
                g == (if c == 1 { 0x11Du32 } else { 0u32 }),
                r1 == (if c == 1 { (r << 1) ^ 0x1D } else { r << 1 }),
        ;
    }
}

/// The sum of two multiples of the generator is a multiple of the generator.
proof fn lemma_multiple_sum(a: u32, b: u32, count: nat)
    ensures
        multiple(a, count) ^ multiple(b, count) == multiple(a ^ b, count),
    decreases count,
{
    if count == 0 {
        assert(0u32 ^ 0u32 == 0) by (bit_vector);
    } else {
        let before = (count - 1) as nat;
        lemma_multiple_sum(a >> 1, b >> 1, before);
        let ma = multiple(a >> 1, before);
        let mb = multiple(b >> 1, before);
        let ga = if a & 1 == 1 {
            GENERATOR
        } else {
            0
        };
        let gb = if b & 1 == 1 {
            GENERATOR
        } else {
            0
        };
        let gs = if (a ^ b) & 1 == 1 {
            GENERATOR
        } else {
            0
        };
        assert((a >> 1) ^ (b >> 1) == (a ^ b) >> 1 && ((ma << 1) ^ ga) ^ ((mb << 1) ^ gb) == ((ma
            ^ mb) << 1) ^ gs) by (bit_vector)
            requires
                ga == (if a & 1 == 1 { 0x11Du32 } else { 0u32 }),
                gb == (if b & 1 == 1 { 0x11Du32 } else { 0u32 }),
                gs == (if (a ^ b) & 1 == 1 { 0x11Du32 } else { 0u32 }),
        ;
    }
}

/// A multiple of the generator has no term above those of its factors, and one of degree below
/// eight is zero.
proof fn lemma_small_multiple(quotient: u32, count: nat)
    requires
        count <= 24,
        quotient >> (count as u32) == 0,
    ensures
        count < 24 ==> multiple(quotient, count) >> ((count + 8) as u32) == 0,
        multiple(quotient, count) < 0x100 ==> quotient == 0,
        multiple(quotient, count) & 1 == quotient & 1,
    decreases count,
{
    let n = count as u32;
    if count == 0 {
        assert(quotient == 0 && 0u32 >> 8u32 == 0) by (bit_vector)
            requires
                quotient >> n == 0,
                n == 0,
        ;
    } else {
        let before = (count - 1) as nat;
        let half = quotient >> 1;
        let n0 = before as u32;
        assert(half >> n0 == 0) by (bit_vector)
            requires
                half == quotient >> 1,
                quotient >> n == 0,
                n == n0 + 1,
                n <= 24,
        ;
        lemma_small_multiple(half, before);
        let p = multiple(half, before);
        let g = if quotient & 1 == 1 {
            GENERATOR
        } else {
            0
        };
        let m = (p << 1) ^ g;
        assert((n < 24 ==> m >> ((n + 8) as u32) == 0) && (m < 0x100 ==> p < 0x100) && m & 1
            == quotient & 1) by (bit_vector)
            requires
                m == (p << 1) ^ g,
                g == (if quotient & 1 == 1 { 0x11Du32 } else { 0u32 }),
                p >> ((n0 + 8) as u32) == 0,
                n == n0 + 1,
                n <= 24,
        ;
        if m < 0x100 {
            assert(multiple(0, before) == 0) by {
                lemma_multiple_sum(half, half, before);
                assert(half ^ half == 0 && p ^ p == 0) by (bit_vector);
            }
            assert(quotient == 0) by (bit_vector)
                requires
                    quotient >> 1 == 0,
                    m < 0x100,
                    m == (0u32 << 1) ^ g,
                    g == (if quotient & 1 == 1 { 0x11Du32 } else { 0u32 }),
            ;
        }
    }
}

/// A frame is intact exactly if the generator divides it once the preset of the register and the
/// complement of the checksum are taken out. As only one low byte makes a word divisible, this
/// says what the checksum of 24 given bits is.
pub proof fn intact_iff_divisible(word: u32)
    ensures
        intact(word) <==> divisible(word ^ 0xFF00_00FF),
{
    let data = word >> 8;
    let reg = register_after(data, 24);
    let q = quotient_after(data, 24);
    lemma_register_is_remainder(data, 24);
    let low = (word % 0x100) as u8;
    let exact = multiple(q, 24);
    assert(q < 0x100_0000) by (bit_vector)
        requires
            q >> 24u32 == 0,
    ;
    let target = word ^ 0xFF00_00FF;
    let gap = exact ^ target;
    assert(gap < 0x100 && (gap == 0 <==> !reg == low)) by (bit_vector)
        requires
            gap == exact ^ target,
            target == word ^ 0xFF00_00FF,
            exact == (0xFFu32 << 24u32) ^ (((data & 0xFF_FFFF) >> 0u32) << 8) ^ (reg as u32),
            data == word >> 8,
            low == (word % 0x100) as u8,
    ;
    if intact(word) {
        assert(exact == target) by (bit_vector)
            requires
                exact ^ target == 0,
        ;
    }
    if divisible(target) {
        let other = choose|quotient: u32|
            quotient < 0x100_0000 && #[trigger] multiple(quotient, 24) == target;
        lemma_multiple_sum(q, other, 24);
        let sum = q ^ other;
        assert(sum >> 24u32 == 0) by (bit_vector)
            requires
                sum == q ^ other,
                q < 0x100_0000,
                other < 0x100_0000,
        ;
        lemma_small_multiple(sum, 24);
        assert(q == other) by (bit_vector)
            requires
                q ^ other == 0,
        ;
        assert(exact ^ target == 0) by (bit_vector)
            requires
                exact == target,
        ;
    }
}

/// What two intact frames differ by is divisible by the generator.
proof fn lemma_difference_divisible(a: u32, b: u32)
    requires
        intact(a),
        intact(b),
    ensures
        divisible(a ^ b),
{
    intact_iff_divisible(a);
    intact_iff_divisible(b);
    let ta = a ^ 0xFF00_00FF;
    let tb = b ^ 0xFF00_00FF;
    let qa = choose|quotient: u32|
        quotient < 0x100_0000 && #[trigger] multiple(quotient, 24) == ta;
    let qb = choose|quotient: u32|
        quotient < 0x100_0000 && #[trigger] multiple(quotient, 24) == tb;
    lemma_multiple_sum(qa, qb, 24);
    assert(ta ^ tb == a ^ b && qa ^ qb < 0x100_0000) by (bit_vector)
        requires
            ta == a ^ 0xFF00_00FF,
            tb == b ^ 0xFF00_00FF,
            qa < 0x100_0000,
            qb < 0x100_0000,
    ;
}

/// The checksum register after the eight bits of one more message byte.
pub open spec fn shift_in_byte(register: u8, byte: u8) -> u8 {
    let r1 = shift_in(register, (byte >> 7) & 1);
    let r2 = shift_in(r1, (byte >> 6) & 1);
    let r3 = shift_in(r2, (byte >> 5) & 1);
    let r4 = shift_in(r3, (byte >> 4) & 1);
    let r5 = shift_in(r4, (byte >> 3) & 1);
    let r6 = shift_in(r5, (byte >> 2) & 1);
    let r7 = shift_in(r6, (byte >> 1) & 1);
    shift_in(r7, byte & 1)
}

/// The checksum register taken through the message byte by byte.
pub open spec fn checksum_by_bytes(data_24: u32) -> u8 {
    !shift_in_byte(
        shift_in_byte(shift_in_byte(0xFF, (data_24 >> 16) as u8), (data_24 >> 8) as u8),
        data_24 as u8,
    )
}

/// A byte of the message takes the register eight bits further.
proof fn lemma_byte_is_eight_bits(data_24: u32, count: nat, byte: u8)
    requires
        count == 0 || count == 8 || count == 16,
        byte == (data_24 >> ((16 - count) as u32)) as u8,
    ensures
        register_after(data_24, count + 8) == shift_in_byte(register_after(data_24, count), byte),
{
    let n = (16 - count) as u32;
    let (n1, n2, n3, n4, n5, n6, n7) = (
        (n + 1) as u32,
        (n + 2) as u32,
        (n + 3) as u32,
        (n + 4) as u32,
        (n + 5) as u32,
        (n + 6) as u32,
        (n + 7) as u32,
    );
    assert({
        &&& ((data_24 >> n7) & 1) as u8 == (byte >> 7) & 1
        &&& ((data_24 >> n6) & 1) as u8 == (byte >> 6) & 1
        &&& ((data_24 >> n5) & 1) as u8 == (byte >> 5) & 1
        &&& ((data_24 >> n4) & 1) as u8 == (byte >> 4) & 1
        &&& ((data_24 >> n3) & 1) as u8 == (byte >> 3) & 1
        &&& ((data_24 >> n2) & 1) as u8 == (byte >> 2) & 1
        &&& ((data_24 >> n1) & 1) as u8 == (byte >> 1) & 1
        &&& ((data_24 >> n) & 1) as u8 == byte & 1
    }) by (bit_vector)
        requires
            byte == (data_24 >> n) as u8,
            n <= 16,
            n1 == n + 1,
            n2 == n + 2,
            n3 == n + 3,
            n4 == n + 4,
            n5 == n + 5,
            n6 == n + 6,
            n7 == n + 7,
    ;
    reveal_with_fuel(register_after, 9);
}

/// The checksum can be taken byte by byte.
pub proof fn checksum_goes_by_bytes(data_24: u32)
    ensures
        checksum(data_24) == checksum_by_bytes(data_24),
{
    assert(data_24 >> 0u32 == data_24) by (bit_vector);
    lemma_byte_is_eight_bits(data_24, 0, (data_24 >> 16) as u8);
    lemma_byte_is_eight_bits(data_24, 8, (data_24 >> 8) as u8);
    lemma_byte_is_eight_bits(data_24, 16, data_24 as u8);
}

/// No polynomial of at most eight consecutive terms, and none of two terms, is divisible by the
/// generator.
proof fn lemma_short_or_sparse_not_divisible(error: u32, burst: u32, shift: u32, i: u32, j: u32)
    requires
        (0 < burst < 0x100 && shift <= 24 && error == burst << shift) || (i < 32 && j < 32 && i != j
            && error == (1u32 << i) ^ (1u32 << j)),
    ensures
        !divisible(error),
{
    let word = error ^ 0xFF00_00FF;
    let data = word >> 8;
    intact_iff_divisible(word);
    checksum_goes_by_bytes(data);
    let r1 = shift_in_byte(0xFF, (data >> 16) as u8);
    let r2 = shift_in_byte(r1, (data >> 8) as u8);
    let r3 = shift_in_byte(r2, data as u8);
    assert(word ^ 0xFF00_00FF == error && !r3 != (word % 0x100) as u8) by (bit_vector)
        requires
            (0 < burst < 0x100 && shift <= 24 && error == burst << shift) || (i < 32 && j < 32 && i
                != j && error == (1u32 << i) ^ (1u32 << j)),
            word == error ^ 0xFF00_00FF,
            data == word >> 8,
            r1 == shift_in_byte(0xFF, (data >> 16) as u8),
            r2 == shift_in_byte(r1, (data >> 8) as u8),
            r3 == shift_in_byte(r2, data as u8),
    ;
}

/// A frame that was hit by an error in at most eight neighbouring bits is not intact.
pub proof fn burst_errors_are_detected(word: u32, burst: u8, shift: u32)
    requires
        intact(word),
        burst != 0,
        shift <= 24,
    ensures
        !intact(word ^ ((burst as u32) << shift)),
{
    let error = (burst as u32) << shift;
    let hit = word ^ error;
    if intact(hit) {
        lemma_difference_divisible(word, hit);
        assert(word ^ (word ^ error) == error) by (bit_vector);
        lemma_short_or_sparse_not_divisible(error, burst as u32, shift, 0, 0);
    }
}

/// A frame in which any two bits were flipped is not intact.
pub proof fn double_bit_errors_are_detected(word: u32, i: u32, j: u32)
    requires
        intact(word),
        i < 32,
        j < 32,
        i != j,
    ensures
        !intact(word ^ ((1u32 << i) ^ (1u32 << j))),
{
    let error = (1u32 << i) ^ (1u32 << j);
    let hit = word ^ error;
    if intact(hit) {
        lemma_difference_divisible(word, hit);
        assert(word ^ (word ^ error) == error) by (bit_vector);
        lemma_short_or_sparse_not_divisible(error, 0, 0, i, j);
    }
}

/// The checksum depends on the 24 low bits alone.
pub proof fn checksum_ignores_top_byte(data_24: u32)
    ensures
        checksum(data_24) == checksum(data_24 & 0xFF_FFFF),
{
    lemma_register_ignores_top_byte(data_24, 24);
}

proof fn lemma_register_ignores_top_byte(data_24: u32, count: nat)
    requires
        count <= 24,
    ensures
        register_after(data_24, count) == register_after(data_24 & 0xFF_FFFF, count),
    decreases count,
{
    if count > 0 {
        lemma_register_ignores_top_byte(data_24, (count - 1) as nat);
        let k = (24 - count) as u32;
        assert((data_24 >> k) & 1 == ((data_24 & 0xFF_FFFF) >> k) & 1) by (bit_vector)
            requires
                k < 24,
        ;
    }
}

/// The register is an affine function of the message.
proof fn lemma_register_is_affine(a: u32, b: u32, count: nat)
    requires
        count <= 24,
    ensures
        register_after(a ^ b, count) == register_after(a, count) ^ register_after(b, count)
            ^ register_after(0, count),
    decreases count,
{
    if count == 0 {
        assert(0xFFu8 ^ 0xFF ^ 0xFF == 0xFF) by (bit_vector);
    } else {
        let before = (count - 1) as nat;
        lemma_register_is_affine(a, b, before);
        let k = (24 - count) as u32;
        let (ra, rb) = (register_after(a, before), register_after(b, before));
        let (rs, r0) = (register_after(a ^ b, before), register_after(0, before));
        assert(shift_in(rs, bit_at(a ^ b, k)) == shift_in(ra, bit_at(a, k)) ^ shift_in(
            rb,
            bit_at(b, k),
        ) ^ shift_in(r0, bit_at(0, k))) by (bit_vector)
            requires
                rs == ra ^ rb ^ r0,
                k < 24,
        ;
    }
}

/// Bits of the message that are flipped flip the same bits of the checksum whatever the message is:
/// the checksum of a sum of messages is the sum of their checksums, up to that of the zero message.
pub proof fn checksum_is_affine(a: u32, b: u32)
    ensures
        checksum(a ^ b) == checksum(a) ^ checksum(b) ^ checksum(0),
{
    lemma_register_is_affine(a, b, 24);
    let (ra, rb) = (register_after(a, 24), register_after(b, 24));
    let r0 = register_after(0, 24);
    assert(!(ra ^ rb ^ r0) == (!ra) ^ (!rb) ^ (!r0)) by (bit_vector);
}

/// The checksums of the zero message and of each message of one bit. As the checksum is affine, they
/// determine the checksum of every message.
pub proof fn checksum_of_one_bit(index: u32)
    requires
        index < 24,
    ensures
        checksum(0) == 0xF1,
        checksum(1u32 << index) == seq![
            0xECu8, 0xCB, 0x85, 0x19, 0x3C, 0x76, 0xE2, 0xD7, 0xBD, 0x69, 0xDC, 0xAB,
            0x45, 0x84, 0x1B, 0x38, 0x7E, 0xF2, 0xF7, 0xFD, 0xE9, 0xC1, 0x91, 0x31,
        ][index as int],
{
    let z1 = shift_in_byte(0xFF, (0u32 >> 16) as u8);
    let z2 = shift_in_byte(z1, (0u32 >> 8) as u8);
    let z3 = shift_in_byte(z2, 0u32 as u8);
    checksum_goes_by_bytes(0);
    let data = 1u32 << index;
    checksum_goes_by_bytes(data);
    let r1 = shift_in_byte(0xFF, (data >> 16) as u8);
    let r2 = shift_in_byte(r1, (data >> 8) as u8);
    let r3 = shift_in_byte(r2, data as u8);
    assert({
        &&& !z3 == 0xF1
        &&& (index == 0 ==> !r3 == 0xEC) && (index == 1 ==> !r3 == 0xCB)
        &&& (index == 2 ==> !r3 == 0x85) && (index == 3 ==> !r3 == 0x19)
        &&& (index == 4 ==> !r3 == 0x3C) && (index == 5 ==> !r3 == 0x76)
        &&& (index == 6 ==> !r3 == 0xE2) && (index == 7 ==> !r3 == 0xD7)
        &&& (index == 8 ==> !r3 == 0xBD) && (index == 9 ==> !r3 == 0x69)
        &&& (index == 10 ==> !r3 == 0xDC) && (index == 11 ==> !r3 == 0xAB)
        &&& (index == 12 ==> !r3 == 0x45) && (index == 13 ==> !r3 == 0x84)
        &&& (index == 14 ==> !r3 == 0x1B) && (index == 15 ==> !r3 == 0x38)
        &&& (index == 16 ==> !r3 == 0x7E) && (index == 17 ==> !r3 == 0xF2)
        &&& (index == 18 ==> !r3 == 0xF7) && (index == 19 ==> !r3 == 0xFD)
        &&& (index == 20 ==> !r3 == 0xE9) && (index == 21 ==> !r3 == 0xC1)
        &&& (index == 22 ==> !r3 == 0x91) && (index == 23 ==> !r3 == 0x31)
    }) by (bit_vector)
        requires
            data == 1u32 << index,
            r1 == shift_in_byte(0xFF, (data >> 16) as u8),
            r2 == shift_in_byte(r1, (data >> 8) as u8),
            r3 == shift_in_byte(r2, data as u8),
            z1 == shift_in_byte(0xFF, (0u32 >> 16) as u8),
            z2 == shift_in_byte(z1, (0u32 >> 8) as u8),
            z3 == shift_in_byte(z2, 0u32 as u8),
    ;
}

} // verus!
