use vstd::prelude::*;

verus! {

/// The sum of all bytes, as an unbounded integer.
pub open spec fn byte_sum(data: Seq<u8>) -> nat
    decreases data.len(),
{
    if data.len() == 0 {
        0
    } else {
        byte_sum(data.drop_last()) + data.last() as nat
    }
}

/// The checksum of a byte sequence: the sum of its bytes, wrapped modulo 2^32.
pub open spec fn checksum_of(data: Seq<u8>) -> u32 {
    (byte_sum(data) % 0x1_0000_0000) as u32
}

/// Adds up the bytes of `data` with wrapping 32-bit arithmetic.
pub fn calculate_checksum(data: &[u8]) -> (r: u32)
    ensures
        r == checksum_of(data@),
{
    let mut checksum: u32 = 0;
    let mut i: usize = 0;
    while i < data.len()
        invariant
            0 <= i <= data.len(),
            checksum as nat == byte_sum(data@.subrange(0, i as int)) % 0x1_0000_0000,
        decreases data.len() - i,
    {
        let byte = data[i];
        proof {
            let prefix = data@.subrange(0, i as int);
            let next = data@.subrange(0, i + 1);
            assert(next.drop_last() =~= prefix);
            assert(next.last() == byte);
            assert(byte_sum(next) == byte_sum(prefix) + byte as nat);
            lemma_wrapping_step(byte_sum(prefix), checksum as nat, byte as nat);
        }
        checksum = checksum.wrapping_add(byte as u32);
        i = i + 1;
    }
    assert(data@.subrange(0, data.len() as int) =~= data@);
    checksum
}

proof fn lemma_wrapping_step(total: nat, acc: nat, b: nat)
    requires
        acc == total % 0x1_0000_0000,
    ensures
        (acc + b) % 0x1_0000_0000 == (total + b) % 0x1_0000_0000,
{
    vstd::arithmetic::div_mod::lemma_add_mod_noop(total as int, b as int, 0x1_0000_0000);
    vstd::arithmetic::div_mod::lemma_mod_twice(b as int, 0x1_0000_0000);
    vstd::arithmetic::div_mod::lemma_add_mod_noop(acc as int, b as int, 0x1_0000_0000);
    vstd::arithmetic::div_mod::lemma_mod_twice(total as int, 0x1_0000_0000);
}

/// Tells whether `checksum` is the checksum of `data`.
pub fn verify_checksum(data: &[u8], checksum: u32) -> (r: bool)
    ensures
        r == (checksum_of(data@) == checksum),
{
    calculate_checksum(data) == checksum
}

} // verus!
