use vstd::prelude::*;

verus! {

/// Replaces a seed that mixes to zero, where xorshift would stay stuck.
pub const NONZERO_FALLBACK_STATE: u64 = 0x9E37_79B9_7F4A_7C15;

/// One step of Marsaglia's xorshift64 (shifts 13, 7, 17).
pub open spec fn xorshift_step(x: u64) -> u64 {
    let a = x ^ (x << 13u64);
    let b = a ^ (a >> 7u64);
    b ^ (b << 17u64)
}

/// The 64-bit finalizer of MurmurHash3, which spreads a seed over all bits.
pub open spec fn mix_seed(z: u64) -> u64 {
    let a = (z ^ (z >> 33u64)).wrapping_mul(0xff51_afd7_ed55_8ccd);
    let b = (a ^ (a >> 33u64)).wrapping_mul(0xc4ce_b9fe_1a85_ec53);
    b ^ (b >> 33u64)
}

/// The starting state for a seed.
pub open spec fn seed_state(seed: u64) -> u64 {
    if mix_seed(seed) == 0 {
        NONZERO_FALLBACK_STATE
    } else {
        mix_seed(seed)
    }
}

fn xorshift64(x: &mut u64) -> (r: u64)
    ensures
        *final(x) == xorshift_step(*old(x)),
        r == *final(x),
{
    *x ^= *x << 13;
    *x ^= *x >> 7;
    *x ^= *x << 17;
    *x
}

fn mix64(z: u64) -> (r: u64)
    ensures
        r == mix_seed(z),
{
    let mut z = z;
    z = (z ^ (z >> 33)).wrapping_mul(0xff51_afd7_ed55_8ccd);
    z = (z ^ (z >> 33)).wrapping_mul(0xc4ce_b9fe_1a85_ec53);
    z ^ (z >> 33)
}

/// A small deterministic generator: xorshift64 from a mixed seed.
pub struct FastRng {
    state: u64,
}

impl View for FastRng {
    type V = u64;

    closed spec fn view(&self) -> u64 {
        self.state
    }
}

impl FastRng {
    pub fn new(seed: u64) -> (r: FastRng)
        ensures
            r@ == seed_state(seed),
    {
        let mixed = mix64(seed);
        let state = if mixed == 0 {
            NONZERO_FALLBACK_STATE
        } else {
            mixed
        };
        FastRng { state }
    }

    /// Advances the state and returns it.
    pub fn next_u64(&mut self) -> (r: u64)
        ensures
            final(self)@ == xorshift_step(old(self)@),
            r == final(self)@,
    {
        xorshift64(&mut self.state)
    }

    /// Advances the state and returns its top 16 bits.
    pub fn next_u16(&mut self) -> (r: u16)
        ensures
            final(self)@ == xorshift_step(old(self)@),
            r == final(self)@ >> 48u64,
    {
        let v = self.next_u64();
        assert(v >> 48u64 <= 0xffff) by (bit_vector);
        (v >> 48) as u16
    }

    /// Advances the state and returns its top 8 bits.
    pub fn next_u8(&mut self) -> (r: u8)
        ensures
            final(self)@ == xorshift_step(old(self)@),
            r == final(self)@ >> 56u64,
    {
        let v = self.next_u64();
        assert(v >> 56u64 <= 0xff) by (bit_vector);
        (v >> 56) as u8
    }
}

} // verus!
