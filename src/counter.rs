use vstd::prelude::*;

verus! {

/// 256 to the power `n`.
pub open spec fn pow256(n: nat) -> nat
    decreases n,
{
    if n == 0 {
        1
    } else {
        256 * pow256((n - 1) as nat)
    }
}

/// The eight bytes of `x`, most significant first.
pub open spec fn be_bytes(x: nat) -> Seq<u8> {
    Seq::new(8, |i: int| ((x / pow256((7 - i) as nat)) % 256) as u8)
}

/// The moving factor of time `t`: the index of its window of `timestep`
/// seconds counted from the Unix epoch, rounded down.
pub open spec fn window_index(t: int, timestep: int) -> int
    recommends
        timestep > 0,
{
    t / timestep
}

/// The 64-bit two's complement word that holds a window index.
pub open spec fn index_word(idx: int) -> nat {
    if idx >= 0 {
        idx as nat
    } else {
        (idx + 0x1_0000_0000_0000_0000) as nat
    }
}

/// The eight-byte counter of TOTP at time `t`.
pub open spec fn time_counter(t: int, timestep: int) -> Seq<u8> {
    be_bytes(index_word(window_index(t, timestep)))
}

/// Big-endian encoding of a 64-bit counter.
pub fn to_bytes(x: u64) -> (r: [u8; 8])
    ensures
        r@ == be_bytes(x as nat),
{
    let r = [
        (x >> 56u64) as u8,
        (x >> 48u64) as u8,
        (x >> 40u64) as u8,
        (x >> 32u64) as u8,
        (x >> 24u64) as u8,
        (x >> 16u64) as u8,
        (x >> 8u64) as u8,
        x as u8,
    ];
    proof {
        reveal_with_fuel(pow256, 8);
        assert((x >> 56u64) as u8 == ((x / 0x100_0000_0000_0000) % 256) as u8) by (bit_vector);
        assert((x >> 48u64) as u8 == ((x / 0x1_0000_0000_0000) % 256) as u8) by (bit_vector);
        assert((x >> 40u64) as u8 == ((x / 0x100_0000_0000) % 256) as u8) by (bit_vector);
        assert((x >> 32u64) as u8 == ((x / 0x1_0000_0000) % 256) as u8) by (bit_vector);
        assert((x >> 24u64) as u8 == ((x / 0x100_0000) % 256) as u8) by (bit_vector);
        assert((x >> 16u64) as u8 == ((x / 0x1_0000) % 256) as u8) by (bit_vector);
        assert((x >> 8u64) as u8 == ((x / 0x100) % 256) as u8) by (bit_vector);
        assert(x as u8 == ((x / 1) % 256) as u8) by (bit_vector);
        assert(r@ =~= be_bytes(x as nat));
    }
    r
}

/// The two's complement word of the window that holds time `t`.
pub fn window_word(t: i64, timestep: i64) -> (r: u64)
    requires
        timestep > 0,
    ensures
        r as nat == index_word(window_index(t as int, timestep as int)),
{
    let ts = timestep as u64;
    if t >= 0 {
        let q = (t as u64) / ts;
        q
    } else {
        let m = (-(t + 1)) as u64;
        let q = m / ts;
        proof {
            let ti = t as int;
            let s = timestep as int;
            vstd::arithmetic::div_mod::lemma_fundamental_div_mod(m as int, s);
            vstd::arithmetic::div_mod::lemma_fundamental_div_mod(ti, s);
            vstd::arithmetic::div_mod::lemma_mod_bound(m as int, s);
            vstd::arithmetic::div_mod::lemma_mod_bound(ti, s);
            let qi = q as int;
            let mr = (m as int) % s;
            // t = -(m + 1) = s * (-q - 1) + (s - 1 - m % s), with 0 <= s - 1 - m % s < s
            assert(ti == (-qi - 1) * s + (s - 1 - mr)) by (nonlinear_arith)
                requires
                    m as int == s * qi + mr,
                    ti == -(m as int) - 1,
            ;
            vstd::arithmetic::div_mod::lemma_fundamental_div_mod_converse(ti, s, -qi - 1, s - 1 - mr);
        }
        u64::MAX - q
    }
}

} // verus!
