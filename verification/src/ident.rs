//! Node identifiers: 128-bit values drawn as random UUIDs, and the probe
//! sequence that turns a draw into an identifier the table does not hold yet.

use vstd::prelude::*;

verus! {

/// The number of 128-bit identifiers.
pub open spec fn id_space() -> nat {
    (u128::MAX + 1) as nat
}

/// The bits that every version-4 UUID shares: version nibble 4 and the
/// two variant bits `10`.
pub open spec fn is_random_uuid(id: u128) -> bool {
    id & 0x0000_0000_0000_f000_c000_0000_0000_0000u128
        == 0x0000_0000_0000_4000_8000_0000_0000_0000u128
}

/// The identifier `steps` places after `seed`, wrapping round at the end
/// of the identifier space.
pub open spec fn probe(seed: u128, steps: nat) -> u128 {
    ((seed + steps) % (id_space() as int)) as u128
}

/// Draws an identifier with `uuid::Uuid::new_v4` and hands back its 128
/// bits as `Uuid::as_u128` packs them.
///
/// Trusted: the value is random, so the contract states only the version
/// and variant bits that `new_v4` sets on every draw. `new_v4` panics if
/// the operating system cannot supply random bytes.
#[verifier::external_body]
pub(crate) fn random_uuid() -> (id: u128)
    ensures
        is_random_uuid(id),
{
    uuid::Uuid::new_v4().as_u128()
}

/// The identifier that follows `id` in the probe sequence.
pub fn next_id(id: u128) -> (next: u128)
    ensures
        next == probe(id, 1),
{
    proof {
        let m = id_space() as int;
        if id == u128::MAX {
            assert((id + 1) % m == 0) by (nonlinear_arith)
                requires
                    id + 1 == m,
                    m > 0,
            ;
        } else {
            assert((id + 1) % m == id + 1) by (nonlinear_arith)
                requires
                    0 <= id + 1 < m,
            ;
        }
    }
    if id == u128::MAX {
        0
    } else {
        id + 1
    }
}

/// One more step from `seed` is one step from where `steps` steps led.
pub proof fn lemma_probe_step(seed: u128, steps: nat)
    ensures
        probe(seed, steps + 1) == probe(probe(seed, steps), 1),
{
    let m = id_space() as int;
    let a = seed + steps;
    assert((a % m + 1) % m == (a + 1) % m) by (nonlinear_arith)
        requires
            m > 0,
            a >= 0,
    ;
}

/// Fewer steps than there are identifiers never lead to the same place twice.
pub proof fn lemma_probe_injective(seed: u128, i: nat, j: nat)
    requires
        i < j < id_space(),
    ensures
        probe(seed, i) != probe(seed, j),
{
    let m = id_space() as int;
    let a = seed + i;
    let b = seed + j;
    assert(a % m != b % m) by (nonlinear_arith)
        requires
            m > 0,
            0 <= a < b,
            b - a < m,
    ;
}

} // verus!
