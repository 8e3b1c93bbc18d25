use vstd::prelude::*;

use crate::xorshift::{advanced, lemma_advanced_add, range_output, step_state, Xorshift};

verus! {

/// Lower end of the range that the pid and shiny words are drawn into.
pub const DRAW_MIN: u32 = 0x8000_0000;

/// Modulus of the range that the pid and shiny words are drawn into.
pub const DRAW_MAX: u32 = 0xffff_ffff;

/// Whether a pid and a shiny word make a shiny encounter.
pub open spec fn is_shiny(pid: u32, shiny_rand: u32) -> bool {
    ((pid & 0xfff0u32) ^ (pid >> 16u32) ^ (shiny_rand >> 16u32) ^ (shiny_rand & 0xfff0u32))
        < 0x10u32
}

/// Whether the encounter generated `delay` steps after state `s` is shiny:
/// its pid and shiny word are the next two draws from there.
pub open spec fn shiny_after(s: Seq<u32>, delay: nat) -> bool {
    let t = advanced(s, delay);
    is_shiny(range_output(t, DRAW_MIN, DRAW_MAX), range_output(step_state(t), DRAW_MIN, DRAW_MAX))
}

/// Whether `n` steps from `s` are the first position from which the
/// encounter `delay` steps later is shiny.
pub open spec fn first_shiny(s: Seq<u32>, delay: nat, n: nat) -> bool {
    &&& shiny_after(advanced(s, n), delay)
    &&& forall|j: nat| j < n ==> !shiny_after(advanced(s, j), delay)
}

/// Whether a pid and a shiny word make a shiny encounter.
pub fn check_is_shiny_u32(pid: u32, shiny_rand: u32) -> (r: bool)
    ensures
        r == is_shiny(pid, shiny_rand),
{
    ((pid & 0xfff0) ^ (pid >> 16) ^ (shiny_rand >> 16) ^ (shiny_rand & 0xfff0)) < 0x10
}

/// Whether the encounter `delay` steps after `rng` would be shiny; `rng` is
/// a copy, so the caller's generator does not move.
pub fn is_shiny_path(rng: Xorshift, delay: usize) -> (r: bool)
    ensures
        r == shiny_after(rng@, delay as nat),
{
    let mut rng = rng;
    rng.advance(delay);
    let pid = rng.next_range(DRAW_MIN, DRAW_MAX);
    let shiny_rand = rng.next_range(DRAW_MIN, DRAW_MAX);
    check_is_shiny_u32(pid, shiny_rand)
}

/// Steps `rng` one draw at a time until the encounter `delay` steps ahead
/// is shiny, and returns how many steps that took. The search has no bound
/// of its own: a shiny position within `usize::MAX` steps must exist.
pub fn find_shiny_pokemon(rng: &mut Xorshift, delay: usize) -> (r: usize)
    requires
        exists|n: nat| n < usize::MAX && #[trigger] shiny_after(advanced(old(rng)@, n), delay as nat),
    ensures
        first_shiny(old(rng)@, delay as nat, r as nat),
        final(rng)@ == advanced(old(rng)@, r as nat),
{
    let ghost start = rng@;
    let ghost bound: nat = choose|n: nat|
        n < usize::MAX && #[trigger] shiny_after(advanced(start, n), delay as nat);
    let mut advances: usize = 0;
    while !is_shiny_path(*rng, delay)
        invariant
            advances <= bound,
            bound < usize::MAX,
            shiny_after(advanced(start, bound), delay as nat),
            rng@ == advanced(start, advances as nat),
            forall|j: nat| j < advances ==> !shiny_after(advanced(start, j), delay as nat),
        decreases bound - advances,
    {
        proof {
            lemma_advanced_add(start, advances as nat, 1);
        }
        rng.next_range(DRAW_MIN, DRAW_MAX);
        advances = advances + 1;
    }
    advances
}

} // verus!
