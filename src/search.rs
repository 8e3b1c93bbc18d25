use vstd::prelude::*;

use crate::timeline::{animations_of, create_timeline, simulate, Animation};
use crate::xorshift::{advanced, lemma_advanced_add, Xorshift};

verus! {

/// The matches among the start positions `min..k` (counted in steps from
/// state `s`): each position whose timeline of `duration` seconds, from frame
/// zero and with visible animations only, shows exactly `target`, paired with
/// the generator state at the end of that timeline. In increasing order.
pub open spec fn matches_below(s: Seq<u32>, duration: u32, target: Seq<Animation>, min: nat, k: nat) -> Seq<
    (int, Seq<u32>),
>
    decreases k,
{
    if k <= min {
        Seq::empty()
    } else {
        let prev = matches_below(s, duration, target, min, (k - 1) as nat);
        let sim = simulate(advanced(s, (k - 1) as nat), duration, 0, false);
        if animations_of(sim.events) == target {
            prev.push(((k - 1) as int, sim.rng))
        } else {
            prev
        }
    }
}

/// The search results with each state as a sequence of words.
pub open spec fn found_view(r: Seq<(usize, [u32; 4])>) -> Seq<(int, Seq<u32>)> {
    r.map_values(|p: (usize, [u32; 4])| (p.0 as int, p.1@))
}

/// Whether two animation sequences are equal, position by position.
pub fn same_animations(a: &Vec<Animation>, b: &Vec<Animation>) -> (r: bool)
    ensures
        r == (a@ == b@),
{
    if a.len() != b.len() {
        return false;
    }
    let mut i: usize = 0;
    while i < a.len()
        invariant
            a@.len() == b@.len(),
            i <= a@.len(),
            forall|j: int| 0 <= j < i ==> a@[j] == b@[j],
        decreases a@.len() - i,
    {
        if a[i] != b[i] {
            return false;
        }
        i = i + 1;
    }
    assert(a@ =~= b@);
    true
}

/// Tries every start position in `min..max` steps from `rng`: simulates the
/// timeline of `duration` seconds from a copy of the generator there and
/// reports each position whose visible animations are exactly `timeline`,
/// with the copy's final state. Leaves `rng` at the last position tried,
/// plus one (at `min` when the range is empty).
pub fn find_timeline(
    rng: &mut Xorshift,
    duration: u32,
    min: usize,
    max: usize,
    timeline: &Vec<Animation>,
) -> (r: Vec<(usize, [u32; 4])>)
    ensures
        found_view(r@) == matches_below(old(rng)@, duration, timeline@, min as nat, max as nat),
        final(rng)@ == advanced(old(rng)@, if min < max { max as nat } else { min as nat }),
{
    let ghost start = rng@;
    let mut found: Vec<(usize, [u32; 4])> = Vec::new();
    rng.advance(min);
    if max <= min {
        assert(found_view(found@) =~= Seq::<(int, Seq<u32>)>::empty());
        return found;
    }
    let mut advance: usize = min;
    assert(found_view(found@) =~= matches_below(start, duration, timeline@, min as nat, min as nat));
    while advance < max
        invariant
            min <= advance <= max,
            rng@ == advanced(start, advance as nat),
            found_view(found@) == matches_below(start, duration, timeline@, min as nat, advance as nat),
        decreases max - advance,
    {
        let mut copied = *rng;
        let animations = create_timeline(&mut copied, duration, 0, false).get_animations();
        if same_animations(&animations, timeline) {
            let ghost prev = found@;
            found.push((advance, copied.get_state()));
            assert(found_view(found@) =~= found_view(prev).push((advance as int, copied@)));
        }
        proof {
            lemma_advanced_add(start, advance as nat, 1);
        }
        rng.next();
        advance = advance + 1;
    }
    found
}

} // verus!
