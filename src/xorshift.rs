use vstd::prelude::*;

verus! {

/// The word that one step of the generator produces from the four-word
/// state `s` (it also becomes the new last word).
pub open spec fn step_output(s: Seq<u32>) -> u32 {
    let t = s[0] ^ (s[0] << 11u32);
    t ^ (t >> 8u32) ^ s[3] ^ (s[3] >> 19u32)
}

/// The state after one step: the words rotate down and the new output is
/// appended.
pub open spec fn step_state(s: Seq<u32>) -> Seq<u32> {
    seq![s[1], s[2], s[3], step_output(s)]
}

/// The state after `n` steps.
pub open spec fn advanced(s: Seq<u32>, n: nat) -> Seq<u32>
    decreases n,
{
    if n == 0 {
        s
    } else {
        step_state(advanced(s, (n - 1) as nat))
    }
}

/// The value that `next_range(min, max)` draws from state `s`.
pub open spec fn range_output(s: Seq<u32>, min: u32, max: u32) -> u32
    recommends
        max > 0,
{
    (step_output(s) % max).wrapping_add(min)
}

/// The words drawn by `n` successive steps from state `s`, in order.
pub open spec fn draws(s: Seq<u32>, n: nat) -> Seq<u32>
    decreases n,
{
    if n == 0 {
        Seq::empty()
    } else {
        draws(s, (n - 1) as nat).push(step_output(advanced(s, (n - 1) as nat)))
    }
}

/// How many steps the exact-state search tries before it gives up.
pub const STATE_SEARCH_LIMIT: usize = 10_000;

/// Stepping `a` times and then `b` times is stepping `a + b` times.
pub proof fn lemma_advanced_add(s: Seq<u32>, a: nat, b: nat)
    ensures
        advanced(advanced(s, a), b) == advanced(s, a + b),
    decreases b,
{
    if b > 0 {
        lemma_advanced_add(s, a, (b - 1) as nat);
    }
}

/// Advancing by `n` is stepping `n` times one after another: no steps leave
/// the state as it is, and one more step is one more `next`.
pub proof fn law_advance_is_repeated_next(s: Seq<u32>, n: nat)
    ensures
        advanced(s, 0) == s,
        advanced(s, n + 1) == step_state(advanced(s, n)),
        advanced(advanced(s, n), 1) == step_state(advanced(s, n)),
{
    assert(advanced(advanced(s, n), 1) == step_state(advanced(advanced(s, n), 0)));
}

/// Two generators seeded alike draw the same words, step for step: the
/// `i`-th word drawn is the output of the state after `i` steps.
pub proof fn law_same_seed_same_draws(a: Xorshift, b: Xorshift, n: nat)
    requires
        a@ == b@,
    ensures
        draws(a@, n) == draws(b@, n),
        draws(a@, n).len() == n,
        forall|i: int| 0 <= i < n ==> #[trigger] draws(a@, n)[i] == step_output(advanced(a@, i as nat)),
    decreases n,
{
    if n > 0 {
        law_same_seed_same_draws(a, b, (n - 1) as nat);
    }
}

/// A 128-bit xorshift generator, held as four 32-bit words.
#[derive(Clone, Copy, Debug)]
pub struct Xorshift {
    state: [u32; 4],
}

impl View for Xorshift {
    type V = Seq<u32>;

    closed spec fn view(&self) -> Seq<u32> {
        self.state@
    }
}

impl Xorshift {
    /// A generator whose state is the four given words.
    pub fn from_state(state: [u32; 4]) -> (r: Self)
        ensures
            r@ == state@,
    {
        Self { state }
    }

    /// The four words of the current state.
    pub fn get_state(&self) -> (r: [u32; 4])
        ensures
            r@ == self@,
    {
        self.state
    }

    /// Steps the generator once and returns the new last word.
    pub fn next(&mut self) -> (r: u32)
        ensures
            r == step_output(old(self)@),
            final(self)@ == step_state(old(self)@),
    {
        let s0 = self.state[0];
        let s1 = self.state[1];
        let s2 = self.state[2];
        let s3 = self.state[3];
        let tmp = s0 ^ (s0 << 11u32);
        let tmp = tmp ^ (tmp >> 8u32) ^ s3 ^ (s3 >> 19u32);
        self.state = [s1, s2, s3, tmp];
        assert(self.state@ =~= step_state(old(self)@));
        tmp
    }

    /// Draws a word and reduces it into `[min, min + max)`, wrapping the sum.
    pub fn next_range(&mut self, min: u32, max: u32) -> (r: u32)
        requires
            max > 0,
        ensures
            r == range_output(old(self)@, min, max),
            final(self)@ == step_state(old(self)@),
    {
        (self.next() % max).wrapping_add(min)
    }

    /// Draws a word and reduces it below `max`.
    pub fn next_max(&mut self, max: u32) -> (r: u32)
        requires
            max > 0,
        ensures
            r == step_output(old(self)@) % max,
            r < max,
            final(self)@ == step_state(old(self)@),
    {
        self.next_range(0, max)
    }

    /// Steps the generator `advances` times, discarding the words drawn.
    pub fn advance(&mut self, advances: usize)
        ensures
            final(self)@ == advanced(old(self)@, advances as nat),
    {
        let mut i: usize = 0;
        while i < advances
            invariant
                i <= advances,
                self@ == advanced(old(self)@, i as nat),
            decreases advances - i,
        {
            self.next();
            i = i + 1;
        }
    }

    fn state_is(&self, target: &[u32; 4]) -> (r: bool)
        ensures
            r == (self@ == target@),
    {
        let r = self.state[0] == target[0] && self.state[1] == target[1]
            && self.state[2] == target[2] && self.state[3] == target[3];
        if r {
            assert(self.state@ =~= target@);
        }
        r
    }

    /// Steps until the state equals `target`, trying at most `limit` steps.
    /// Returns the number of steps taken, the least that reaches `target`;
    /// `None` when none up to `limit` does, after taking `limit` steps.
    pub fn advance_to_state_within(&mut self, target: [u32; 4], limit: usize) -> (r: Option<usize>)
        ensures
            match r {
                Some(k) => {
                    &&& k <= limit
                    &&& advanced(old(self)@, k as nat) == target@
                    &&& forall|j: nat| j < k ==> advanced(old(self)@, j) != target@
                    &&& final(self)@ == target@
                },
                None => {
                    &&& forall|j: nat| j <= limit ==> advanced(old(self)@, j) != target@
                    &&& final(self)@ == advanced(old(self)@, limit as nat)
                },
            },
    {
        let mut advances: usize = 0;
        loop
            invariant
                advances <= limit,
                self@ == advanced(old(self)@, advances as nat),
                forall|j: nat| j < advances ==> advanced(old(self)@, j) != target@,
            decreases limit - advances,
        {
            if self.state_is(&target) {
                return Some(advances);
            }
            if advances == limit {
                return None;
            }
            self.next();
            advances = advances + 1;
        }
    }

    /// Steps until the state equals `target`, trying at most
    /// `STATE_SEARCH_LIMIT` steps (see `advance_to_state_within`).
    pub fn advance_to_state(&mut self, target: [u32; 4]) -> (r: Option<usize>)
        ensures
            match r {
                Some(k) => {
                    &&& k <= STATE_SEARCH_LIMIT
                    &&& advanced(old(self)@, k as nat) == target@
                    &&& forall|j: nat| j < k ==> advanced(old(self)@, j) != target@
                    &&& final(self)@ == target@
                },
                None => {
                    &&& forall|j: nat| j <= STATE_SEARCH_LIMIT ==> advanced(old(self)@, j) != target@
                    &&& final(self)@ == advanced(old(self)@, STATE_SEARCH_LIMIT as nat)
                },
            },
    {
        self.advance_to_state_within(target, STATE_SEARCH_LIMIT)
    }
}

} // verus!
