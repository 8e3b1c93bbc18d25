use vstd::prelude::*;

use vstd::string::StrSliceExecFns;

use crate::xorshift::{step_output, step_state, Xorshift};

verus! {

/// Frames per second of the game's clock.
pub const FRAMES_PER_SECOND: u64 = 30;

/// Frames between two blink draws.
pub const BLINK_FRAMES: u32 = 30;

/// The idle animation that a character plays.
#[derive(Clone, Copy, Debug, PartialEq, Eq, Structural)]
pub enum Fidget {
    Idle,
    LookAround,
    TapFoot,
    RaiseArms,
}

/// The outcome of a blink draw.
#[derive(Clone, Copy, Debug, PartialEq, Eq, Structural)]
pub enum Blink {
    Single,
    Double,
    NoBlink,
}

/// An animation outcome of either kind.
#[derive(Clone, Copy, Debug, PartialEq, Eq, Structural)]
pub enum Animation {
    Fidget(Fidget),
    Blink(Blink),
}

/// The animation that a name stands for; names are case-sensitive.
pub open spec fn animation_named(s: Seq<char>) -> Option<Animation> {
    if s == "Idle"@ {
        Some(Animation::Fidget(Fidget::Idle))
    } else if s == "LookAround"@ {
        Some(Animation::Fidget(Fidget::LookAround))
    } else if s == "TapFoot"@ {
        Some(Animation::Fidget(Fidget::TapFoot))
    } else if s == "RaiseArms"@ {
        Some(Animation::Fidget(Fidget::RaiseArms))
    } else if s == "Single"@ {
        Some(Animation::Blink(Blink::Single))
    } else if s == "Double"@ {
        Some(Animation::Blink(Blink::Double))
    } else if s == "NoBlink"@ {
        Some(Animation::Blink(Blink::NoBlink))
    } else {
        None
    }
}

/// The label of an animation: its kind and its name.
pub open spec fn animation_label(a: Animation) -> Seq<char> {
    match a {
        Animation::Fidget(Fidget::Idle) => "Fidget::Idle"@,
        Animation::Fidget(Fidget::LookAround) => "Fidget::LookAround"@,
        Animation::Fidget(Fidget::TapFoot) => "Fidget::TapFoot"@,
        Animation::Fidget(Fidget::RaiseArms) => "Fidget::RaiseArms"@,
        Animation::Blink(Blink::Single) => "Blink::Single"@,
        Animation::Blink(Blink::Double) => "Blink::Double"@,
        Animation::Blink(Blink::NoBlink) => "Blink::NoBlink"@,
    }
}

fn same_text(a: &str, b: &str) -> (r: bool)
    ensures
        r == (a@ == b@),
{
    let n = a.unicode_len();
    if n != b.unicode_len() {
        return false;
    }
    let mut i: usize = 0;
    while i < n
        invariant
            n == a@.len(),
            n == b@.len(),
            i <= n,
            forall|j: int| 0 <= j < i ==> a@[j] == b@[j],
        decreases n - i,
    {
        if a.get_char(i) != b.get_char(i) {
            return false;
        }
        i = i + 1;
    }
    assert(a@ =~= b@);
    true
}

impl Animation {
    /// The animation named `s`, if any.
    pub fn from_name(s: &str) -> (r: Option<Animation>)
        ensures
            r == animation_named(s@),
    {
        if same_text(s, "Idle") {
            Some(Animation::Fidget(Fidget::Idle))
        } else if same_text(s, "LookAround") {
            Some(Animation::Fidget(Fidget::LookAround))
        } else if same_text(s, "TapFoot") {
            Some(Animation::Fidget(Fidget::TapFoot))
        } else if same_text(s, "RaiseArms") {
            Some(Animation::Fidget(Fidget::RaiseArms))
        } else if same_text(s, "Single") {
            Some(Animation::Blink(Blink::Single))
        } else if same_text(s, "Double") {
            Some(Animation::Blink(Blink::Double))
        } else if same_text(s, "NoBlink") {
            Some(Animation::Blink(Blink::NoBlink))
        } else {
            None
        }
    }

    /// The animation's label, such as `Fidget::TapFoot`.
    pub fn label(&self) -> (r: &'static str)
        ensures
            r@ == animation_label(*self),
    {
        match self {
            Animation::Fidget(Fidget::Idle) => "Fidget::Idle",
            Animation::Fidget(Fidget::LookAround) => "Fidget::LookAround",
            Animation::Fidget(Fidget::TapFoot) => "Fidget::TapFoot",
            Animation::Fidget(Fidget::RaiseArms) => "Fidget::RaiseArms",
            Animation::Blink(Blink::Single) => "Blink::Single",
            Animation::Blink(Blink::Double) => "Blink::Double",
            Animation::Blink(Blink::NoBlink) => "Blink::NoBlink",
        }
    }
}

/// How many frames a fidget lasts.
pub open spec fn fidget_frames(f: Fidget) -> u32 {
    match f {
        Fidget::Idle => 150,
        Fidget::LookAround => 109,
        Fidget::TapFoot => 96,
        Fidget::RaiseArms => 119,
    }
}

/// The fidget that follows `f` when the draw below three is `d`
/// (a larger draw counts as two).
pub open spec fn fidget_successor(f: Fidget, d: u32) -> Fidget {
    match (f, d) {
        (Fidget::Idle, 0) => Fidget::LookAround,
        (Fidget::Idle, 1) => Fidget::TapFoot,
        (Fidget::Idle, _) => Fidget::RaiseArms,
        (Fidget::LookAround, 0) => Fidget::TapFoot,
        (Fidget::LookAround, 1) => Fidget::RaiseArms,
        (Fidget::LookAround, _) => Fidget::Idle,
        (Fidget::TapFoot, 0) => Fidget::LookAround,
        (Fidget::TapFoot, 1) => Fidget::RaiseArms,
        (Fidget::TapFoot, _) => Fidget::Idle,
        (Fidget::RaiseArms, 0) => Fidget::LookAround,
        (Fidget::RaiseArms, 1) => Fidget::TapFoot,
        (Fidget::RaiseArms, _) => Fidget::Idle,
    }
}

/// The blink that a draw below sixteen gives.
pub open spec fn blink_of(d: u32) -> Blink {
    if d == 0 {
        Blink::Single
    } else if d == 1 {
        Blink::Double
    } else {
        Blink::NoBlink
    }
}

/// The last frame of a timeline `duration` seconds long (saturating).
pub open spec fn last_frame(duration: u32) -> u32 {
    if duration * FRAMES_PER_SECOND > u32::MAX {
        u32::MAX
    } else {
        (duration * FRAMES_PER_SECOND) as u32
    }
}

/// A fidget never follows itself, and the three draws give three different
/// successors.
pub proof fn law_fidget_never_repeats(f: Fidget, d: u32)
    requires
        d < 3,
    ensures
        fidget_successor(f, d) != f,
        fidget_successor(f, 0) != fidget_successor(f, 1),
        fidget_successor(f, 0) != fidget_successor(f, 2),
        fidget_successor(f, 1) != fidget_successor(f, 2),
{
}

impl Fidget {
    /// How many frames this fidget lasts.
    pub fn get_frames(&self) -> (r: u32)
        ensures
            r == fidget_frames(*self),
    {
        match self {
            Fidget::Idle => 150,
            Fidget::LookAround => 109,
            Fidget::TapFoot => 96,
            Fidget::RaiseArms => 119,
        }
    }
}

impl Blink {
    /// Frames between two blink draws.
    pub fn get_frames() -> (r: u32)
        ensures
            r == BLINK_FRAMES,
    {
        BLINK_FRAMES
    }
}

/// An animation, the frame on which it started, and the generator's state
/// right after the draw that chose it.
#[derive(Clone, Copy, Debug)]
pub struct AnimationTime {
    pub frame: u32,
    pub animation: Animation,
    pub rng_state: [u32; 4],
}

/// What an `AnimationTime` records, with the state as a sequence of words.
pub struct EventModel {
    pub frame: u32,
    pub animation: Animation,
    pub state: Seq<u32>,
}

impl View for AnimationTime {
    type V = EventModel;

    open spec fn view(&self) -> EventModel {
        EventModel { frame: self.frame, animation: self.animation, state: self.rng_state@ }
    }
}

/// The animations of a simulated stretch of time, in order.
pub struct Timeline(pub Vec<AnimationTime>);

impl View for Timeline {
    type V = Seq<EventModel>;

    open spec fn view(&self) -> Seq<EventModel> {
        self.0@.map_values(|e: AnimationTime| e@)
    }
}

/// The state of a timeline simulation between two frames.
pub struct SimState {
    pub rng: Seq<u32>,
    pub fidget: Fidget,
    pub next_fidget: int,
    pub next_blink: int,
    pub events: Seq<EventModel>,
}

pub open spec fn initial_sim(rng: Seq<u32>) -> SimState {
    SimState {
        rng,
        fidget: Fidget::Idle,
        next_fidget: fidget_frames(Fidget::Idle) as int,
        next_blink: BLINK_FRAMES as int,
        events: Seq::empty(),
    }
}

/// The fidget half of a frame: on a scheduled frame, draw the next fidget
/// and record it if it is visible or `all` is set.
pub open spec fn fidget_part(st: SimState, frame: u32, all: bool) -> SimState {
    if frame == st.next_fidget {
        let f = fidget_successor(st.fidget, step_output(st.rng) % 3);
        let rng = step_state(st.rng);
        SimState {
            rng,
            fidget: f,
            next_fidget: st.next_fidget + fidget_frames(f),
            events: if f != Fidget::Idle || all {
                st.events.push(EventModel { frame, animation: Animation::Fidget(f), state: rng })
            } else {
                st.events
            },
            ..st
        }
    } else {
        st
    }
}

/// The blink half of a frame: on a scheduled frame, draw a blink, record it
/// if it is visible or `all` is set, and schedule the next one.
pub open spec fn blink_part(st: SimState, frame: u32, all: bool) -> SimState {
    if frame == st.next_blink {
        let b = blink_of(step_output(st.rng) % 16);
        let rng = step_state(st.rng);
        SimState {
            rng,
            next_blink: st.next_blink + BLINK_FRAMES,
            events: if b != Blink::NoBlink || all {
                st.events.push(EventModel { frame, animation: Animation::Blink(b), state: rng })
            } else {
                st.events
            },
            ..st
        }
    } else {
        st
    }
}

/// One frame: fidget first, then blink.
pub open spec fn frame_step(st: SimState, frame: u32, all: bool) -> SimState {
    blink_part(fidget_part(st, frame, all), frame, all)
}

/// The simulation over the frames `from..=to`.
pub open spec fn run(st: SimState, from: int, to: int, all: bool) -> SimState
    decreases to + 1 - from,
{
    if from > to || from < 0 {
        st
    } else {
        run(frame_step(st, from as u32, all), from + 1, to, all)
    }
}

/// The simulation of `duration` seconds from generator state `rng`,
/// starting at frame `offset`.
pub open spec fn simulate(rng: Seq<u32>, duration: u32, offset: u32, all: bool) -> SimState {
    run(initial_sim(rng), offset as int, last_frame(duration) as int, all)
}

/// The animations of a recorded timeline, without frames or states.
pub open spec fn animations_of(events: Seq<EventModel>) -> Seq<Animation> {
    events.map_values(|e: EventModel| e.animation)
}

/// Two simulations from equal generator states, over the same duration and
/// from the same offset, record the same events and leave the generator in
/// the same state.
pub proof fn law_timeline_reproducible(a: Xorshift, b: Xorshift, duration: u32, offset: u32, all: bool)
    requires
        a@ == b@,
    ensures
        simulate(a@, duration, offset, all).events == simulate(b@, duration, offset, all).events,
        simulate(a@, duration, offset, all).rng == simulate(b@, duration, offset, all).rng,
{
}

impl Timeline {
    /// The recorded animations, in order, without frames or states.
    pub fn get_animations(&self) -> (r: Vec<Animation>)
        ensures
            r@ == animations_of(self@),
    {
        let mut r: Vec<Animation> = Vec::new();
        let mut i: usize = 0;
        while i < self.0.len()
            invariant
                i <= self.0@.len(),
                r@ == animations_of(self@).take(i as int),
            decreases self.0@.len() - i,
        {
            r.push(self.0[i].animation);
            i = i + 1;
            assert(r@ =~= animations_of(self@).take(i as int));
        }
        assert(animations_of(self@).take(i as int) =~= animations_of(self@));
        r
    }
}

/// Draws the fidget that follows `previous_fidget`.
pub fn handle_fidget(rng: &mut Xorshift, previous_fidget: Fidget) -> (r: Fidget)
    ensures
        r == fidget_successor(previous_fidget, step_output(old(rng)@) % 3),
        final(rng)@ == step_state(old(rng)@),
{
    let d = rng.next_max(3);
    match (previous_fidget, d) {
        (Fidget::Idle, 0) => Fidget::LookAround,
        (Fidget::Idle, 1) => Fidget::TapFoot,
        (Fidget::Idle, _) => Fidget::RaiseArms,
        (Fidget::LookAround, 0) => Fidget::TapFoot,
        (Fidget::LookAround, 1) => Fidget::RaiseArms,
        (Fidget::LookAround, _) => Fidget::Idle,
        (Fidget::TapFoot, 0) => Fidget::LookAround,
        (Fidget::TapFoot, 1) => Fidget::RaiseArms,
        (Fidget::TapFoot, _) => Fidget::Idle,
        (Fidget::RaiseArms, 0) => Fidget::LookAround,
        (Fidget::RaiseArms, 1) => Fidget::TapFoot,
        (Fidget::RaiseArms, _) => Fidget::Idle,
    }
}

/// Draws a blink.
fn handle_blink(rng: &mut Xorshift) -> (r: Blink)
    ensures
        r == blink_of(step_output(old(rng)@) % 16),
        final(rng)@ == step_state(old(rng)@),
{
    let d = rng.next_max(16);
    if d == 0 {
        Blink::Single
    } else if d == 1 {
        Blink::Double
    } else {
        Blink::NoBlink
    }
}

/// The last frame of a timeline `duration` seconds long.
pub fn duration_to_frames(duration: u32) -> (r: u32)
    ensures
        r == last_frame(duration),
{
    let frames: u64 = duration as u64 * FRAMES_PER_SECOND;
    if frames > u32::MAX as u64 {
        u32::MAX
    } else {
        frames as u32
    }
}

/// Whether an animation shows on screen: any fidget but idling, any blink
/// but none.
pub open spec fn is_visible(a: Animation) -> bool {
    a != Animation::Fidget(Fidget::Idle) && a != Animation::Blink(Blink::NoBlink)
}

/// Simulates the character's idle animations for `duration` seconds from
/// frame `offset`, drawing from `rng`. Records visible animations only,
/// or every draw when `include_all_rng_calls` is set.
pub fn create_timeline(rng: &mut Xorshift, duration: u32, offset: u32, include_all_rng_calls: bool) -> (r: Timeline)
    ensures
        r@ == simulate(old(rng)@, duration, offset, include_all_rng_calls).events,
        final(rng)@ == simulate(old(rng)@, duration, offset, include_all_rng_calls).rng,
        forall|i: int, j: int| 0 <= i < j < r@.len() ==> r@[i].frame <= r@[j].frame,
        forall|i: int| 0 <= i < r@.len() ==> offset <= #[trigger] r@[i].frame <= last_frame(duration),
        !include_all_rng_calls ==> forall|i: int| 0 <= i < r@.len() ==> is_visible(#[trigger] r@[i].animation),
{
    let all = include_all_rng_calls;
    let ghost goal = simulate(rng@, duration, offset, all);
    let mut result: Vec<AnimationTime> = Vec::new();
    let last = duration_to_frames(duration);
    let mut current_fidget = Fidget::Idle;
    let mut next_fidget_frame: u64 = current_fidget.get_frames() as u64;
    let mut next_blink_frame: u64 = Blink::get_frames() as u64;
    let mut frame: u64 = offset as u64;
    proof {
        assert(result@.map_values(|e: AnimationTime| e@) =~= Seq::<EventModel>::empty());
    }
    while frame <= last as u64
        invariant
            offset as u64 <= frame <= u32::MAX as u64 + 1,
            next_fidget_frame <= frame + 150,
            next_blink_frame <= frame + 30,
            last == last_frame(duration),
            forall|i: int, j: int| 0 <= i < j < result@.len() ==> result@[i].frame <= result@[j].frame,
            forall|i: int| 0 <= i < result@.len() ==> offset <= #[trigger] result@[i].frame < frame,
            forall|i: int| 0 <= i < result@.len() ==> #[trigger] result@[i].frame <= last,
            !all ==> forall|i: int| 0 <= i < result@.len() ==> is_visible(#[trigger] result@[i].animation),
            goal == run(
                SimState {
                    rng: rng@,
                    fidget: current_fidget,
                    next_fidget: next_fidget_frame as int,
                    next_blink: next_blink_frame as int,
                    events: result@.map_values(|e: AnimationTime| e@),
                },
                frame as int,
                last as int,
                all,
            ),
        decreases last as u64 + 1 - frame,
    {
        let f = frame as u32;
        let ghost before = SimState {
            rng: rng@,
            fidget: current_fidget,
            next_fidget: next_fidget_frame as int,
            next_blink: next_blink_frame as int,
            events: result@.map_values(|e: AnimationTime| e@),
        };
        if frame == next_fidget_frame {
            current_fidget = handle_fidget(rng, current_fidget);
            next_fidget_frame = next_fidget_frame + current_fidget.get_frames() as u64;
            if current_fidget != Fidget::Idle || all {
                let ev = AnimationTime {
                    frame: f,
                    animation: Animation::Fidget(current_fidget),
                    rng_state: rng.get_state(),
                };
                let ghost prev = result@;
                result.push(ev);
                assert(result@.map_values(|e: AnimationTime| e@) =~= prev.map_values(
                    |e: AnimationTime| e@,
                ).push(ev@));
            }
        }
        let ghost middle = SimState {
            rng: rng@,
            fidget: current_fidget,
            next_fidget: next_fidget_frame as int,
            next_blink: next_blink_frame as int,
            events: result@.map_values(|e: AnimationTime| e@),
        };
        assert(middle == fidget_part(before, f, all));
        if frame == next_blink_frame {
            let blink = handle_blink(rng);
            if blink != Blink::NoBlink || all {
                let ev = AnimationTime {
                    frame: f,
                    animation: Animation::Blink(blink),
                    rng_state: rng.get_state(),
                };
                let ghost prev = result@;
                result.push(ev);
                assert(result@.map_values(|e: AnimationTime| e@) =~= prev.map_values(
                    |e: AnimationTime| e@,
                ).push(ev@));
            }
            next_blink_frame = next_blink_frame + Blink::get_frames() as u64;
        }
        assert(SimState {
            rng: rng@,
            fidget: current_fidget,
            next_fidget: next_fidget_frame as int,
            next_blink: next_blink_frame as int,
            events: result@.map_values(|e: AnimationTime| e@),
        } == frame_step(before, f, all));
        frame = frame + 1;
    }
    let r = Timeline(result);
    assert forall|i: int| 0 <= i < r@.len() implies r@[i] == #[trigger] result@[i]@ by {}
    r
}

} // verus!
