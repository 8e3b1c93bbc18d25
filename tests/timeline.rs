use bdsp_rng::search::{find_timeline, same_animations};
use bdsp_rng::timeline::{create_timeline, duration_to_frames, handle_fidget, Animation, Blink, Fidget};
use bdsp_rng::xorshift::Xorshift;

const SEED: [u32; 4] = [0x12345678, 0x9abcdef0, 0x0fedcba9, 0x87654321];

#[test]
fn timeline_regression() {
    let mut rng = Xorshift::from_state(SEED);
    let t = create_timeline(&mut rng, 10, 0, false);
    let events: Vec<(u32, Animation, [u32; 4])> =
        t.0.iter().map(|e| (e.frame, e.animation, e.rng_state)).collect();
    assert_eq!(
        events,
        vec![
            (90, Animation::Blink(Blink::Double), [2271560481, 928137763, 1264931175, 716466977]),
            (150, Animation::Fidget(Fidget::LookAround), [1264931175, 716466977, 2271566109, 579031176]),
            (240, Animation::Blink(Blink::Double), [1124914134, 3395835381, 1734889492, 1599556449]),
            (259, Animation::Fidget(Fidget::TapFoot), [3395835381, 1734889492, 1599556449, 2061545790]),
        ]
    );
    assert_eq!(rng.get_state(), [0x5f574b61, 0x7ae0b13e, 0xf2af846a, 0xd76282db]);
}

#[test]
fn timeline_include_all_records_every_draw() {
    let mut rng = Xorshift::from_state(SEED);
    let t = create_timeline(&mut rng, 2, 0, true);
    assert_eq!(
        t.get_animations(),
        vec![Animation::Blink(Blink::NoBlink), Animation::Blink(Blink::NoBlink)]
    );
    assert_eq!(t.0[0].frame, 30);
    assert_eq!(t.0[1].frame, 60);
    assert_eq!(rng.get_state(), [0x0fedcba9, 0x87654321, 0x37524223, 0x4b655167]);
}

#[test]
fn timeline_is_reproducible() {
    let mut a = Xorshift::from_state(SEED);
    let mut b = Xorshift::from_state(SEED);
    let ta = create_timeline(&mut a, 60, 7, false);
    let tb = create_timeline(&mut b, 60, 7, false);
    assert_eq!(ta.0.len(), tb.0.len());
    for (x, y) in ta.0.iter().zip(tb.0.iter()) {
        assert_eq!((x.frame, x.animation, x.rng_state), (y.frame, y.animation, y.rng_state));
    }
    assert_eq!(a.get_state(), b.get_state());
}

#[test]
fn timeline_offset_past_end_draws_nothing() {
    let mut rng = Xorshift::from_state(SEED);
    let t = create_timeline(&mut rng, 1, 31, true);
    assert!(t.0.is_empty());
    assert_eq!(rng.get_state(), SEED);
}

#[test]
fn timeline_zero_duration() {
    let mut rng = Xorshift::from_state(SEED);
    let t = create_timeline(&mut rng, 0, 0, true);
    assert!(t.0.is_empty());
    assert_eq!(rng.get_state(), SEED);
}

#[test]
fn duration_to_frames_values() {
    assert_eq!(duration_to_frames(0), 0);
    assert_eq!(duration_to_frames(10), 300);
    assert_eq!(duration_to_frames(u32::MAX / 30), (u32::MAX / 30) * 30);
    assert_eq!(duration_to_frames(u32::MAX / 30 + 1), u32::MAX);
    assert_eq!(duration_to_frames(u32::MAX), u32::MAX);
}

#[test]
fn frame_lengths() {
    assert_eq!(Fidget::Idle.get_frames(), 150);
    assert_eq!(Fidget::LookAround.get_frames(), 109);
    assert_eq!(Fidget::TapFoot.get_frames(), 96);
    assert_eq!(Fidget::RaiseArms.get_frames(), 119);
    assert_eq!(Blink::get_frames(), 30);
}

#[test]
fn fidget_never_repeats_itself() {
    let all = [Fidget::Idle, Fidget::LookAround, Fidget::TapFoot, Fidget::RaiseArms];
    for &f in all.iter() {
        let mut seen = Vec::new();
        let mut k: u32 = 1;
        // draws of 0, 1 and 2 come from seeds whose first output is that value
        while seen.len() < 3 {
            let mut rng = Xorshift::from_state([0, 0, 0, k]);
            let d = rng.clone().next() % 3;
            let next = handle_fidget(&mut rng, f);
            assert_ne!(next, f);
            if !seen.iter().any(|&(dd, _)| dd == d) {
                seen.push((d, next));
            }
            k += 1;
        }
        assert_ne!(seen[0].1, seen[1].1);
        assert_ne!(seen[0].1, seen[2].1);
        assert_ne!(seen[1].1, seen[2].1);
    }
}

#[test]
fn fidget_transition_table() {
    // from [0, 0, 0, k] the first output is k
    let draw = |k: u32, f: Fidget| handle_fidget(&mut Xorshift::from_state([0, 0, 0, k]), f);
    assert_eq!(draw(3, Fidget::Idle), Fidget::LookAround);
    assert_eq!(draw(4, Fidget::Idle), Fidget::TapFoot);
    assert_eq!(draw(5, Fidget::Idle), Fidget::RaiseArms);
    assert_eq!(draw(3, Fidget::LookAround), Fidget::TapFoot);
    assert_eq!(draw(4, Fidget::LookAround), Fidget::RaiseArms);
    assert_eq!(draw(5, Fidget::LookAround), Fidget::Idle);
    assert_eq!(draw(3, Fidget::TapFoot), Fidget::LookAround);
    assert_eq!(draw(4, Fidget::TapFoot), Fidget::RaiseArms);
    assert_eq!(draw(5, Fidget::TapFoot), Fidget::Idle);
    assert_eq!(draw(3, Fidget::RaiseArms), Fidget::LookAround);
    assert_eq!(draw(4, Fidget::RaiseArms), Fidget::TapFoot);
    assert_eq!(draw(5, Fidget::RaiseArms), Fidget::Idle);
}

const SEARCH_SEED: [u32; 4] = [0x1, 0x2, 0x3, 0x1ef3];

#[test]
fn find_timeline_matches_hand_reference() {
    let target = vec![Animation::Fidget(Fidget::LookAround), Animation::Blink(Blink::Single)];
    let mut rng = Xorshift::from_state(SEARCH_SEED);
    let found = find_timeline(&mut rng, 6, 0, 50, &target);
    assert_eq!(found, vec![(2usize, [0x00776f02, 0x00801e79, 0xbbb0cab0, 0xbb05565c])]);
    assert_eq!(rng.get_state(), [0xa1cae0e4, 0x90194abd, 0x86d23a0d, 0xa6463054]);

    // the same scan written out index by index
    let mut walker = Xorshift::from_state(SEARCH_SEED);
    let mut reference = Vec::new();
    for i in 0..50usize {
        let mut copy = walker;
        let anims = create_timeline(&mut copy, 6, 0, false).get_animations();
        if anims == target {
            reference.push((i, copy.get_state()));
        }
        walker.next();
    }
    assert_eq!(found, reference);
}

#[test]
fn find_timeline_range_excludes_match() {
    let target = vec![Animation::Fidget(Fidget::LookAround), Animation::Blink(Blink::Single)];
    let mut rng = Xorshift::from_state(SEARCH_SEED);
    let found = find_timeline(&mut rng, 6, 3, 50, &target);
    assert!(found.is_empty());
    assert_eq!(rng.get_state(), [0xa1cae0e4, 0x90194abd, 0x86d23a0d, 0xa6463054]);
}

#[test]
fn find_timeline_empty_range_only_advances_min() {
    let target = vec![Animation::Fidget(Fidget::LookAround)];
    let mut rng = Xorshift::from_state(SEARCH_SEED);
    let found = find_timeline(&mut rng, 6, 10, 5, &target);
    assert!(found.is_empty());
    let mut expected = Xorshift::from_state(SEARCH_SEED);
    expected.advance(10);
    assert_eq!(rng.get_state(), expected.get_state());
}

#[test]
fn same_animations_compares_position_by_position() {
    let a = vec![Animation::Fidget(Fidget::Idle), Animation::Blink(Blink::Single)];
    let b = vec![Animation::Blink(Blink::Single), Animation::Fidget(Fidget::Idle)];
    assert!(same_animations(&a, &a.clone()));
    assert!(!same_animations(&a, &b));
    assert!(!same_animations(&a, &a[..1].to_vec()));
    assert!(same_animations(&vec![], &vec![]));
}
