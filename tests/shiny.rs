use bdsp_rng::shiny::{check_is_shiny_u32, find_shiny_pokemon, is_shiny_path};
use bdsp_rng::xorshift::Xorshift;

const SEED: [u32; 4] = [0x12345678, 0x9abcdef0, 0x0fedcba9, 0x87654321];

#[test]
fn shiny_boundary_fifteen_is_shiny() {
    assert!(check_is_shiny_u32(0x000f_0000, 0));
    assert!(check_is_shiny_u32(0, 0x000f_0000));
    assert!(check_is_shiny_u32(0x1234_1234 ^ 0x000f_0000, 0x1234_1234 & 0xffff_fff0));
}

#[test]
fn shiny_boundary_sixteen_is_not_shiny() {
    assert!(!check_is_shiny_u32(0x0010_0000, 0));
    assert!(!check_is_shiny_u32(0x0000_0010, 0));
    assert!(!check_is_shiny_u32(0, 0x0000_0010));
    assert!(!check_is_shiny_u32(0, 0x0010_0000));
}

#[test]
fn shiny_low_nibble_is_ignored() {
    assert!(check_is_shiny_u32(0x0000_000f, 0x0000_000f));
    assert!(check_is_shiny_u32(0xabcd_abcd, 0xabcd_abcd));
}

#[test]
fn find_shiny_regression() {
    let mut rng = Xorshift::from_state(SEED);
    assert_eq!(find_shiny_pokemon(&mut rng, 0), 4644);
    assert_eq!(rng.get_state(), [0x65ba1722, 0xa739236d, 0xf6b9db0b, 0x8eb2d6c9]);
}

#[test]
fn find_shiny_with_delay() {
    let mut rng = Xorshift::from_state(SEED);
    assert_eq!(find_shiny_pokemon(&mut rng, 5), 4639);
    assert_eq!(rng.get_state(), [0xf9760668, 0x459bd140, 0xa9cd7181, 0xb73cddbc]);
    assert!(is_shiny_path(rng, 5));
}

#[test]
fn is_shiny_path_leaves_caller_alone() {
    let rng = Xorshift::from_state(SEED);
    assert!(!is_shiny_path(rng, 0));
    assert_eq!(rng.get_state(), SEED);
}
