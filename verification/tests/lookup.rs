use m61_modulus::fallback;
use m61_modulus::lookup::get_features;
use m61_modulus::lookup::has_avx2;
use m61_modulus::lookup::has_avx512f;
use m61_modulus::lookup::has_extended_state;
use m61_modulus::lookup::select;
use m61_modulus::lookup::Action;
use m61_modulus::lookup::Backend;
use m61_modulus::lookup::Selector;
use m61_modulus::lookup::AVX2;
use m61_modulus::lookup::AVX512;
use m61_modulus::lookup::SSE2;
use m61_modulus::lookup::UNINIT;
use m61_modulus::simd::Width;

const XSAVE: u32 = 1 << 26;
const OSXSAVE: u32 = 1 << 27;
const EBX_AVX2: u32 = 1 << 5;
const EBX_AVX512F: u32 = 1 << 16;

#[test]
fn feature_levels_are_ordered() {
    assert_eq!(UNINIT, 0);
    assert_eq!(SSE2, 1);
    assert_eq!(AVX2, 2);
    assert_eq!(AVX512, 3);
}

#[test]
fn features_without_extended_state_are_the_baseline() {
    assert!(!has_extended_state(0));
    assert!(!has_extended_state(!(XSAVE | OSXSAVE)));
    assert!(has_extended_state(XSAVE | OSXSAVE));
    assert!(has_extended_state(OSXSAVE));
    assert_eq!(get_features(0, 0, 0), SSE2);
    assert_eq!(get_features(0, u64::MAX, u32::MAX), SSE2);
    assert_eq!(get_features(!(XSAVE | OSXSAVE), 0xe6, EBX_AVX2 | EBX_AVX512F), SSE2);
}

#[test]
fn features_follow_the_saved_registers_and_the_flags() {
    let ecx = XSAVE | OSXSAVE;
    assert_eq!(get_features(ecx, 6, EBX_AVX2), AVX2);
    assert_eq!(get_features(ecx, 7, EBX_AVX2), AVX2);
    assert_eq!(get_features(ecx, 2, EBX_AVX2), SSE2);
    assert_eq!(get_features(ecx, 4, EBX_AVX2), SSE2);
    assert_eq!(get_features(ecx, 6, 0), SSE2);
    assert_eq!(get_features(ecx, 6, EBX_AVX512F), SSE2);
    assert_eq!(get_features(ecx, 0xe6, EBX_AVX2 | EBX_AVX512F), AVX512);
    assert_eq!(get_features(ecx, 0xe0, EBX_AVX512F), AVX512);
    assert_eq!(get_features(ecx, 0xe6, EBX_AVX2), AVX2);
    assert_eq!(get_features(ecx, 0x66, EBX_AVX2 | EBX_AVX512F), AVX2);
    assert_eq!(get_features(ecx, 0xa0, EBX_AVX512F), SSE2);
}

#[test]
fn levels_include_the_narrower_features() {
    assert!(!has_avx2(UNINIT));
    assert!(!has_avx2(SSE2));
    assert!(has_avx2(AVX2));
    assert!(has_avx2(AVX512));
    assert!(!has_avx512f(UNINIT));
    assert!(!has_avx512f(SSE2));
    assert!(!has_avx512f(AVX2));
    assert!(has_avx512f(AVX512));
}

#[test]
fn the_widest_backend_is_selected() {
    assert_eq!(select(false, false, false), Backend::Scalar);
    assert_eq!(select(true, false, false), Backend::Vector128);
    assert_eq!(select(true, true, false), Backend::Vector256);
    assert_eq!(select(false, true, false), Backend::Vector256);
    assert_eq!(select(true, true, true), Backend::Vector512);
    assert_eq!(select(false, false, true), Backend::Vector512);
    assert_eq!(select(true, false, true), Backend::Vector512);
}

#[test]
fn backends_know_their_width() {
    assert_eq!(Backend::Scalar.width(), None);
    assert_eq!(Backend::Vector128.width(), Some(Width::W128));
    assert_eq!(Backend::Vector256.width(), Some(Width::W256));
    assert_eq!(Backend::Vector512.width(), Some(Width::W512));
}

#[test]
fn every_backend_returns_the_same_element() {
    let digits: Vec<u16> = (0..777u32).map(|i| (i * 25173 + 13849) as u16).collect();
    let expected = fallback::reduce_u16(&digits);
    for backend in [
        Backend::Scalar,
        Backend::Vector128,
        Backend::Vector256,
        Backend::Vector512,
    ] {
        assert_eq!(backend.reduce(&digits), expected);
    }
    let bytes = [1u8, 2, 3];
    assert_eq!(Backend::Vector512.reduce(&bytes).get(), 0x030201);
}

#[test]
fn a_selector_probes_once_and_stays_bound() {
    let selector = Selector::new();
    assert_eq!(selector, Selector::Uninitialized);
    assert_eq!(selector.action(), Action::Probe);

    let level = get_features(XSAVE | OSXSAVE, 6, EBX_AVX2);
    let bound = selector.bind(level >= SSE2, has_avx2(level), has_avx512f(level));
    assert_eq!(bound, Selector::Bound(Backend::Vector256));
    assert_eq!(bound.action(), Action::Dispatch(Backend::Vector256));

    // a second caller that saw the first state binds to the same state
    let again = Selector::Uninitialized.bind(true, true, false);
    assert_eq!(again, bound);
    assert_eq!(bound.bind(true, true, false), bound);
}

#[test]
fn a_selector_fits_into_a_byte() {
    let states = [
        Selector::Uninitialized,
        Selector::Bound(Backend::Scalar),
        Selector::Bound(Backend::Vector128),
        Selector::Bound(Backend::Vector256),
        Selector::Bound(Backend::Vector512),
    ];
    for (tag, state) in states.iter().enumerate() {
        assert_eq!(state.encode(), tag as u8);
        assert_eq!(Selector::decode(tag as u8), *state);
    }
    assert_eq!(Selector::decode(5), Selector::Uninitialized);
    assert_eq!(Selector::decode(255), Selector::Uninitialized);
}
