use jelatofish::game::{coin_from_draw, maybe};
use jelatofish::generators::bubble::{random_bubble_count, MAX_BUBBLES, MIN_BUBBLES};
use jelatofish::generators::coswave::WaveAccelMethods;
use jelatofish::generators::flatwave::{
    packet_count_from_draw, random_packet_count, AccelMethods, InterferenceMethods,
};
use jelatofish::generators::spinflake::{
    floret_count_from_draw, random_floret_count, random_spines, spines_from_draw, SinePositivizingMethods, TwirlMethods,
};
use jelatofish::generators::{Generators, PackMethods, RollVector};
use jelatofish::layers::{choose_layer_count, layer_count_from, palette_index, LayerPlan};
use jelatofish::types::{Area, FishError};
use rand::rngs::SmallRng;
use rand::SeedableRng;

fn seeded(seed: u64) -> SmallRng {
    SmallRng::seed_from_u64(seed)
}

#[test]
fn coswave_acceleration_is_linear_only_for_draw_zero() {
    assert_eq!(WaveAccelMethods::from_draw(0), WaveAccelMethods::Linear);
    assert_eq!(WaveAccelMethods::from_draw(1), WaveAccelMethods::Constant);
    assert_eq!(WaveAccelMethods::from_draw(63), WaveAccelMethods::Constant);
}

#[test]
fn flatwave_tags_and_packets() {
    assert_eq!(InterferenceMethods::from_draw(0), InterferenceMethods::MostExtreme);
    assert_eq!(InterferenceMethods::from_draw(1), InterferenceMethods::LeastExtreme);
    assert_eq!(InterferenceMethods::from_draw(2), InterferenceMethods::Max);
    assert_eq!(InterferenceMethods::from_draw(3), InterferenceMethods::Min);
    assert_eq!(InterferenceMethods::from_draw(4), InterferenceMethods::Average);
    assert_eq!(AccelMethods::from_draw(0), AccelMethods::Enabled);
    assert_eq!(AccelMethods::from_draw(1), AccelMethods::Disabled);
    assert_eq!(packet_count_from_draw(1), 2);
    assert_eq!(packet_count_from_draw(3), 4);
}

#[test]
fn spinflake_tags() {
    assert_eq!(SinePositivizingMethods::from_draw(0), SinePositivizingMethods::CompressMethod);
    assert_eq!(SinePositivizingMethods::from_draw(1), SinePositivizingMethods::TruncateMethod);
    assert_eq!(SinePositivizingMethods::from_draw(2), SinePositivizingMethods::AbsoluteMethod);
    assert_eq!(SinePositivizingMethods::from_draw(3), SinePositivizingMethods::SawbladeMethod);
    assert_eq!(TwirlMethods::from_draw(0), TwirlMethods::NoneMethod);
    assert_eq!(TwirlMethods::from_draw(1), TwirlMethods::CurveMethod);
    assert_eq!(TwirlMethods::from_draw(2), TwirlMethods::SineMethod);
}

#[test]
fn spines_are_even_under_the_absolute_method() {
    assert_eq!(spines_from_draw(0, SinePositivizingMethods::CompressMethod), 1);
    assert_eq!(spines_from_draw(15, SinePositivizingMethods::CompressMethod), 16);
    assert_eq!(spines_from_draw(0, SinePositivizingMethods::AbsoluteMethod), 2);
    assert_eq!(spines_from_draw(1, SinePositivizingMethods::AbsoluteMethod), 2);
    assert_eq!(spines_from_draw(14, SinePositivizingMethods::AbsoluteMethod), 16);
    assert_eq!(spines_from_draw(15, SinePositivizingMethods::AbsoluteMethod), 16);
    assert_eq!(spines_from_draw(4, SinePositivizingMethods::SawbladeMethod), 5);
}

#[test]
fn random_counts_stay_in_range() {
    let mut rng = seeded(7);
    let mut seen_min = false;
    let mut seen_max = false;
    for _ in 0..2000 {
        let b = random_bubble_count(&mut rng);
        assert!((MIN_BUBBLES..MAX_BUBBLES).contains(&b));
        seen_min |= b == MIN_BUBBLES;
        seen_max |= b == MAX_BUBBLES - 1;
        let p = random_packet_count(&mut rng);
        assert!((2..=4).contains(&p));
        let f = random_floret_count(&mut rng);
        assert!((1..=4).contains(&f));
        let s = random_spines(&mut rng, SinePositivizingMethods::AbsoluteMethod);
        assert!((2..=16).contains(&s) && s % 2 == 0);
        let s = random_spines(&mut rng, SinePositivizingMethods::TruncateMethod);
        assert!((1..=16).contains(&s));
    }
    assert!(seen_min && seen_max);
}

#[test]
fn random_tags_are_never_the_test_generator() {
    let mut rng = seeded(11);
    let mut kinds = Vec::new();
    for _ in 0..500 {
        let g = Generators::random(&mut rng);
        assert_ne!(g, Generators::Test);
        if !kinds.contains(&g) {
            kinds.push(g);
        }
        let _ = PackMethods::random(&mut rng);
        let _ = InterferenceMethods::random(&mut rng);
        let _ = AccelMethods::random(&mut rng);
        let _ = TwirlMethods::random(&mut rng);
        let _ = SinePositivizingMethods::random(&mut rng);
        let _ = WaveAccelMethods::random(&mut rng);
    }
    assert_eq!(kinds.len(), 5);
}

#[test]
fn coin_shows_both_faces() {
    let mut rng = seeded(3);
    let heads = (0..1000).filter(|_| maybe(&mut rng)).count();
    assert!(heads > 0 && heads < 1000);
}

#[test]
fn roll_never_exceeds_the_size() {
    let mut rng = seeded(5);
    let size = Area::new(3, 2);
    let mut seen_full = false;
    for _ in 0..500 {
        let r = RollVector::random(&mut rng, size);
        assert!(r.x <= 3 && r.y <= 2);
        seen_full |= r.x == 3 && r.y == 2;
    }
    assert!(seen_full);
}

#[test]
fn layer_count_validation() {
    assert_eq!(layer_count_from(None, 4), Ok(4));
    assert_eq!(layer_count_from(Some(2), 4), Ok(2));
    assert_eq!(layer_count_from(Some(6), 4), Ok(6));
    assert_eq!(layer_count_from(Some(1), 4), Err(FishError::LayerCountOutOfRange));
    assert_eq!(layer_count_from(Some(7), 4), Err(FishError::LayerCountOutOfRange));
    let mut rng = seeded(9);
    assert_eq!(choose_layer_count(Some(3), &mut rng), Ok(3));
    assert_eq!(choose_layer_count(Some(0), &mut rng), Err(FishError::LayerCountOutOfRange));
    for _ in 0..200 {
        let n = choose_layer_count(None, &mut rng).unwrap();
        assert!((2..=6).contains(&n));
    }
}

#[test]
fn palette_index_needs_two_colours() {
    let mut rng = seeded(13);
    assert_eq!(palette_index(0, &mut rng), None);
    assert_eq!(palette_index(1, &mut rng), None);
    for _ in 0..200 {
        let i = palette_index(3, &mut rng).unwrap();
        assert!(i < 3);
    }
}

#[test]
fn same_seed_gives_same_choices() {
    let run = |seed: u64| {
        let mut rng = seeded(seed);
        let mut out = Vec::new();
        for _ in 0..20 {
            let plan = LayerPlan::random(&mut rng);
            let roll = RollVector::random(&mut rng, Area::new(8, 8));
            let count = choose_layer_count(None, &mut rng).unwrap();
            out.push((plan, roll, count));
        }
        out
    };
    assert_eq!(run(42), run(42));
    assert_ne!(run(42), run(43));
    for (plan, _, _) in run(42) {
        assert_ne!(plan.kind, Generators::Test);
    }
}

#[test]
fn coin_is_heads_for_draw_zero() {
    assert!(coin_from_draw(0));
    assert!(!coin_from_draw(1));
}

#[test]
fn florets_are_one_more_than_the_draw() {
    assert_eq!(floret_count_from_draw(0), 1);
    assert_eq!(floret_count_from_draw(3), 4);
}
