use soklyn::util::log::Error;
use soklyn::util::scheduler::{
    CosineDecayLR, CosineRate, ExponentialLR, ReduceLROnPlateauScheduler, SchedulerMode,
};
use soklyn::{
    Activation, KernelConfig, Normalisation, Optimiser, PaddingType, Precision, Regularisation, F32,
};

fn single(x: f32) -> F32 {
    F32 { bits: x.to_bits() }
}

fn number(x: F32) -> f32 {
    f32::from_bits(x.bits)
}

fn product(a: F32, b: F32) -> F32 {
    single(number(a) * number(b))
}

#[test]
fn zero_stands_for_nothing() {
    assert_eq!(Normalisation::Disabled.ordinal(), 0);
    assert_eq!(Normalisation::RMSNorm.ordinal(), 1);
    assert_eq!(Normalisation::LayerNorm.ordinal(), 2);
    assert_eq!(Normalisation::BatchNorm.ordinal(), 3);
    assert_eq!(Regularisation::Disabled.ordinal(), 0);
    assert_eq!(Regularisation::L1Regular { regu_coeff: single(0.1) }.ordinal(), 1);
    assert_eq!(Regularisation::L2Regular { regu_coeff: single(0.1) }.ordinal(), 2);
    assert_eq!(Activation::Identity.ordinal(), 0);
    assert_eq!(Activation::Mish.ordinal(), 7);
    assert_eq!(Optimiser::SGD { v_coeff: single(0.9), nesterov: true }.ordinal(), 0);
    assert_eq!(PaddingType::ReplicatePadding.ordinal(), 2);
    assert_eq!(Precision::FP32.size_bytes(), 4);
    assert_eq!(Precision::FP16.size_bytes(), 2);
}

#[test]
fn windows_are_counted() {
    let cfg = KernelConfig::new((3, 3), 1, PaddingType::ZeroPadding, (2, 1), (1, 2)).unwrap();
    assert_eq!(cfg.actual_width(), 3);
    assert_eq!(cfg.actual_height(), 5);
    assert_eq!(cfg.elements_from_length(&(7, 7)), (4, 5));
    assert_eq!(cfg.elements_from_length(&(0, 0)), (0, 0));
    assert_eq!(cfg.auto_pad_val(&(7, 7)), (0, 0));
    assert!(!cfg.ignores_data());
    let sparse = KernelConfig::new((1, 1), 0, PaddingType::ZeroPadding, (2, 1), (1, 1)).unwrap();
    assert!(sparse.ignores_data());
}

#[test]
fn automatic_padding_divides_and_rounds_up() {
    let cfg = KernelConfig::auto_pad((3, 3), PaddingType::ReflectivePadding, (2, 3), (1, 1)).unwrap();
    assert_eq!(cfg.elements_from_length(&(7, 7)), (4, 3));
    assert_eq!(cfg.auto_pad_val(&(7, 7)), (2, 2));
    assert_eq!(cfg.get_pad(), 0);
    assert_eq!(*cfg.get_stride(), (2, 3));
}

#[test]
fn windows_that_make_no_sense_are_refused() {
    let pad = PaddingType::ZeroPadding;
    for (dimension, stride, dilation) in [
        ((0, 1), (1, 1), (1, 1)),
        ((1, 0), (1, 1), (1, 1)),
        ((1, 1), (0, 1), (1, 1)),
        ((1, 1), (1, 0), (1, 1)),
        ((1, 1), (1, 1), (0, 1)),
        ((1, 1), (1, 1), (1, 0)),
    ] {
        assert!(matches!(
            KernelConfig::new(dimension, 0, pad, stride, dilation),
            Err(Error::InvalidConfiguration { .. })
        ));
        assert!(KernelConfig::auto_pad(dimension, pad, stride, dilation).is_err());
    }
}

#[test]
fn a_cosine_rises_and_falls() {
    let mut s = CosineDecayLR::new(single(0.1), single(1.0), 5, 2);
    let (min_lr, max_lr) = (single(0.1), single(1.0));
    assert_eq!(
        s.get_learning_rate(),
        CosineRate::Rising { min_lr, max_lr, step: 0, steps: 2 }
    );
    assert_eq!(s.step(), CosineRate::Rising { min_lr, max_lr, step: 1, steps: 2 });
    assert_eq!(s.step(), CosineRate::Falling { min_lr, max_lr, step: 0, steps: 3 });
    s.step();
    s.step();
    assert_eq!(s.step(), CosineRate::Falling { min_lr, max_lr, step: 3, steps: 3 });
    s.reset();
    assert_eq!(s, CosineDecayLR::new(single(0.1), single(1.0), 5, 2));
    let flat = CosineDecayLR::new(single(0.1), single(1.0), 0, 0);
    assert_eq!(flat.get_learning_rate(), CosineRate::Minimum { min_lr });
}

#[test]
fn an_exponential_rate_is_multiplied() {
    let mut s = ExponentialLR::new(single(1.0), single(0.5));
    assert_eq!(number(s.step(product)), 0.5);
    assert_eq!(number(s.step(product)), 0.25);
    assert_eq!(number(s.get_learning_rate()), 0.25);
    s.reset();
    assert_eq!(number(s.get_learning_rate()), 1.0);
}

#[test]
fn a_plateau_is_waited_out() {
    let mut s = ReduceLROnPlateauScheduler::new(
        3,
        SchedulerMode::Minimize,
        single(0.5),
        single(0.3),
    );
    s.reset(single(1.0));
    assert_eq!(number(s.step(single(2.0), product)), 1.0);
    assert_eq!(number(s.step(single(2.0), product)), 1.0);
    assert_eq!(number(s.step(single(f32::NAN), product)), 1.0);
    assert_eq!(number(s.step(single(3.0), product)), 1.0);
    assert_eq!(number(s.step(single(2.5), product)), 0.5);
    assert_eq!(number(s.step(single(2.5), product)), 0.5);
    assert_eq!(number(s.step(single(1.0), product)), 0.5);
    assert_eq!(number(s.step(single(1.0), product)), 0.5);
    assert_eq!(number(s.step(single(1.0), product)), 0.5);
    assert_eq!(number(s.step(single(1.0), product)), 0.3);
    assert_eq!(number(s.get_learning_rate()), 0.3);
}

#[test]
fn accuracy_is_better_when_it_is_larger() {
    let mut s = ReduceLROnPlateauScheduler::new(
        1,
        SchedulerMode::Maximize,
        single(0.5),
        single(0.0),
    );
    s.reset(single(1.0));
    assert_eq!(number(s.step(single(-5.0), product)), 1.0);
    assert_eq!(number(s.step(single(-4.0), product)), 1.0);
    assert_eq!(number(s.step(single(-4.5), product)), 0.5);
}

#[test]
fn bit_patterns_are_ordered_like_their_numbers() {
    let numbers = [
        f32::NEG_INFINITY,
        f32::MIN,
        -2.5,
        -1.0e-40,
        -0.0,
        0.0,
        1.0e-40,
        1.0,
        f32::MAX,
        f32::INFINITY,
        f32::NAN,
    ];
    for a in numbers {
        assert_eq!(single(a).is_nan(), a.is_nan());
        for b in numbers {
            assert_eq!(single(a).is_less(single(b)), a < b);
            let larger = number(single(a).max(single(b)));
            assert!(larger == a.max(b) || (larger.is_nan() && a.is_nan() && b.is_nan()));
        }
    }
}

#[test]
fn automatic_padding_counts_the_dilation() {
    let cfg = KernelConfig::auto_pad((3, 3), PaddingType::ZeroPadding, (1, 1), (2, 1)).unwrap();
    assert_eq!(cfg.elements_from_length(&(5, 5)), (5, 5));
    assert_eq!(cfg.auto_pad_val(&(5, 5)), (4, 2));
    let sparse = KernelConfig::auto_pad((1, 2), PaddingType::ZeroPadding, (3, 2), (1, 3)).unwrap();
    assert_eq!(sparse.auto_pad_val(&(5, 4)), (0, 2));
}

#[test]
fn a_cosine_climbs_and_goes_down_step_by_step() {
    let mut s = CosineDecayLR::new(single(0.0), single(1.0), 5, 2);
    let mut places = Vec::new();
    for _ in 0..5 {
        places.push(match s.step() {
            CosineRate::Rising { step, steps, .. } => (true, step, steps),
            CosineRate::Falling { step, steps, .. } => (false, step, steps),
            CosineRate::Minimum { .. } => panic!("not there yet"),
        });
    }
    assert_eq!(
        places,
        vec![(true, 1, 2), (false, 0, 3), (false, 1, 3), (false, 2, 3), (false, 3, 3)]
    );
}

#[test]
fn the_minimum_is_never_left() {
    let mut s = ReduceLROnPlateauScheduler::new(
        1,
        SchedulerMode::Maximize,
        single(0.5),
        single(0.25),
    );
    s.reset(single(0.25));
    for x in [1.0, 0.5, 2.0, f32::NAN, -3.0, 0.0, 2.0] {
        assert_eq!(number(s.step(single(x), product)), 0.25);
    }
}
