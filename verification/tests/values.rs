use stationeers_mips::value::Value;

fn of(x: f32) -> Value {
    Value::from_bits(x.to_bits())
}

fn back(v: Value) -> f32 {
    f32::from_bits(v.to_bits())
}

const SAMPLES: [f32; 24] = [
    0.0,
    -0.0,
    1.0,
    -1.0,
    0.5,
    0.99999994,
    1.5,
    2.0,
    3.14,
    -2.75,
    7.0,
    511.0,
    512.0,
    16777216.0,
    16777218.0,
    4294967296.0,
    1.0e19,
    1.0e30,
    -1.0e30,
    1.0e-40,
    f32::INFINITY,
    f32::NEG_INFINITY,
    f32::NAN,
    f32::MAX,
];

#[test]
fn constants_are_zero_and_one() {
    assert_eq!(back(Value::zero()), 0.0);
    assert_eq!(Value::zero().to_bits(), 0);
    assert_eq!(back(Value::one()), 1.0);
    assert_eq!(Value::flag(true), Value::one());
    assert_eq!(Value::flag(false), Value::zero());
}

#[test]
fn order_agrees_with_the_numbers() {
    for &a in SAMPLES.iter() {
        for &b in SAMPLES.iter() {
            assert_eq!(of(a).lt(of(b)), a < b, "{} < {}", a, b);
            assert_eq!(of(a).le(of(b)), a <= b, "{} <= {}", a, b);
            assert_eq!(of(a).gt(of(b)), a > b, "{} > {}", a, b);
            assert_eq!(of(a).ge(of(b)), a >= b, "{} >= {}", a, b);
        }
    }
}

#[test]
fn both_zeros_are_equal_in_order() {
    assert!(of(0.0).le(of(-0.0)));
    assert!(of(-0.0).le(of(0.0)));
    assert!(!of(-0.0).lt(of(0.0)));
    assert_ne!(of(0.0), of(-0.0));
}

#[test]
fn nothing_relates_to_what_is_not_a_number() {
    let nan = of(f32::NAN);
    assert!(nan.nan());
    assert!(!nan.lt(of(1.0)));
    assert!(!nan.ge(of(1.0)));
    assert!(!nan.le(nan));
    assert!(!nan.is_true());
    assert!(!of(f32::INFINITY).nan());
}

#[test]
fn truth_is_above_zero() {
    for &a in SAMPLES.iter() {
        assert_eq!(of(a).is_true(), a > 0.0, "{}", a);
    }
}

#[test]
fn index_is_the_cast_to_an_index() {
    for &a in SAMPLES.iter() {
        assert_eq!(of(a).to_index(), a as usize, "{}", a);
    }
    assert_eq!(of(3.99).to_index(), 3);
    assert_eq!(of(-3.99).to_index(), 0);
    assert_eq!(of(f32::NAN).to_index(), 0);
    assert_eq!(of(f32::INFINITY).to_index(), usize::MAX);
    assert_eq!(of(1.0e30).to_index(), usize::MAX);
    assert_eq!(of(16777216.0).to_index(), 16777216);
}

#[test]
fn index_of_every_exponent() {
    let mut bits: u32 = 0;
    while bits < 0x7f80_0000 {
        let x = f32::from_bits(bits | 0x0012_3456);
        assert_eq!(Value::from_bits(x.to_bits()).to_index(), x as usize, "{}", x);
        bits += 0x0080_0000;
    }
}

#[test]
fn from_index_is_the_cast_to_a_number() {
    let samples: [usize; 22] = [
        0,
        1,
        2,
        3,
        7,
        255,
        256,
        16777215,
        16777216,
        16777217,
        16777218,
        16777219,
        33554430,
        33554431,
        33554433,
        33554434,
        33554438,
        4294967295,
        4294967167,
        4294967168,
        usize::MAX - 1,
        usize::MAX,
    ];
    for &n in samples.iter() {
        assert_eq!(Value::from_index(n).to_bits(), (n as f32).to_bits(), "{}", n);
    }
}

#[test]
fn from_index_of_every_width() {
    let mut n: usize = 1;
    loop {
        for offset in [0usize, 1, 2, 3, 5] {
            let m = n.saturating_add(n / 3).saturating_add(offset);
            assert_eq!(Value::from_index(m).to_bits(), (m as f32).to_bits(), "{}", m);
        }
        if n > usize::MAX / 2 {
            break;
        }
        n *= 2;
    }
}

#[test]
fn small_indices_survive_the_round_trip() {
    for n in 0..2000usize {
        assert_eq!(Value::from_index(n).to_index(), n);
    }
    assert_eq!(Value::from_index(16777216).to_index(), 16777216);
    assert_eq!(Value::from_index(16777217).to_index(), 16777216);
}
