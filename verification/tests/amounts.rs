use cafehub::amount::Amount;

fn money(mantissa: i128, scale: u32) -> Amount {
    Amount::new(mantissa, scale).unwrap()
}

const LIMIT: i128 = 1i128 << 96;

#[test]
fn new_takes_what_fits_in_96_bits_and_28_places() {
    assert!(Amount::new(0, 0).is_some());
    assert!(Amount::new(LIMIT - 1, 28).is_some());
    assert!(Amount::new(-(LIMIT - 1), 0).is_some());
    assert!(Amount::new(LIMIT, 0).is_none());
    assert!(Amount::new(-LIMIT, 0).is_none());
    assert!(Amount::new(1, 29).is_none());
}

#[test]
fn parts_come_back_as_given() {
    let a = money(-12345, 3);
    assert_eq!(a.mantissa(), -12345);
    assert_eq!(a.scale(), 3);
    assert_eq!(Amount::zero().mantissa(), 0);
    assert_eq!(Amount::from_i64(-7).mantissa(), -7);
    assert_eq!(Amount::from_i64(-7).scale(), 0);
}

#[test]
fn sum_is_exact_across_scales() {
    let sum = money(150, 2).checked_add(money(2250, 3)).unwrap();
    assert!(sum.same_value(money(375, 2)));
    assert!(!sum.same_value(money(150, 2)));
    assert!(!sum.same_value(money(2250, 3)));
}

#[test]
fn difference_is_exact_across_scales() {
    let rest = money(1000, 2).checked_sub(money(8, 0)).unwrap();
    assert!(rest.same_value(money(2, 0)));
    let below = money(1, 0).checked_sub(money(25, 1)).unwrap();
    assert!(below.same_value(money(-15, 1)));
    assert!(below.is_negative());
}

#[test]
fn product_is_exact() {
    let product = money(350, 2).checked_mul(money(15, 1)).unwrap();
    assert!(product.same_value(money(525, 2)));
    assert!(money(0, 5).checked_mul(money(15, 1)).unwrap().same_value(Amount::zero()));
}

#[test]
fn times_multiplies_by_a_whole_number() {
    let subtotal = money(350, 2).times(3).unwrap();
    assert!(subtotal.same_value(money(1050, 2)));
    assert!(money(350, 2).times(0).unwrap().same_value(Amount::zero()));
    assert!(money(350, 2).times(-2).unwrap().same_value(money(-7, 0)));
}

#[test]
fn sum_that_needs_more_than_96_bits_is_refused() {
    let big = money(LIMIT - 1, 0);
    assert!(big.checked_add(money(1, 0)).is_none());
    assert!(big.checked_add(money(-1, 0)).is_some());
}

#[test]
fn sum_that_would_be_rounded_is_refused() {
    let big = money(1i128 << 95, 0);
    assert!(big.checked_add(money(5, 1)).is_none());
    assert!(big.checked_sub(money(1, 2)).is_none());
}

#[test]
fn results_are_written_at_the_larger_scale() {
    let sum = money(150, 2).checked_add(money(2250, 3)).unwrap();
    assert_eq!((sum.mantissa(), sum.scale()), (3750, 3));
    let rest = money(1000, 2).checked_sub(money(8, 0)).unwrap();
    assert_eq!((rest.mantissa(), rest.scale()), (200, 2));
    let nothing = money(8, 0).checked_sub(money(800, 2)).unwrap();
    assert_eq!((nothing.mantissa(), nothing.scale()), (0, 2));
}

#[test]
fn zero_leaves_the_other_operand_as_it_is() {
    let sum = money(0, 5).checked_add(money(7, 1)).unwrap();
    assert_eq!((sum.mantissa(), sum.scale()), (7, 1));
    let sum = money(7, 1).checked_add(money(0, 5)).unwrap();
    assert_eq!((sum.mantissa(), sum.scale()), (7, 1));
    let rest = money(0, 5).checked_sub(money(7, 1)).unwrap();
    assert_eq!((rest.mantissa(), rest.scale()), (-7, 1));
    let rest = money(7, 1).checked_sub(money(0, 5)).unwrap();
    assert_eq!((rest.mantissa(), rest.scale()), (7, 1));
}

#[test]
fn products_add_the_scales() {
    let product = money(350, 2).checked_mul(money(15, 1)).unwrap();
    assert_eq!((product.mantissa(), product.scale()), (5250, 3));
    let subtotal = money(400, 2).times(2).unwrap();
    assert_eq!((subtotal.mantissa(), subtotal.scale()), (800, 2));
    let nothing = money(0, 5).checked_mul(money(15, 1)).unwrap();
    assert_eq!((nothing.mantissa(), nothing.scale()), (0, 0));
    let nothing = money(400, 2).times(0).unwrap();
    assert_eq!((nothing.mantissa(), nothing.scale()), (0, 0));
}

#[test]
fn times_takes_quantities_beyond_a_stock_count() {
    let many = money(1, 2).times(1i64 << 40).unwrap();
    assert!(many.same_value(money(1i128 << 40, 2)));
    assert!(money(1i128 << 40, 0).times(i64::MAX).is_none());
}

#[test]
fn product_that_needs_more_than_96_bits_is_refused() {
    assert!(money(1i128 << 95, 0).times(2).is_none());
    assert!(money(1i128 << 94, 0).times(2).is_some());
}

#[test]
fn product_with_too_many_places_is_refused() {
    assert!(money(1, 20).checked_mul(money(1, 9)).is_none());
    assert!(money(1, 20).checked_mul(money(1, 8)).unwrap().same_value(money(1, 28)));
}

#[test]
fn order_goes_by_value_not_by_mantissa() {
    assert!(money(5, 1).less_than(money(1, 0)));
    assert!(!money(1, 0).less_than(money(5, 1)));
    assert!(!money(10, 1).less_than(money(1, 0)));
    assert!(money(-1, 0).less_than(money(1, 28)));
    assert!(money(100, 2).same_value(money(1, 0)));
    assert!(!money(100, 2).same_value(money(1, 1)));
}

#[test]
fn sign_tests() {
    assert!(money(1, 28).is_positive());
    assert!(!money(0, 3).is_positive());
    assert!(!money(-1, 0).is_positive());
    assert!(money(-1, 28).is_negative());
    assert!(!money(0, 0).is_negative());
}

struct Dice(u64);

impl Dice {
    fn roll(&mut self) -> u64 {
        self.0 = self.0.wrapping_mul(6364136223846793005).wrapping_add(1442695040888963407);
        self.0 >> 11
    }

    fn mantissa(&mut self) -> i128 {
        let bits = self.roll() % 97;
        let wide = ((self.roll() as u128) << 53) ^ ((self.roll() as u128) << 20) ^ self.roll() as u128;
        let magnitude = if bits == 0 { 0 } else { (wide & ((1u128 << bits) - 1)) as i128 };
        if self.roll() % 2 == 0 {
            magnitude
        } else {
            -magnitude
        }
    }

    fn scale(&mut self, below: u64) -> u32 {
        (self.roll() % below) as u32
    }
}

fn pow10(n: u32) -> i128 {
    10i128.pow(n)
}

fn aligned(mantissa: i128, from: u32, to: u32) -> Option<i128> {
    mantissa.checked_mul(pow10(to - from)).filter(|m| -LIMIT < *m && *m < LIMIT)
}

#[test]
fn sums_and_differences_agree_with_whole_number_arithmetic() {
    let mut dice = Dice(17);
    let mut exact = 0;
    for _ in 0..40000 {
        let (am, asc) = (dice.mantissa(), dice.scale(29));
        let (bm, bsc) = (dice.mantissa(), dice.scale(29));
        let a = money(am, asc);
        let b = money(bm, bsc);
        let scale = asc.max(bsc);
        let parts = aligned(am, asc, scale).zip(aligned(bm, bsc, scale));
        let sum = parts.map(|(x, y)| x + y).filter(|m| -LIMIT < *m && *m < LIMIT);
        match (a.checked_add(b), sum) {
            (Some(got), Some(want)) => {
                exact += 1;
                assert!(got.same_value(money(want, scale)), "{:?} + {:?} = {:?}", a, b, got);
                let written = if am == 0 {
                    (bm, bsc)
                } else if bm == 0 {
                    (am, asc)
                } else {
                    (want, scale)
                };
                assert_eq!((got.mantissa(), got.scale()), written, "{:?} + {:?}", a, b);
            }
            (None, None) => {}
            (got, want) => panic!("{:?} + {:?}: {:?} against {:?}", a, b, got, want),
        }
        let difference = parts.map(|(x, y)| x - y).filter(|m| -LIMIT < *m && *m < LIMIT);
        match (a.checked_sub(b), difference) {
            (Some(got), Some(want)) => {
                assert!(got.same_value(money(want, scale)), "{:?} - {:?} = {:?}", a, b, got);
                let written = if am == 0 {
                    (-bm, bsc)
                } else if bm == 0 {
                    (am, asc)
                } else {
                    (want, scale)
                };
                assert_eq!((got.mantissa(), got.scale()), written, "{:?} - {:?}", a, b);
            }
            (None, None) => {}
            (got, want) => panic!("{:?} - {:?}: {:?} against {:?}", a, b, got, want),
        }
    }
    assert!(exact > 1000);
}

#[test]
fn products_agree_with_whole_number_arithmetic() {
    let mut dice = Dice(23);
    let mut exact = 0;
    for _ in 0..40000 {
        let (am, asc) = (dice.mantissa(), dice.scale(29));
        let quantity = (dice.roll() as i64 % (1i64 << (dice.roll() % 32))) as i32
            * if dice.roll() % 4 == 0 { -1 } else { 1 };
        let a = money(am, asc);
        let product = am.checked_mul(quantity as i128).filter(|m| -LIMIT < *m && *m < LIMIT);
        match (a.times(i64::from(quantity)), product) {
            (Some(got), Some(want)) => {
                exact += 1;
                assert!(got.same_value(money(want, asc)), "{:?} * {} = {:?}", a, quantity, got);
                let written = if want == 0 { (0, 0) } else { (want, asc) };
                assert_eq!((got.mantissa(), got.scale()), written, "{:?} * {}", a, quantity);
            }
            (None, None) => {}
            (got, want) => panic!("{:?} * {}: {:?} against {:?}", a, quantity, got, want),
        }
        let (bm, bsc) = (dice.mantissa() >> 48, dice.scale(29));
        let b = money(bm, bsc);
        let product = (am >> 48)
            .checked_mul(bm)
            .filter(|m| -LIMIT < *m && *m < LIMIT && asc + bsc <= 28);
        match (money(am >> 48, asc).checked_mul(b), product) {
            (Some(got), Some(want)) => {
                assert!(got.same_value(money(want, asc + bsc)));
                let written = if want == 0 { (0, 0) } else { (want, asc + bsc) };
                assert_eq!((got.mantissa(), got.scale()), written);
            }
            (None, None) => {}
            (got, want) => panic!("{:?} * {:?}: {:?} against {:?}", a, b, got, want),
        }
    }
    assert!(exact > 1000);
}

#[test]
fn order_agrees_with_whole_number_arithmetic() {
    let mut dice = Dice(29);
    for _ in 0..40000 {
        let (am, asc) = (dice.mantissa(), dice.scale(20));
        let (bm, bsc) = (dice.mantissa(), asc + dice.scale(9));
        let a = money(am, asc);
        let b = money(bm, bsc);
        let wide = am * pow10(bsc - asc);
        assert_eq!(a.less_than(b), wide < bm, "{:?} < {:?}", a, b);
        assert_eq!(b.less_than(a), bm < wide, "{:?} < {:?}", b, a);
        assert_eq!(a.same_value(b), wide == bm);
        assert_eq!(a.is_positive(), am > 0);
        assert_eq!(a.is_negative(), am < 0);
    }
}
