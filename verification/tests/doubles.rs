use statusline::database::session::clamp_reset_cost;
use statusline::double::Double;

fn double(x: f64) -> Double {
    Double { bits: x.to_bits() }
}

fn number(x: Double) -> f64 {
    f64::from_bits(x.bits)
}

struct Stream(u64);

impl Stream {
    fn next(&mut self) -> u64 {
        self.0 ^= self.0 << 13;
        self.0 ^= self.0 >> 7;
        self.0 ^= self.0 << 17;
        self.0
    }

    /// Doubles of all kinds: any bits, near ones, decimals, whole numbers, the smallest.
    fn double(&mut self) -> f64 {
        let x = self.next();
        match self.next() % 8 {
            0 => f64::from_bits(x),
            1 => f64::from_bits((x & 0x800f_ffff_ffff_ffff) | ((1000 + x % 80) << 52)),
            2 => (x % 1_000_000) as f64 / 100.0,
            3 => -((x % 1_000_000) as f64 / 1000.0),
            4 => (x % 4096) as f64 / 8.0,
            5 => f64::from_bits(x % 0x20_0000_0000_0000),
            6 => x as f64,
            _ => [0.0, -0.0, 1.0, -1.0, f64::MAX, f64::MIN_POSITIVE, f64::INFINITY, f64::NAN]
                [(x % 8) as usize],
        }
    }
}

fn same(a: Double, b: f64) -> bool {
    (number(a).is_nan() && b.is_nan()) || a.bits == b.to_bits()
}

#[test]
fn sums_and_differences_are_those_of_the_machine() {
    let mut s = Stream(1);
    for _ in 0..200_000 {
        let (a, b) = (s.double(), s.double());
        assert!(same(double(a).sum(&double(b)), a + b), "{a:e} + {b:e}");
        assert!(same(double(a).difference(&double(b)), a - b), "{a:e} - {b:e}");
    }
    assert_eq!(number(double(0.1).sum(&double(0.2))), 0.30000000000000004);
    assert_eq!(number(double(1e16).sum(&double(1.0))), 1e16);
    assert_eq!(double(5e-324).sum(&double(5e-324)), double(1e-323));
    assert_eq!(double(f64::MAX).sum(&double(f64::MAX)), double(f64::INFINITY));
    assert_eq!(double(-0.0).sum(&double(-0.0)), double(-0.0));
    assert_eq!(double(2.5).difference(&double(2.5)), double(0.0));
}

#[test]
fn products_and_quotients_are_those_of_the_machine() {
    let mut s = Stream(2);
    for _ in 0..200_000 {
        let a = s.double();
        let k = s.next() >> (s.next() % 64);
        assert!(same(double(a).product(k), a * k as f64), "{a:e} * {k}");
        if k > 0 {
            assert!(same(double(a).quotient(k), a / k as f64), "{a:e} / {k}");
            let n = s.next() >> (s.next() % 64);
            assert!(same(Double::of_ratio(n, k), n as f64 / k as f64), "{n} / {k}");
        }
        assert!(same(Double::of_whole(k), k as f64));
    }
    assert_eq!(double(5e-324).quotient(2), double(0.0));
    assert_eq!(double(1.5e-323).quotient(2), double(1e-323));
    assert_eq!(double(f64::MAX).product(2), double(f64::INFINITY));
}

#[test]
fn the_order_is_that_of_the_machine() {
    let mut s = Stream(3);
    for _ in 0..200_000 {
        let (a, b) = (s.double(), s.double());
        assert_eq!(double(a).not_above(&double(b)), a <= b, "{a:e} {b:e}");
        assert_eq!(double(a).less_than(&double(b)), a < b, "{a:e} {b:e}");
        assert_eq!(double(a).positive(), a > 0.0);
    }
}

#[test]
fn texts_are_those_of_the_machine() {
    let mut s = Stream(4);
    for _ in 0..3_000 {
        let a = s.double();
        assert_eq!(double(a).text(0), format!("{a:.0}"), "{a:e}");
        assert_eq!(double(a).text(1), format!("{a:.1}"), "{a:e}");
        assert_eq!(double(a).text(2), format!("{a:.2}"), "{a:e}");
    }
    assert_eq!(double(1e22).text(2), "10000000000000000000000.00");
    assert_eq!(double(f64::MAX).text(2), format!("{:.2}", f64::MAX));
    assert_eq!(double(-0.001).text(2), "-0.00");
    assert_eq!(double(f64::NEG_INFINITY).text(2), "-inf");
    assert_eq!(double(f64::NAN).text(2), "NaN");
}

#[test]
fn whole_numbers_are_those_of_the_machine() {
    let mut s = Stream(5);
    for _ in 0..200_000 {
        let a = s.double();
        assert_eq!(double(a).round(), a.round() as i64, "{a:e}");
        assert_eq!(double(a).round_count(), a.round() as u32, "{a:e}");
        assert_eq!(double(a).truncate(u32::MAX), a as u32, "{a:e}");
        assert_eq!(double(a).truncate(255), (a as u8) as u32, "{a:e}");
    }
}

#[test]
fn costs_grow_as_doubles_do() {
    assert_eq!(clamp_reset_cost(double(0.3), double(0.1)), double(0.3 - 0.1));
    assert_eq!(clamp_reset_cost(double(10.0), double(10.0)), double(0.0));
    assert_eq!(clamp_reset_cost(double(0.5), double(10.0)), double(0.5));
    assert_eq!(clamp_reset_cost(double(5.0), double(10.0)), double(0.0));
    assert_eq!(clamp_reset_cost(double(9.8), double(10.0)), double(0.0));
    assert_eq!(clamp_reset_cost(double(-1.0), double(10.0)), double(0.0));
    let mut s = Stream(6);
    for _ in 0..20_000 {
        let (t, d) = ((s.next() % 100_000) as f64 / 100.0, (s.next() % 1_000) as f64 / 1000.0);
        assert!(double(t).not_above(&double(t).sum(&double(d))));
    }
}
