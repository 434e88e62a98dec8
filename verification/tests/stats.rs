use executorch_bencher::float64::Float64;
use executorch_bencher::stats::{metric_parts, sorted_samples, total_le};

fn f(v: f64) -> Float64 {
    Float64 { bits: v.to_bits() }
}

fn values(v: &[Float64]) -> Vec<f64> {
    v.iter().map(|x| f64::from_bits(x.bits)).collect()
}

#[test]
fn samples_sort_in_the_total_order() {
    let input = vec![f(3.0), f(-1.5), f(0.0), f(-0.0), f(10.0), f(-20.0), f(3.0)];
    let sorted = sorted_samples(&input);
    let mut expected: Vec<f64> = values(&input);
    expected.sort_by(f64::total_cmp);
    assert_eq!(values(&sorted).iter().map(|v| v.to_bits()).collect::<Vec<_>>(),
        expected.iter().map(|v| v.to_bits()).collect::<Vec<_>>());
    assert_eq!(sorted[2].bits, (-0.0f64).to_bits());
    assert_eq!(sorted[3].bits, 0.0f64.to_bits());
}

#[test]
fn the_total_order_agrees_with_total_cmp() {
    let xs = [f64::NEG_INFINITY, -2.0, -0.0, 0.0, 1e-300, 7.5, f64::INFINITY, f64::NAN, -f64::NAN];
    for a in xs {
        for b in xs {
            assert_eq!(total_le(f(a), f(b)), a.total_cmp(&b) != std::cmp::Ordering::Greater, "{a} {b}");
        }
    }
}

#[test]
fn an_odd_count_has_one_middle_element() {
    let p = metric_parts(&vec![f(5.0), f(1.0), f(3.0)]).unwrap();
    assert_eq!(p.n, 3);
    assert_eq!(p.min, f(1.0));
    assert_eq!(p.max, f(5.0));
    assert_eq!(p.lower_middle, f(3.0));
    assert_eq!(p.upper_middle, f(3.0));
}

#[test]
fn an_even_count_has_two_middle_elements() {
    let p = metric_parts(&vec![f(10.0), f(40.0), f(20.0), f(30.0)]).unwrap();
    assert_eq!(p.n, 4);
    assert_eq!(p.min, f(10.0));
    assert_eq!(p.max, f(40.0));
    assert_eq!(p.lower_middle, f(20.0));
    assert_eq!(p.upper_middle, f(30.0));
}

#[test]
fn no_samples_have_no_statistics() {
    assert!(metric_parts(&Vec::new()).is_none());
}
