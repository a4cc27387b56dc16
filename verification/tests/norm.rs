use lbfgs_driver::norm::ScalarAccum;
use lbfgs_driver::norm::SumSquares;
use lbfgs_driver::norm::l2_norm;

/// A high-precision scalar for the accumulation, as the real callers use.
#[derive(Clone, Copy, Debug, PartialEq)]
struct Scalar(f64);

impl ScalarAccum for Scalar {
    fn plus(&self, other: &Self) -> Self {
        Scalar(self.0 + other.0)
    }
}

/// A one-dimensional tensor of elements; its reduction is the sum of the
/// squared elements, or an error when the tensor is marked malformed.
struct TestTensor {
    vals: Vec<f64>,
    malformed: bool,
}

impl TestTensor {
    fn new(vals: Vec<f64>) -> Self {
        TestTensor { vals, malformed: false }
    }
}

impl SumSquares<Scalar, String> for TestTensor {
    fn sum_squares(&self) -> Result<Scalar, String> {
        if self.malformed {
            return Err(String::from("cannot reduce tensor"));
        }
        let mut total = 0.0_f64;
        for v in &self.vals {
            total += v * v;
        }
        Ok(Scalar(total))
    }
}

#[test]
fn norm_is_squared_sum_without_square_root() {
    let tensors = vec![TestTensor::new(vec![3.0, 4.0])];
    let (res, _) = l2_norm(&tensors, Scalar(0.0));
    assert_eq!(res.unwrap(), Scalar(25.0));
}

#[test]
fn norm_of_empty_collection_is_zero() {
    let tensors: Vec<TestTensor> = vec![];
    let (res, _) = l2_norm(&tensors, Scalar(0.0));
    assert_eq!(res.unwrap(), Scalar(0.0));
}

#[test]
fn norm_accumulates_across_tensors() {
    let tensors = vec![
        TestTensor::new(vec![1.0, 2.0]),
        TestTensor::new(vec![3.0]),
        TestTensor::new(vec![0.5, 0.5]),
    ];
    let (res, _) = l2_norm(&tensors, Scalar(0.0));
    // 1 + 4 + 9 + 0.25 + 0.25
    assert_eq!(res.unwrap(), Scalar(14.5));
}

#[test]
fn norm_order_independent_within_tolerance() {
    let a = vec![0.1, 0.7, 1e-9];
    let b = vec![123456.789, 3.3];
    let c = vec![2e-7, 9.9, 0.004];
    let forward = vec![
        TestTensor::new(a.clone()),
        TestTensor::new(b.clone()),
        TestTensor::new(c.clone()),
    ];
    let backward = vec![TestTensor::new(c), TestTensor::new(b), TestTensor::new(a)];
    let (rf, _) = l2_norm(&forward, Scalar(0.0));
    let (rb, _) = l2_norm(&backward, Scalar(0.0));
    let x = rf.unwrap().0;
    let y = rb.unwrap().0;
    let rel = ((x - y) / x).abs();
    assert!(rel < 1e-9, "relative difference {} too large", rel);
}

#[test]
fn norm_reports_first_reduction_error() {
    let tensors = vec![
        TestTensor::new(vec![1.0]),
        TestTensor { vals: vec![], malformed: true },
        TestTensor::new(vec![2.0]),
    ];
    let (res, _) = l2_norm(&tensors, Scalar(0.0));
    assert_eq!(res.unwrap_err(), "cannot reduce tensor");
}
