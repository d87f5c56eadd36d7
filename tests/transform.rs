use fourier_transform::domain::{Domain, SignalError};
use fourier_transform::dft::{phase_index, phase_table};
use fourier_transform::signal::generate;

fn magnitudes(signal: &[(isize, f64)], out: Domain) -> Vec<(isize, f64)> {
    let n = signal.len() as f64;
    let table = phase_table(&signal.to_vec(), out).unwrap();
    table
        .into_iter()
        .map(|(k, row)| {
            let (mut re, mut im) = (0.0, 0.0);
            for ((_, v), p) in signal.iter().zip(row) {
                let angle = -2.0 * std::f64::consts::PI * p as f64 / n;
                re += v * angle.cos();
                im += v * angle.sin();
            }
            (k, (re * re + im * im).sqrt())
        })
        .collect()
}

#[test]
fn phase_index_exact_values() {
    assert_eq!(phase_index(3, -2, 4), 2);
    assert_eq!(phase_index(-3, -2, 4), 2);
    assert_eq!(phase_index(5, 7, 6), 5);
    assert_eq!(phase_index(0, -9, 5), 0);
    assert_eq!(phase_index(-4, 2, 8), 0);
    assert_eq!(phase_index(isize::MAX, isize::MAX, 10), 9);
    assert_eq!(phase_index(isize::MIN, isize::MAX, 10), 4);
    assert_eq!(phase_index(12, 34, 1), 0);
}

#[test]
fn phase_table_of_empty_signal_is_an_error() {
    let empty: Vec<(isize, f64)> = Vec::new();
    assert_eq!(phase_table(&empty, Domain::new(0, 3)), Err(SignalError::EmptySignal));
    assert_eq!(phase_table(&empty, Domain::new(3, 0)), Err(SignalError::EmptySignal));
}

#[test]
fn phase_table_reversed_output_domain_is_an_error() {
    let s = vec![(0isize, 1.0f64)];
    assert_eq!(phase_table(&s, Domain::new(3, 0)), Err(SignalError::InvalidDomain));
}

#[test]
fn phase_table_rows_use_signal_length() {
    let s = vec![(-1isize, 0.0f64), (0, 0.0), (1, 0.0)];
    let t = phase_table(&s, Domain::new(-1, 5)).unwrap();
    assert_eq!(t.len(), 7);
    assert_eq!(t[0], (-1, vec![1, 0, 2]));
    assert_eq!(t[1], (0, vec![0, 0, 0]));
    assert_eq!(t[3], (2, vec![1, 0, 2]));
    assert_eq!(t[6], (5, vec![1, 0, 2]));
}

#[test]
fn dft_of_constant_signal_peaks_at_zero_bin() {
    let (n, c) = (8isize, -1.5f64);
    let s = generate(Domain::new(0, n - 1), |_x: isize| c).unwrap();
    let m = magnitudes(&s, Domain::new(0, n - 1));
    assert_eq!(m[0], (0, n as f64 * c.abs()));
    for (k, v) in &m[1..] {
        assert!(*k > 0);
        assert!(v.abs() < 1e-9);
    }
}

#[test]
fn dft_magnitudes_are_non_negative() {
    let d = Domain::new(-50, 50);
    let s = generate(d, |x: isize| (261.63 * x as f64).sin() - 0.4).unwrap();
    for (_, v) in magnitudes(&s, d) {
        assert!(v >= 0.0);
    }
}

#[test]
fn dft_of_single_tone_peaks_at_its_bin() {
    let n = 16isize;
    let s = generate(Domain::new(0, n - 1), |x: isize| {
        (2.0 * std::f64::consts::PI * 3.0 * x as f64 / n as f64).cos()
    })
    .unwrap();
    let m = magnitudes(&s, Domain::new(0, n - 1));
    assert!((m[3].1 - 8.0).abs() < 1e-9);
    assert!((m[13].1 - 8.0).abs() < 1e-9);
    assert!(m[5].1.abs() < 1e-9);
}

#[test]
fn phase_table_is_deterministic() {
    let s = vec![(-2isize, 1.0f64), (-1, 2.0), (0, 3.0), (1, 4.0)];
    let d = Domain::new(-3, 3);
    assert_eq!(phase_table(&s, d), phase_table(&s, d));
}
