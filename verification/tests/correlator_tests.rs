use gnss_rcv::code::Code;
use rustfft::num_complex::Complex64;
use rustfft::FftPlanner;

/// The upsampled complex code: each chip held for two samples, zero
/// imaginary part.
fn upsampled(prn: u8) -> Vec<Complex64> {
    let chips = Code::gen_l1ca_code(prn);
    let mut v = Vec::with_capacity(2046);
    for &c in &chips {
        let s = Complex64::new(c as f64, 0.0);
        v.push(s);
        v.push(s);
    }
    v
}

#[test]
fn forward_then_inverse_fft_reproduces_the_code() {
    let code = upsampled(1);
    let n = code.len();
    let mut planner = FftPlanner::new();

    let mut spectrum = code.clone();
    planner.plan_fft_forward(n).process(&mut spectrum);
    planner.plan_fft_inverse(n).process(&mut spectrum);
    for k in 0..n {
        let back = spectrum[k] / n as f64;
        assert!(
            (back.re - code[k].re).abs() < 1e-9 && back.im.abs() < 1e-9,
            "sample {}: {:?} vs {:?}",
            k,
            back,
            code[k]
        );
    }
}

#[test]
fn circular_correlation_peaks_at_zero_lag() {
    // The receiver's correlator: IFFT(FFT(x) * conj(FFT(code))) / n peaks
    // where the signal aligns with the code; a signal equal to the code
    // peaks at lag zero with the code's energy.
    let code = upsampled(5);
    let n = code.len();
    let mut planner = FftPlanner::new();

    let mut code_fft = code.clone();
    planner.plan_fft_forward(n).process(&mut code_fft);

    let mut sig_fft = code.clone();
    planner.plan_fft_forward(n).process(&mut sig_fft);

    let mut prod: Vec<Complex64> = (0..n).map(|i| sig_fft[i] * code_fft[i].conj()).collect();
    planner.plan_fft_inverse(n).process(&mut prod);

    let corr: Vec<f64> = prod.iter().map(|c| (c / n as f64).norm()).collect();
    let (best, peak) = corr
        .iter()
        .enumerate()
        .max_by(|a, b| a.1.partial_cmp(b.1).unwrap())
        .unwrap();
    assert_eq!(best, 0);
    assert!((peak - n as f64).abs() < 1e-6);
    // Away from the peak and its half-chip neighbours, a Gold code's
    // autocorrelation sidelobes stay far below the main peak.
    for k in 2..n - 1 {
        assert!(corr[k] < 0.1 * peak, "lag {}", k);
    }
    // The one-sample neighbours still half-align with the two-sample chips.
    assert!(corr[1] < 0.55 * peak && corr[n - 1] < 0.55 * peak);
}
