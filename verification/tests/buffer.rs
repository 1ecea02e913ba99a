use num_complex::Complex;
use pitch_detection::utils::buffer::copy_complex_to_real;
use pitch_detection::utils::buffer::copy_complex_to_real_with;
use pitch_detection::utils::buffer::copy_real_to_complex;
use pitch_detection::utils::buffer::copy_real_to_complex_with;
use pitch_detection::utils::buffer::new_complex_buffer;
use pitch_detection::utils::buffer::new_complex_buffer_with;
use pitch_detection::utils::buffer::new_real_buffer;
use pitch_detection::utils::buffer::new_real_buffer_with;
use pitch_detection::utils::buffer::ComplexComponent;

#[test]
fn real_buffer_is_filled_with_zeros() {
    let buffer: Vec<f64> = new_real_buffer(4);
    assert_eq!(buffer, vec![0.0, 0.0, 0.0, 0.0]);
    let single: Vec<f32> = new_real_buffer(2);
    assert_eq!(single, vec![0.0f32, 0.0]);
}

#[test]
fn real_buffer_is_filled_with_the_value() {
    let ones: Vec<f32> = new_real_buffer_with(3, 1.0);
    assert_eq!(ones, vec![1.0f32, 1.0, 1.0]);
}

#[test]
fn buffers_of_size_zero_are_empty() {
    let buffer: Vec<f64> = new_real_buffer(0);
    assert!(buffer.is_empty());
    let buffer: Vec<f64> = new_real_buffer_with(0, 2.0);
    assert!(buffer.is_empty());
    let buffer: Vec<Complex<f64>> = new_complex_buffer(0);
    assert!(buffer.is_empty());
}

#[test]
fn complex_buffer_is_filled_with_zeros() {
    let buffer: Vec<Complex<f64>> = new_complex_buffer(3);
    assert_eq!(buffer, vec![Complex::new(0.0, 0.0); 3]);
}

#[test]
fn complex_buffer_is_filled_with_the_value() {
    let other: Vec<Complex<f64>> = new_complex_buffer_with(2, Complex::new(1.5, -2.0));
    assert_eq!(other, vec![Complex::new(1.5, -2.0), Complex::new(1.5, -2.0)]);
}

#[test]
fn real_to_complex_fills_the_real_half() {
    let x: Vec<f64> = vec![1.0, -2.5, 3.25];
    let mut c: Vec<Complex<f64>> = vec![Complex::new(9.0, 9.0); 5];
    copy_real_to_complex(&x, &mut c, ComplexComponent::Re);
    assert_eq!(
        c,
        vec![
            Complex::new(1.0, 0.0),
            Complex::new(-2.5, 0.0),
            Complex::new(3.25, 0.0),
            Complex::new(0.0, 0.0),
            Complex::new(0.0, 0.0),
        ]
    );
}

#[test]
fn real_to_complex_fills_the_imaginary_half() {
    let x: Vec<f64> = vec![1.0, -2.5];
    let mut c: Vec<Complex<f64>> = vec![Complex::new(9.0, 9.0); 3];
    copy_real_to_complex(&x, &mut c, ComplexComponent::Im);
    assert_eq!(
        c,
        vec![Complex::new(0.0, 1.0), Complex::new(0.0, -2.5), Complex::new(0.0, 0.0)]
    );
}

#[test]
fn real_to_complex_with_uses_the_fill_value() {
    let x: Vec<f64> = vec![4.0];
    let mut c: Vec<Complex<f64>> = vec![Complex::new(9.0, 9.0); 2];
    copy_real_to_complex_with(&x, &mut c, ComplexComponent::Re, 7.0);
    assert_eq!(c, vec![Complex::new(4.0, 7.0), Complex::new(7.0, 7.0)]);
}

#[test]
fn complex_to_real_reads_each_half() {
    let c: Vec<Complex<f64>> = vec![Complex::new(1.0, 10.0), Complex::new(2.0, 20.0)];
    let mut re: Vec<f64> = vec![5.0; 4];
    copy_complex_to_real(&c, &mut re, ComplexComponent::Re);
    assert_eq!(re, vec![1.0, 2.0, 0.0, 0.0]);
    let mut im: Vec<f64> = vec![5.0; 3];
    copy_complex_to_real(&c, &mut im, ComplexComponent::Im);
    assert_eq!(im, vec![10.0, 20.0, 0.0]);
}

#[test]
fn complex_to_real_with_uses_the_fill_value() {
    let c: Vec<Complex<f64>> = vec![Complex::new(1.0, 10.0)];
    let mut out: Vec<f64> = vec![5.0; 3];
    copy_complex_to_real_with(&c, &mut out, ComplexComponent::Im, -1.0);
    assert_eq!(out, vec![10.0, -1.0, -1.0]);
}

#[test]
fn copies_between_buffers_of_equal_length() {
    let x: Vec<f64> = vec![1.0, 2.0];
    let mut c: Vec<Complex<f64>> = vec![Complex::new(9.0, 9.0); 2];
    copy_real_to_complex(&x, &mut c, ComplexComponent::Re);
    assert_eq!(c, vec![Complex::new(1.0, 0.0), Complex::new(2.0, 0.0)]);
    let mut back: Vec<f64> = vec![9.0; 2];
    copy_complex_to_real(&c, &mut back, ComplexComponent::Re);
    assert_eq!(back, x);
}

#[test]
fn copies_of_an_empty_input_clear_the_output() {
    let x: Vec<f64> = Vec::new();
    let mut c: Vec<Complex<f64>> = vec![Complex::new(9.0, 9.0); 2];
    copy_real_to_complex(&x, &mut c, ComplexComponent::Re);
    assert_eq!(c, vec![Complex::new(0.0, 0.0); 2]);
}

#[test]
fn round_trip_through_the_real_half() {
    let x: Vec<f64> = vec![1.0, -2.5, 3.25];
    let mut c: Vec<Complex<f64>> = vec![Complex::new(9.0, 9.0); 5];
    copy_real_to_complex(&x, &mut c, ComplexComponent::Re);
    let mut back: Vec<f64> = vec![7.0; 6];
    copy_complex_to_real(&c, &mut back, ComplexComponent::Re);
    assert_eq!(back, vec![1.0, -2.5, 3.25, 0.0, 0.0, 0.0]);
}

#[test]
fn round_trip_through_the_imaginary_half() {
    let x: Vec<f32> = vec![0.5, 0.25];
    let mut c: Vec<Complex<f32>> = vec![Complex::new(9.0, 9.0); 2];
    copy_real_to_complex(&x, &mut c, ComplexComponent::Im);
    let mut back: Vec<f32> = vec![7.0; 3];
    copy_complex_to_real(&c, &mut back, ComplexComponent::Im);
    assert_eq!(back, vec![0.5f32, 0.25, 0.0]);
}

#[test]
fn round_trip_leaves_the_other_half_zero() {
    let x: Vec<f64> = vec![1.0, -2.5, 3.25];
    let mut c: Vec<Complex<f64>> = vec![Complex::new(9.0, 9.0); 4];
    copy_real_to_complex(&x, &mut c, ComplexComponent::Re);
    let mut other: Vec<f64> = vec![7.0; 4];
    copy_complex_to_real(&c, &mut other, ComplexComponent::Im);
    assert_eq!(other, vec![0.0, 0.0, 0.0, 0.0]);
}
