use rand::RngExt;
use rand_distr::StandardNormal;

use randn_core::concat_streams;
use randn_core::partition_ranges;
use randn_core::Matrix;
use randn_core::Vector;

// Statistical helpers over flat sample buffers.
fn mean(data: &[f64]) -> f64 {
    data.iter().sum::<f64>() / data.len() as f64
}

fn variance(data: &[f64], mean: f64) -> f64 {
    data.iter().map(|&value| (value - mean).powi(2)).sum::<f64>() / data.len() as f64
}

fn standard_deviation(data: &[f64], mean: f64) -> f64 {
    variance(data, mean).sqrt()
}

// Draws `n` standard-normal samples, one worker range at a time as the
// partition plan assigns them, and hands the stream over as bit patterns.
fn draw_stream(n: usize) -> Vec<u64> {
    let plan = partition_ranges(n, 4);
    let mut parts = Vec::with_capacity(plan.len());
    for (start, end) in plan {
        let mut rng = rand::rng();
        let mut part = Vec::with_capacity(end - start);
        for _ in start..end {
            let sample: f64 = rng.sample(StandardNormal);
            part.push(sample.to_bits());
        }
        parts.push(part);
    }
    concat_streams(parts)
}

fn as_samples(bits: Vec<u64>) -> Vec<f64> {
    bits.into_iter().map(f64::from_bits).collect()
}

#[test]
fn test_vector_statistics() {
    let size: usize = 50_000;
    let vec = Vector::from_stream(draw_stream(size));
    assert_eq!(vec.len(), size);

    let data = as_samples(vec.into_stream());
    let mean_value = mean(&data);
    let std_dev = standard_deviation(&data, mean_value);
    let epsilon = 0.01;

    // Assert that the mean and standard deviation are approximately 0 and 1 respectively.
    assert!(
        (mean_value - 0.0).abs() < epsilon,
        "Mean is not approximately 0: actual mean = {}",
        mean_value
    );
    assert!(
        (std_dev - 1.0).abs() < epsilon,
        "Standard deviation is not approximately 1: actual std_dev = {}",
        std_dev
    );
}

#[test]
fn test_matrix_statistics() {
    let (rows, cols): (usize, usize) = (50, 1000);
    let mat = Matrix::from_stream(rows, cols, draw_stream(rows * cols)).unwrap();
    assert_eq!(mat.len(), rows * cols);

    // Flattening in row-major order recovers the full sample stream.
    let data = as_samples(mat.into_stream());
    let mean_value = mean(&data);
    let std_dev = standard_deviation(&data, mean_value);
    let epsilon = 0.01;

    // Assert that the mean and standard deviation are approximately 0 and 1 respectively.
    assert!(
        (mean_value - 0.0).abs() < epsilon,
        "Mean is not approximately 0: actual mean = {}",
        mean_value
    );
    assert!(
        (std_dev - 1.0).abs() < epsilon,
        "Standard deviation is not approximately 1: actual std_dev = {}",
        std_dev
    );
}

#[test]
fn unseeded_streams_differ() {
    let size: usize = 1_000;
    let first = Vector::from_stream(draw_stream(size)).into_stream();
    let second = Vector::from_stream(draw_stream(size)).into_stream();
    assert_eq!(first.len(), size);
    assert_eq!(second.len(), size);
    // Without explicit seeding, two generations must not repeat a sequence:
    // a repeat would point at a reused or cached buffer.
    assert_ne!(first, second);
}
