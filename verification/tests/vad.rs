use transcriber::vad::{interpolate, Vad};

fn tone(n: usize, seed: i32) -> Vec<i16> {
    let mut samples = Vec::with_capacity(n);
    let mut x: i32 = seed;
    for i in 0..n {
        x = (x * 1103 + 12345) % 20011;
        let wave = ((i % 40) as i32 - 20) * 600;
        samples.push((wave + x - 10000) as i16);
    }
    samples
}

#[test]
fn new_ring_is_empty() {
    let vad = Vad::new();
    assert_eq!(vad.probabilities().len(), 0);
    assert_eq!(vad.leftovers().len(), 0);
    assert_eq!(vad.end_p(), 0);
    assert_eq!(vad.end_cs(), 0);
}

#[test]
fn default_ring_is_empty() {
    let vad = Vad::default();
    assert_eq!(vad.probabilities().len(), 0);
    assert_eq!(vad.leftovers().len(), 0);
}

#[test]
fn empty_ring_answers_zero() {
    let vad = Vad::new();
    assert_eq!(vad.probability_at_cs(0), 0);
    assert_eq!(vad.probability_at_cs(-5), 0);
    assert_eq!(vad.probability_at_cs(1000), 0);
}

#[test]
fn keeps_count_of_frames_and_leftovers() {
    let mut vad = Vad::new();
    let mut fed: usize = 0;
    for n in [0usize, 1, 255, 256, 257, 960, 100, 511, 3000] {
        vad.consume(&tone(n, 7));
        fed += n;
        assert_eq!(vad.probabilities().len(), fed / 256);
        assert_eq!(vad.leftovers().len(), fed % 256);
    }
}

#[test]
fn leftovers_are_the_tail_of_what_was_fed() {
    let mut vad = Vad::new();
    let samples = tone(700, 3);
    vad.consume(&samples);
    assert_eq!(vad.leftovers().as_slice(), &samples[512..]);
}

#[test]
fn probabilities_are_at_most_one() {
    let mut vad = Vad::new();
    vad.consume(&tone(16000, 11));
    assert_eq!(vad.probabilities().len(), 62);
    for p in vad.probabilities() {
        assert!(*p <= 1_000_000);
    }
}

#[test]
fn consuming_in_parts_equals_consuming_at_once() {
    let a = tone(1000, 5);
    let b = tone(2345, 9);
    let mut whole = a.clone();
    whole.extend_from_slice(&b);

    let mut at_once = Vad::new();
    at_once.consume(&whole);
    let mut in_parts = Vad::new();
    in_parts.consume(&a);
    in_parts.consume(&b);

    assert_eq!(at_once.probabilities(), in_parts.probabilities());
    assert_eq!(at_once.leftovers(), in_parts.leftovers());
}

#[test]
fn reset_forgets_everything() {
    let samples = tone(3000, 13);
    let mut fresh = Vad::new();
    fresh.consume(&samples);

    let mut reused = Vad::new();
    reused.consume(&tone(5000, 2));
    reused.reset();
    assert_eq!(reused.probabilities().len(), 0);
    assert_eq!(reused.leftovers().len(), 0);
    reused.consume(&samples);
    assert_eq!(fresh.probabilities(), reused.probabilities());
    assert_eq!(fresh.leftovers(), reused.leftovers());
}

#[test]
fn interpolate_exact_values() {
    assert_eq!(interpolate(0, 1_000_000, 0), 0);
    assert_eq!(interpolate(0, 1_000_000, 16), 1_000_000);
    assert_eq!(interpolate(0, 1_000_000, 8), 500_000);
    assert_eq!(interpolate(200_000, 600_000, 4), 300_000);
    assert_eq!(interpolate(600_000, 200_000, 4), 500_000);
    assert_eq!(interpolate(10, 11, 15), 10);
    assert_eq!(interpolate(u32::MAX, u32::MAX, 7), u32::MAX);
}

#[test]
fn interpolate_is_monotone_in_the_weight() {
    let mut previous = interpolate(100_000, 900_000, 0);
    for w in 1..=16u32 {
        let now = interpolate(100_000, 900_000, w);
        assert!(now >= previous);
        assert!(now - previous <= 800_000 / 16 + 1);
        previous = now;
    }
    let mut previous = interpolate(900_000, 100_000, 0);
    for w in 1..=16u32 {
        let now = interpolate(900_000, 100_000, w);
        assert!(now <= previous);
        previous = now;
    }
}

#[test]
fn probability_query_brackets_and_clamps() {
    let mut vad = Vad::new();
    vad.consume(&tone(256 * 10, 17));
    let p = vad.probabilities().clone();
    assert_eq!(p.len(), 10);
    // before the start: the first sample
    assert_eq!(vad.probability_at_cs(-3), p[0]);
    assert_eq!(vad.probability_at_cs(0), p[0]);
    // 1 cs = 10 ms = 10/16 of a frame
    assert_eq!(vad.probability_at_cs(1), interpolate(p[0], p[1], 10));
    // 8 cs = 80 ms = frame 5 exactly
    assert_eq!(vad.probability_at_cs(8), p[5]);
    // 5 cs = 50 ms = 3 frames and 2/16
    assert_eq!(vad.probability_at_cs(5), interpolate(p[3], p[4], 2));
    // at and past the last sample: the last sample
    assert_eq!(vad.probability_at_cs(15), p[9]);
    assert_eq!(vad.probability_at_cs(16), p[9]);
    assert_eq!(vad.probability_at_cs(1_000_000), p[9]);
    assert_eq!(vad.probability_at_cs(i64::MAX), p[9]);
    assert_eq!(vad.end_p(), p[9]);
}

#[test]
fn end_cs_counts_sixteen_milliseconds_a_frame() {
    let mut vad = Vad::new();
    vad.consume(&tone(256 * 10 + 17, 1));
    assert_eq!(vad.end_cs(), 16);
    vad.consume(&tone(256, 1));
    assert_eq!(vad.end_cs(), 17);
}
