use rust_lib::engine::compute;

/// The sum of squares in native 128-bit arithmetic, which is wide enough
/// for every slice that fits in memory.
fn reference(elements: &[i32]) -> String {
    let mut total: u128 = 0;
    for &v in elements {
        let wide = v as i128;
        total += (wide * wide) as u128;
    }
    total.to_string()
}

/// A fixed pseudo-random sequence of `i32`, extremes included.
fn sample(len: usize, seed: u64) -> Vec<i32> {
    let mut state = seed;
    let mut out = Vec::with_capacity(len);
    for i in 0..len {
        state = state
            .wrapping_mul(6364136223846793005)
            .wrapping_add(1442695040888963407);
        let v = match i % 7 {
            0 => i32::MAX,
            1 => i32::MIN,
            2 => 0,
            _ => (state >> 32) as u32 as i32,
        };
        out.push(v);
    }
    out
}

#[test]
fn compute_of_nothing_is_zero() {
    assert_eq!(compute(&[]), "0");
}

#[test]
fn compute_of_zeros_is_zero() {
    assert_eq!(compute(&[0, 0, 0]), "0");
}

#[test]
fn compute_square_beyond_i32() {
    assert_eq!(compute(&[46341]), "2147488281");
}

#[test]
fn compute_both_extremes() {
    let max = i32::MAX as i128;
    let min = i32::MIN as i128;
    let expected = (max * max + min * min).to_string();
    assert_eq!(expected, "9223372032559808513");
    assert_eq!(compute(&[i32::MAX, i32::MIN]), expected);
}

#[test]
fn compute_small_values() {
    assert_eq!(compute(&[3, -4, 12]), "169");
    assert_eq!(compute(&[-1]), "1");
    assert_eq!(compute(&[1, 2, 3, 4]), "30");
}

#[test]
fn compute_beyond_u64() {
    let elements = [i32::MIN; 5];
    assert_eq!(compute(&elements), "23058430092136939520");
}

#[test]
fn compute_matches_reference() {
    for len in 0..40 {
        for seed in 0..25 {
            let elements = sample(len, seed);
            assert_eq!(compute(&elements), reference(&elements));
        }
    }
}

#[test]
fn compute_matches_reference_on_long_input() {
    let elements = sample(20_000, 99);
    assert_eq!(compute(&elements), reference(&elements));
}

#[test]
fn compute_is_deterministic() {
    let elements = sample(500, 7);
    let first = compute(&elements);
    let second = compute(&elements);
    assert_eq!(first.as_bytes(), second.as_bytes());
}

#[test]
fn compute_does_not_depend_on_order() {
    let elements = sample(64, 3);
    let expected = compute(&elements);
    let mut reversed = elements.clone();
    reversed.reverse();
    assert_eq!(compute(&reversed), expected);
    let mut sorted = elements.clone();
    sorted.sort();
    assert_eq!(compute(&sorted), expected);
    let mut rotated = elements.clone();
    rotated.rotate_left(17);
    assert_eq!(compute(&rotated), expected);
}

#[test]
fn running_total_never_goes_down() {
    let elements = sample(200, 11);
    let mut last: u128 = 0;
    for end in 0..=elements.len() {
        let total: u128 = compute(&elements[..end]).parse().unwrap();
        assert!(total >= last);
        last = total;
    }
}

#[test]
fn compute_gives_digits_without_leading_zero() {
    for seed in 0..20 {
        let text = compute(&sample(30, seed));
        assert!(!text.is_empty());
        assert!(text.bytes().all(|b| b.is_ascii_digit()));
        assert!(text == "0" || !text.starts_with('0'));
    }
}

#[test]
fn compute_leaves_the_input_alone() {
    let elements = sample(50, 5);
    let before = elements.clone();
    let _ = compute(&elements);
    assert_eq!(elements, before);
}
