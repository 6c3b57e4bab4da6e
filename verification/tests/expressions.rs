use rust_lib::expressions::{always_running, fibonaci, pow};

#[test]
fn pow_of_ten() {
    assert_eq!(pow(10, 2), 100);
}

#[test]
fn pow_edge_cases() {
    assert_eq!(pow(7, 0), 1);
    assert_eq!(pow(0, 0), 1);
    assert_eq!(pow(0, 5), 0);
    assert_eq!(pow(1, 4_000), 1);
    assert_eq!(pow(-1, 7), -1);
    assert_eq!(pow(-3, 3), -27);
    assert_eq!(pow(-2, 63), i64::MIN);
    assert_eq!(pow(2, 62), 1i64 << 62);
    assert_eq!(pow(i32::MAX, 2), 4611686014132420609);
    assert_eq!(pow(i32::MIN, 2), 4611686018427387904);
}

#[test]
fn always_running_gives_twenty() {
    assert_eq!(always_running(), 20);
}

#[test]
fn fibonaci_values() {
    let expected = [0, 1, 1, 2, 3, 5, 8, 13, 21, 34, 55];
    for (index, &value) in expected.iter().enumerate() {
        assert_eq!(fibonaci(index as i32), value);
    }
}

#[test]
fn fibonaci_of_five() {
    assert_eq!(fibonaci(5), 5);
}

#[test]
fn fibonaci_last_that_fits() {
    assert_eq!(fibonaci(46), 1836311903);
    assert_eq!(fibonaci(45), 1134903170);
}

#[test]
fn fibonaci_below_zero_is_one() {
    assert_eq!(fibonaci(-1), 1);
    assert_eq!(fibonaci(i32::MIN), 1);
}
