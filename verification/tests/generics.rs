use rust_lib::generics::{
    find_max_for_list, find_max_for_vec, find_max_value, find_max_value_gen, Point,
};

#[test]
fn find_max_value_of_numbers() {
    let test = vec![1, 23, 5, 6];
    assert_eq!(find_max_value(&test), Ok(&23));
}

#[test]
fn find_max_value_of_nothing() {
    let empty_test: Vec<i32> = Vec::new();
    assert_eq!(
        find_max_value(&empty_test),
        Err("The input vector cannot be empty.".to_string())
    );
}

#[test]
fn find_max_value_with_negatives_and_repeats() {
    assert_eq!(find_max_value(&vec![-7, -3, -3, -9]), Ok(&-3));
    assert_eq!(find_max_value(&vec![i32::MIN]), Ok(&i32::MIN));
    assert_eq!(find_max_value(&vec![4, i32::MAX, 4]), Ok(&i32::MAX));
}

#[test]
fn find_max_value_gives_the_first_occurrence() {
    let numbers = vec![2, 9, 4, 9];
    let found = find_max_value(&numbers).unwrap();
    assert!(std::ptr::eq(found, &numbers[1]));
}

#[test]
fn find_max_value_gen_of_vec_and_slice() {
    let numbers_vec = vec![1, 5, 2, 8, 3];
    let numbers_slice = [10, 5, 20, 15];
    let empty_vec: Vec<i32> = vec![];
    assert_eq!(find_max_value_gen(numbers_vec.iter()), Some(&8));
    assert_eq!(find_max_value_gen(numbers_slice.iter()), Some(&20));
    assert_eq!(find_max_value_gen(empty_vec.iter()), None);
}

#[test]
fn find_max_for_vec_of_numbers() {
    assert_eq!(find_max_for_vec(&vec![1, 5, 2, 8, 3]), Some(&8));
    assert_eq!(find_max_for_vec(&Vec::<u8>::new()), None);
    assert_eq!(find_max_for_vec(&vec!["pear", "apple", "quince"]), Some(&"quince"));
}

#[test]
fn find_max_for_list_of_numbers() {
    assert_eq!(find_max_for_list(&[10, 5, 20, 15]), Some(&20));
    assert_eq!(find_max_for_list::<i64>(&[]), None);
    assert_eq!(find_max_for_list(&[(1, 'b'), (1, 'c'), (0, 'z')]), Some(&(1, 'c')));
}

#[test]
fn find_max_of_equal_elements_is_the_first() {
    let numbers = [3u8, 7, 7, 1];
    let by_vec_input = numbers.to_vec();
    let from_list = find_max_for_list(&numbers).unwrap();
    assert!(std::ptr::eq(from_list, &numbers[1]));
    let from_vec = find_max_for_vec(&by_vec_input).unwrap();
    assert!(std::ptr::eq(from_vec, &by_vec_input[1]));
    let from_iter = find_max_value_gen(numbers.iter()).unwrap();
    assert!(std::ptr::eq(from_iter, &numbers[1]));
}

#[test]
fn point_coordinates() {
    let point = Point { x: 100, y: 200 };
    assert_eq!(*point.get_x(), 100);
    assert_eq!(*point.spec_for_i32(), 100);
    let other = Point { x: 'a', y: 'b' };
    assert_eq!(point.mixed_point_life(&other), (&100, &'b'));
    assert_eq!(point.mixed_point(other), (100, 'b'));
}
