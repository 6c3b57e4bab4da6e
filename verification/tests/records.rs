use rust_lib::lifetime::{find_longest, ImportantExcerpt};
use rust_lib::matching::plus_one;
use rust_lib::method::Rectangle;
use rust_lib::users::{create_user, create_user_from_existing};

#[test]
fn rectangle_area() {
    let reca = Rectangle { width: 100, height: 100 };
    assert_eq!(reca.area(), 10_000);
    assert_eq!(Rectangle { width: 65_535, height: 65_537 }.area(), u32::MAX);
    assert_eq!(Rectangle { width: 0, height: u32::MAX }.area(), 0);
}

#[test]
fn rectangle_set_width() {
    let mut reca = Rectangle { width: 100, height: 100 };
    reca.set_width(300);
    assert_eq!(reca.width, 300);
    assert_eq!(reca.height, 100);
    assert_eq!(reca.area(), 30_000);
}

#[test]
fn rectangle_square() {
    let reca = Rectangle::square(100, 50);
    assert_eq!(reca.width, 100);
    assert_eq!(reca.height, 50);
    assert_eq!(reca.area(), 5_000);
}

#[test]
fn new_user_is_active() {
    let user = create_user(String::from("hello@sjtu.edu.cn"), String::from("wow"));
    assert!(user.active);
    assert_eq!(user.id, 12345);
    assert_eq!(user.email, "hello@sjtu.edu.cn");
    assert_eq!(user.user_name, "wow");
}

#[test]
fn user_from_existing_is_inactive() {
    let user = create_user(String::from("hello@sjtu.edu.cn"), String::from("wow"));
    let second = create_user_from_existing(user.clone());
    assert!(!second.active);
    assert_eq!(second.id, user.id);
    assert_eq!(second.email, user.email);
    assert_eq!(second.user_name, user.user_name);
}

#[test]
fn longest_of_two() {
    assert_eq!(find_longest("hello world", "test"), "hello world");
    assert_eq!(find_longest("test", "hello world"), "hello world");
}

#[test]
fn longest_of_equal_lengths_is_the_second() {
    assert_eq!(find_longest("abc", "xyz"), "xyz");
    assert_eq!(find_longest("", ""), "");
}

#[test]
fn longest_counts_bytes() {
    // two characters in four bytes against three characters in three bytes
    assert_eq!(find_longest("éé", "abc"), "éé");
}

#[test]
fn excerpt_level_and_part() {
    let novel = String::from("test string");
    let excerpt = ImportantExcerpt { part: &novel };
    assert_eq!(excerpt.level(), 3);
    let (line, part) = excerpt.announce_and_return_part("Hello, this is an announcement");
    assert_eq!(line, "Attention please: Hello, this is an announcement");
    assert_eq!(part, "test string");
}

#[test]
fn plus_one_of_some_and_none() {
    assert_eq!(plus_one(Some(6)), Some(7));
    assert_eq!(plus_one(Some(-1)), Some(0));
    assert_eq!(plus_one(Some(i32::MIN)), Some(i32::MIN + 1));
    assert_eq!(plus_one(Some(i32::MAX - 1)), Some(i32::MAX));
    assert_eq!(plus_one(None), None);
}
