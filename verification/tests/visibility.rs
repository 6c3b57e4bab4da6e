use rust_lib::submodule::my_implementation;

#[test]
fn test_my_implementation() {
    my_implementation();
}
