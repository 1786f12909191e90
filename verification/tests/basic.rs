#[test]
fn it_works() {
    let result = sql_parser::add(2, 2);
    assert_eq!(result, 4);
}
