use rlox::native::ClockFunction;

#[test]
fn clock_takes_no_arguments() {
    assert_eq!(ClockFunction.arity(), 0);
    assert_eq!(ClockFunction.to_string(), "<fn clock>(inner)");
}
