use async_log::instrument;
use async_log::instrument::{InstrumentError, Parameter};

fn named(name: &str, value: &str) -> Parameter {
    Parameter::Named { name: name.to_string(), value: value.to_string() }
}

#[test]
fn instrument_names_the_function_and_its_arguments() {
    let parameters = vec![named("y", "\"boop\""), named("depth", "2")];
    assert_eq!(
        instrument("examples/trace.rs", "inner", &parameters),
        Ok("examples/trace.rs#inner, y=\"boop\", depth=2".to_string())
    );
}

#[test]
fn instrument_without_parameters_is_the_place_and_the_name() {
    assert_eq!(instrument("src/main.rs", "run", &vec![]), Ok("src/main.rs#run".to_string()));
}

#[test]
fn instrument_leaves_the_receiver_out() {
    let parameters = vec![Parameter::Receiver, named("n", "3")];
    assert_eq!(instrument("a.rs", "step", &parameters), Ok("a.rs#step, n=3".to_string()));
}

#[test]
fn instrument_refuses_a_parameter_without_a_name() {
    let parameters = vec![named("a", "1"), Parameter::Pattern, named("b", "2")];
    assert_eq!(instrument("a.rs", "f", &parameters), Err(InstrumentError { position: 1 }));
}

#[test]
fn instrument_reports_the_first_parameter_without_a_name() {
    let parameters = vec![Parameter::Receiver, Parameter::Pattern, Parameter::Pattern];
    assert_eq!(instrument("a.rs", "f", &parameters), Err(InstrumentError { position: 1 }));
}
