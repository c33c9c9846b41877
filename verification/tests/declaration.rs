use suspense_core::declaration::{
    plan_server_fn, Declaration, DeclarationError, Parameter, ServerFnPlan,
};

fn named(name: &str) -> Parameter {
    Parameter::Named(name.to_string())
}

fn declaration(parameters: Vec<Parameter>, head: Option<&str>, arguments: bool) -> Declaration {
    Declaration {
        name: "add_todo".to_string(),
        parameters,
        return_head: head.map(|head| head.to_string()),
        return_has_arguments: arguments,
    }
}

#[test]
fn function_name_is_the_key_and_parameters_are_the_fields() {
    let plan = plan_server_fn(&declaration(vec![named("title"), named("done")], Some("Result"), true));
    assert_eq!(
        plan,
        Ok(ServerFnPlan {
            key: "add_todo".to_string(),
            fields: vec!["title".to_string(), "done".to_string()],
        })
    );
}

#[test]
fn function_without_parameters_has_no_fields() {
    let plan = plan_server_fn(&declaration(Vec::new(), Some("Result"), true));
    assert_eq!(plan, Ok(ServerFnPlan { key: "add_todo".to_string(), fields: Vec::new() }));
}

#[test]
fn receiver_is_refused() {
    let plan = plan_server_fn(&declaration(vec![Parameter::Receiver, named("a")], Some("Result"), true));
    assert_eq!(plan, Err(DeclarationError::ReceiverParameter));
}

#[test]
fn pattern_parameter_is_refused() {
    let plan = plan_server_fn(&declaration(vec![named("a"), Parameter::Pattern], Some("Result"), true));
    assert_eq!(plan, Err(DeclarationError::UnnamedParameter));
}

#[test]
fn first_faulty_parameter_decides() {
    let first_pattern = declaration(vec![Parameter::Pattern, Parameter::Receiver], Some("Result"), true);
    assert_eq!(plan_server_fn(&first_pattern), Err(DeclarationError::UnnamedParameter));
    let first_receiver = declaration(vec![named("a"), Parameter::Receiver, Parameter::Pattern], None, false);
    assert_eq!(plan_server_fn(&first_receiver), Err(DeclarationError::ReceiverParameter));
}

#[test]
fn return_type_must_be_a_result_with_arguments() {
    for (head, arguments) in [
        (None, false),
        (None, true),
        (Some("Option"), true),
        (Some("Result"), false),
        (Some("result"), true),
    ] {
        let plan = plan_server_fn(&declaration(vec![named("a")], head, arguments));
        assert_eq!(plan, Err(DeclarationError::NotAResult));
    }
}

#[test]
fn each_error_has_its_complaint() {
    assert_eq!(
        DeclarationError::ReceiverParameter.message(),
        "cannot use receiver types in server function macro"
    );
    assert_eq!(DeclarationError::UnnamedParameter.message(), "field names need to be identifiers");
    assert_eq!(
        DeclarationError::NotAResult.message(),
        "server functions should return Result<T, ServerCallError>"
    );
}
