use ennio_lib::action::{Output, Status};
use ennio_lib::context::{Context, Outputs, VarError};
use ennio_lib::var::Value;

#[test]
fn should_return_context() {
    let workflow_name = "workflow1";
    let ctx = Context::new(workflow_name);
    assert_eq!(ctx, Context::new(workflow_name));
    assert_eq!(ctx.workflow_name(), workflow_name);
    assert!(ctx.outputs().is_empty());
}

#[test]
fn context_should_return_none() {
    let ctx = Context::new("workflow1");
    let output = ctx.output("action1");
    assert!(output.is_none());
}

#[test]
fn context_should_return_output() {
    let name = "action1";
    let expected = Output::new(Status::Changed);
    let mut ctx = Context::new("workflow1");
    ctx.update(name, expected.clone());
    let output = ctx.output(name).unwrap();
    assert_eq!(*output, expected);
}

#[test]
fn context_should_return_outputs() {
    let output = Output::new(Status::Changed);
    let mut expected = Outputs::new();
    expected.insert("action1", output.clone());
    let mut ctx = Context::new("workflow1");
    ctx.update("action1", output);
    let outputs = ctx.outputs();
    assert_eq!(*outputs, expected);
}

#[test]
fn context_should_return_outputs_when_taken() {
    let output = Output::new(Status::Changed);
    let mut expected = Outputs::new();
    expected.insert("action1", output.clone());
    let mut ctx = Context::new("workflow1");
    ctx.update("action1", output);
    let outputs = ctx.take_outputs();
    assert_eq!(outputs, expected);
}

#[test]
fn should_update_outputs() {
    let name = "action1";
    let output = Output::new(Status::Changed);
    let mut expected = Outputs::new();
    expected.insert(name, output.clone());
    let mut ctx = Context::new("workflow1");
    ctx.update(name, output);
    assert_eq!(*ctx.outputs(), expected);
}

#[test]
fn should_return_invalid_syntex_if_wrong_syntex() {
    let expected = "éè";
    let ctx = Context::new("workflow1");
    match ctx.value(expected) {
        Ok(_) => panic!("should fail"),
        Err(VarError::InvalidSyntax(var_name)) => assert_eq!(var_name, expected),
        Err(err) => panic!("{}", err.message()),
    }
}

#[test]
fn should_return_unknown_action() {
    let expected = "foo";
    let ctx = Context::new("workflow1");
    match ctx.value(expected) {
        Ok(_) => panic!("should fail"),
        Err(VarError::UnknownAction(action_name)) => {
            assert_eq!(action_name, expected)
        }
        Err(err) => panic!("{}", err.message()),
    }
}

#[test]
fn should_return_missing_var_name() {
    let action_name = "action1";
    let output = Output::new(Status::Changed);
    let mut ctx = Context::new("workflow1");
    ctx.update(action_name, output);
    match ctx.value(action_name) {
        Ok(_) => panic!("should fail"),
        Err(VarError::MissingVarName) => {}
        Err(err) => panic!("{}", err.message()),
    }
}

#[test]
fn should_return_unknown_var() {
    let expected_action_name = "action1";
    let output = Output::new(Status::Changed);
    let expected_var_name = "foo";
    let mut ctx = Context::new("workflow1");
    ctx.update(expected_action_name, output);
    match ctx.value(&format!("{}.{}", expected_action_name, expected_var_name)) {
        Ok(_) => panic!("should fail"),
        Err(VarError::UnknownVar(action_name, var_name)) => {
            assert_eq!(action_name, expected_action_name);
            assert_eq!(var_name, expected_var_name);
        }
        Err(err) => panic!("{}", err.message()),
    }
}

#[test]
fn should_return_var() {
    let action_name = "action1";
    let var_name = "foo";
    let expected = Value::Bool(true);
    let output = Output::new(Status::Changed).add_var(var_name, expected.clone());
    let mut ctx = Context::new("workflow1");
    ctx.update(action_name, output);
    let val = ctx
        .value(&format!("{}.{}", action_name, var_name))
        .unwrap();
    assert_eq!(*val, expected);
}

#[test]
fn resolution_reads_the_latest_update() {
    // A second update under the same name changes what resolves: no
    // caching across updates.
    let mut ctx = Context::new("workflow1");
    ctx.update(
        "action1",
        Output::new(Status::Changed).add_var("foo", Value::from(1u8)),
    );
    assert_eq!(
        *ctx.value("action1.foo").unwrap(),
        Value::PositiveInt(1)
    );
    ctx.update(
        "action1",
        Output::new(Status::Changed).add_var("foo", Value::from(2u8)),
    );
    assert_eq!(
        *ctx.value("action1.foo").unwrap(),
        Value::PositiveInt(2)
    );
}

#[test]
fn empty_reference_is_invalid_syntax() {
    let ctx = Context::new("workflow1");
    match ctx.value("") {
        Err(VarError::InvalidSyntax(var_name)) => assert_eq!(var_name, ""),
        _ => panic!("should fail with invalid syntax"),
    }
}

#[test]
fn field_name_is_taken_verbatim_after_the_separator() {
    // Only the action name is restricted; the remainder after the one
    // separator character is the field name, dots and all.
    let output = Output::new(Status::Changed).add_var("a.b", Value::Bool(true));
    let mut ctx = Context::new("workflow1");
    ctx.update("action1", output);
    assert_eq!(*ctx.value("action1.a.b").unwrap(), Value::Bool(true));
}

#[test]
fn empty_field_name_is_unknown_var() {
    let mut ctx = Context::new("workflow1");
    ctx.update("action1", Output::new(Status::Changed));
    match ctx.value("action1.") {
        Err(VarError::UnknownVar(action_name, var_name)) => {
            assert_eq!(action_name, "action1");
            assert_eq!(var_name, "");
        }
        _ => panic!("should fail with unknown var"),
    }
}

#[test]
fn context_should_return_workflow() {
    let expected = "workflow1";
    let ctx = Context::new(expected);
    assert_eq!(ctx.workflow_name(), expected);
}

#[test]
fn invalid_syntax_message() {
    let err = VarError::InvalidSyntax(String::from("éè"));
    assert_eq!(err.message(), "'éè' is not a valid variable name");
}

#[test]
fn unknown_action_message() {
    let err = VarError::UnknownAction(String::from("action1"));
    assert_eq!(err.message(), "Action 'action1' does not exist");
}

#[test]
fn missing_var_name_message() {
    let err = VarError::MissingVarName;
    assert_eq!(err.message(), "Missing variable name");
}

#[test]
fn unknown_var_message() {
    let err = VarError::UnknownVar(String::from("action1"), String::from("foo"));
    assert_eq!(err.message(), "No variable 'foo' in 'action1' outputs");
}
