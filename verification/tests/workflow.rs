use ennio_lib::action::{Action, Output, Status};
use ennio_lib::context::{Context, Outputs};
use ennio_lib::var::{Value, Vars};
use ennio_lib::workflow::Workflow;

struct ActionStub {
    index: usize,
    name: String,
}

impl ActionStub {
    fn new(index: usize) -> Self {
        ActionStub {
            index,
            name: format!("action{}", index),
        }
    }
}

impl Action for ActionStub {
    fn name(&self) -> &str {
        &self.name
    }

    fn run(&self, ctx: &Context) -> Output {
        // Every action sees exactly the outputs of the actions declared
        // before it, in order, even when one of them failed.
        assert_eq!(*ctx.outputs(), expected_outputs(self.index - 1));
        action_output(self.index)
    }
}

fn action_output(index: usize) -> Output {
    match index {
        1 => Output::new(Status::Unchanged).add_var("foo1", Value::from(15u8)),
        2 => Output::new(Status::Changed).add_var("foo2", Value::Bool(true)),
        3 => Output::new(Status::Failed).add_var("foo3", Value::String(String::from("bar1"))),
        4 => {
            let mut nested = Vars::new();
            nested.insert("foo4", Value::from(15u8));
            Output::new(Status::Skipped).add_var("foo4", Value::Dict(nested))
        }
        _ => unreachable!(),
    }
}

fn expected_outputs(upto: usize) -> Outputs {
    let mut outputs = Outputs::new();
    let mut index = 1;
    while index <= upto {
        outputs.insert(&format!("action{}", index), action_output(index));
        index += 1;
    }
    outputs
}

#[test]
fn workflow_should_return_workflow() {
    let name = "workflow1";
    let workflow: Workflow<ActionStub> = Workflow::new(name.into());
    assert_eq!(workflow.name(), name);
    assert!(workflow.actions().is_empty());
}

#[test]
fn workflow_should_return_name() {
    let expected = "workflow1";
    let workflow: Workflow<ActionStub> = Workflow::new(expected.into());
    assert_eq!(workflow.name(), expected);
}

#[test]
fn workflow_should_return_outputs() {
    let workflow = Workflow::new(String::from("workflow1")).with_actions(vec![
        ActionStub::new(1),
        ActionStub::new(2),
        ActionStub::new(3),
        ActionStub::new(4),
    ]);
    let outputs = workflow.run();
    assert_eq!(outputs, expected_outputs(4));
    // All four entries are there, in declared order, the failed one too.
    assert_eq!(outputs.len(), 4);
    assert_eq!(outputs.key_at(0).as_str(), "action1");
    assert_eq!(outputs.key_at(1).as_str(), "action2");
    assert_eq!(outputs.key_at(2).as_str(), "action3");
    assert_eq!(outputs.key_at(3).as_str(), "action4");
    assert_eq!(outputs.get("action3").unwrap().status(), Status::Failed);
}

#[test]
fn run_with_no_actions_returns_no_outputs() {
    let workflow: Workflow<ActionStub> = Workflow::new(String::from("workflow1"));
    let outputs = workflow.run();
    assert!(outputs.is_empty());
}
