//! Actions and their outputs.
//!
//! An action is a named unit of work: given the current run context it
//! produces exactly one `Output`, a terminal status plus a table of named
//! values. Outputs are built additively and treated as immutable once
//! returned.

use crate::context::Context;
use crate::var::{Value, Vars};
use vstd::prelude::*;

verus! {

/// What an action did: purely descriptive, it never gates later execution.
#[derive(Clone, Copy, Debug, PartialEq, Eq, Structural)]
pub enum Status {
    Unchanged,
    Changed,
    Failed,
    Skipped,
}

impl Status {
    /// The status's lower-case label.
    pub open spec fn label_spec(self) -> Seq<char> {
        match self {
            Status::Unchanged => "unchanged"@,
            Status::Changed => "changed"@,
            Status::Failed => "failed"@,
            Status::Skipped => "skipped"@,
        }
    }

    /// The status's lower-case label, for reports and logs.
    pub fn as_str(&self) -> (r: &'static str)
        ensures
            r@ == self.label_spec(),
    {
        match self {
            Status::Unchanged => "unchanged",
            Status::Changed => "changed",
            Status::Failed => "failed",
            Status::Skipped => "skipped",
        }
    }
}

/// The immutable result of one action execution: a status and a table of
/// named values.
#[derive(Debug, PartialEq, Eq)]
pub struct Output {
    status: Status,
    vars: Vars,
}

impl Output {
    /// The stored status.
    pub closed spec fn status_spec(self) -> Status {
        self.status
    }

    /// The name-to-value mapping the action produced.
    pub closed spec fn vars_spec(self) -> Map<Seq<char>, Value> {
        self.vars@
    }

    /// Well-formedness: the variable table binds each name once.
    pub closed spec fn inv(self) -> bool {
        self.vars.inv()
    }

    /// An output with the given status and no variables yet.
    pub fn new(status: Status) -> (r: Self)
        ensures
            r.inv(),
            r.status_spec() == status,
            r.vars_spec() == Map::<Seq<char>, Value>::empty(),
    {
        Output { status, vars: Vars::new() }
    }

    /// Binds `name` to `val`, overwriting a prior binding of the same name;
    /// builder-style, chainable.
    pub fn add_var(self, name: &str, val: Value) -> (r: Self)
        requires
            self.inv(),
        ensures
            r.inv(),
            r.status_spec() == self.status_spec(),
            r.vars_spec() == self.vars_spec().insert(name@, val),
    {
        let mut out = self;
        out.vars.insert(name, val);
        out
    }

    /// The stored status (copy semantics).
    pub fn status(&self) -> (r: Status)
        ensures
            r == self.status_spec(),
    {
        self.status
    }

    /// The value bound to `name`, or nothing: presence is optional per
    /// output.
    pub fn value(&self, name: &str) -> (r: Option<&Value>)
        requires
            self.inv(),
        ensures
            match r {
                Some(v) => self.vars_spec().contains_key(name@) && *v == self.vars_spec()[name@],
                None => !self.vars_spec().contains_key(name@),
            },
    {
        self.vars.get(name)
    }

    /// The full name-to-value table, for bulk inspection.
    pub fn vars(&self) -> (r: &Vars)
        ensures
            r@ == self.vars_spec(),
            r.inv() == self.inv(),
    {
        &self.vars
    }

    /// Replaces the whole variable table.
    pub fn with_vars(self, vars: Vars) -> (r: Self)
        ensures
            r.inv() == vars.inv(),
            r.status_spec() == self.status_spec(),
            r.vars_spec() == vars@,
    {
        let mut out = self;
        out.vars = vars;
        out
    }

    /// The output of a command that ran to completion: `Changed` on
    /// success, `Failed` otherwise, with the captured streams under
    /// `stdout` and `stderr`.
    pub fn from_command(success: bool, stdout: String, stderr: String) -> (r: Self)
        ensures
            r.inv(),
            r.status_spec() == if success {
                Status::Changed
            } else {
                Status::Failed
            },
            r.vars_spec() == Map::<Seq<char>, Value>::empty().insert(
                "stdout"@,
                Value::String(stdout),
            ).insert("stderr"@, Value::String(stderr)),
    {
        let status = if success {
            Status::Changed
        } else {
            Status::Failed
        };
        Output::new(status).add_var("stdout", Value::String(stdout)).add_var(
            "stderr",
            Value::String(stderr),
        )
    }

    /// The output of a command that could not be run at all: `Failed`,
    /// with the diagnostic under `stderr`.
    pub fn from_command_error(message: String) -> (r: Self)
        ensures
            r.inv(),
            r.status_spec() == Status::Failed,
            r.vars_spec() == Map::<Seq<char>, Value>::empty().insert(
                "stderr"@,
                Value::String(message),
            ),
    {
        Output::new(Status::Failed).add_var("stderr", Value::String(message))
    }
}

impl Clone for Output {
    /// A clone keeps the status and the variable names; each value is a
    /// clone of the original one.
    fn clone(&self) -> (res: Self)
        ensures
            res.status_spec() == self.status_spec(),
            forall|k: Seq<char>|
                #[trigger] res.vars_spec().contains_key(k) <==> self.vars_spec().contains_key(k),
            self.inv() ==> res.inv(),
    {
        Output { status: self.status, vars: self.vars.clone() }
    }
}

/// A named unit of work, run once per workflow execution.
///
/// Concrete actions live outside the core; they may read any earlier
/// output from the context and must hand back one well-formed output.
pub trait Action {
    /// The stable name under which the action's output is recorded.
    ///
    /// A verified implementation overrides this to pin what `name`
    /// returns; for an unverified implementation outside this crate it is
    /// simply some fixed name, and nothing more is known of it.
    open spec fn name_spec(&self) -> Seq<char> {
        arbitrary()
    }

    /// The action's name; it should match the identifier charset that the
    /// context's variable resolver expects.
    fn name(&self) -> (r: &str)
        ensures
            r@ == self.name_spec(),
    ;

    /// Performs the work against the current run context.
    fn run(&self, ctx: &Context) -> (r: Output)
        ensures
            r.inv(),
    ;
}

/// Builds an action from the current context.
pub trait Builder: Sized {
    /// The kind of action this builder produces.
    type Built: Action;

    /// Consumes the builder and yields the action.
    fn build(self, ctx: &Context) -> Result<Self::Built, BuildError>;
}

/// Why building an action failed. No builder of this crate ever fails;
/// the one variant carries an outside builder's own diagnostic.
#[derive(Debug)]
pub enum BuildError {
    Failed(String),
}

} // verus!
