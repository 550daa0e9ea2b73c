//! The per-run context: an ordered, name-keyed store of outputs, and the
//! resolver that turns a textual variable reference of the form
//! `<action>.<field>` into the value an earlier action bound.
//!
//! Action names are a run of word characters (letters, digits, `_`), so
//! the one-character separator that follows them can never be ambiguous;
//! the field name after the separator is taken verbatim.

use crate::action::Output;
use crate::table::Table;
use crate::var::Value;
use vstd::prelude::*;

verus! {

/// The outputs a run has accumulated, keyed by action name in execution
/// order.
pub type Outputs = Table<Output>;

/// Why a variable reference failed to resolve. All of these are local,
/// recoverable conditions: they never abort a run.
#[derive(Debug)]
pub enum VarError {
    /// The reference does not start with an action name.
    InvalidSyntax(String),
    /// No action of that name has produced an output yet.
    UnknownAction(String),
    /// Nothing follows the action name.
    MissingVarName,
    /// The action ran, but bound no variable of that name.
    UnknownVar(String, String),
}

/// The mathematical shape of a resolution error.
pub enum VarErrorView {
    InvalidSyntax(Seq<char>),
    UnknownAction(Seq<char>),
    MissingVarName,
    UnknownVar(Seq<char>, Seq<char>),
}

impl View for VarError {
    type V = VarErrorView;

    open spec fn view(&self) -> VarErrorView {
        match self {
            VarError::InvalidSyntax(reference) => VarErrorView::InvalidSyntax(reference@),
            VarError::UnknownAction(name) => VarErrorView::UnknownAction(name@),
            VarError::MissingVarName => VarErrorView::MissingVarName,
            VarError::UnknownVar(name, var) => VarErrorView::UnknownVar(name@, var@),
        }
    }
}

impl VarError {
    /// The error's human-readable message.
    pub open spec fn message_spec(self) -> Seq<char> {
        match self {
            VarError::InvalidSyntax(reference) => "'"@ + reference@
                + "' is not a valid variable name"@,
            VarError::UnknownAction(name) => "Action '"@ + name@ + "' does not exist"@,
            VarError::MissingVarName => "Missing variable name"@,
            VarError::UnknownVar(name, var) => "No variable '"@ + var@ + "' in '"@ + name@
                + "' outputs"@,
        }
    }

    /// The error's human-readable message.
    pub fn message(&self) -> (r: String)
        ensures
            r@ == self.message_spec(),
    {
        match self {
            VarError::InvalidSyntax(reference) => String::from_str("'").concat(
                reference.as_str(),
            ).concat("' is not a valid variable name"),
            VarError::UnknownAction(name) => String::from_str("Action '").concat(
                name.as_str(),
            ).concat("' does not exist"),
            VarError::MissingVarName => String::from_str("Missing variable name"),
            VarError::UnknownVar(name, var) => String::from_str("No variable '").concat(
                var.as_str(),
            ).concat("' in '").concat(name.as_str()).concat("' outputs"),
        }
    }
}

/// Whether `c` may appear in an action name: ASCII letters, digits, `_`.
pub open spec fn is_word_char(c: char) -> bool {
    ('A' as u32 <= c as u32 && c as u32 <= 'Z' as u32) || ('a' as u32 <= c as u32 && c as u32
        <= 'z' as u32) || ('0' as u32 <= c as u32 && c as u32 <= '9' as u32) || c == '_'
}

fn is_word_char_exec(c: char) -> (r: bool)
    ensures
        r == is_word_char(c),
{
    let u = c as u32;
    ('A' as u32 <= u && u <= 'Z' as u32) || ('a' as u32 <= u && u <= 'z' as u32) || ('0' as u32
        <= u && u <= '9' as u32) || c == '_'
}

/// The length of the leading run of word characters.
pub open spec fn word_run_len(s: Seq<char>) -> int
    decreases s.len(),
{
    if s.len() == 0 || !is_word_char(s[0]) {
        0
    } else {
        1 + word_run_len(s.drop_first())
    }
}

/// Any well-formed split point is the leading word run: the split is
/// unique.
pub proof fn lemma_word_run_unique(s: Seq<char>, n: int)
    requires
        0 <= n <= s.len(),
        forall|i: int| 0 <= i < n ==> is_word_char(s[i]),
        n < s.len() ==> !is_word_char(s[n]),
    ensures
        word_run_len(s) == n,
    decreases s.len(),
{
    if s.len() == 0 {
    } else if n == 0 {
    } else {
        assert(is_word_char(s[0]));
        assert forall|i: int| 0 <= i < n - 1 implies is_word_char(s.drop_first()[i]) by {
            assert(s.drop_first()[i] == s[i + 1]);
        }
        if n - 1 < s.drop_first().len() {
            assert(s.drop_first()[n - 1] == s[n]);
        }
        lemma_word_run_unique(s.drop_first(), n - 1);
    }
}

/// What resolving `reference` against the accumulated outputs yields:
/// the bound value, or the first error in the fixed checking order
/// (syntax, then action, then separator and field).
pub open spec fn resolve_spec(outputs: Map<Seq<char>, Output>, reference: Seq<char>) -> Result<
    Value,
    VarErrorView,
> {
    let n = word_run_len(reference);
    if n == 0 {
        Err(VarErrorView::InvalidSyntax(reference))
    } else {
        let name = reference.subrange(0, n);
        if !outputs.contains_key(name) {
            Err(VarErrorView::UnknownAction(name))
        } else if n == reference.len() {
            Err(VarErrorView::MissingVarName)
        } else {
            let field = reference.subrange(n + 1, reference.len() as int);
            if !outputs[name].vars_spec().contains_key(field) {
                Err(VarErrorView::UnknownVar(name, field))
            } else {
                Ok(outputs[name].vars_spec()[field])
            }
        }
    }
}

/// Law: resolution reads whatever stands recorded now, with no caching
/// across updates. After recording `output` under `name` — a first
/// recording or an overwrite alike — resolving `name.field` yields exactly
/// the value `output` binds to `field`, or the unknown-variable error when
/// it binds none.
pub proof fn lemma_resolve_after_update(
    outputs: Map<Seq<char>, Output>,
    name: Seq<char>,
    output: Output,
    field: Seq<char>,
)
    requires
        name.len() > 0,
        forall|i: int| 0 <= i < name.len() ==> is_word_char(name[i]),
    ensures
        resolve_spec(outputs.insert(name, output), name + seq!['.'] + field) == if output
            .vars_spec()
            .contains_key(field) {
            Ok::<Value, VarErrorView>(output.vars_spec()[field])
        } else {
            Err::<Value, VarErrorView>(VarErrorView::UnknownVar(name, field))
        },
{
    let reference = name + seq!['.'] + field;
    assert(!is_word_char('.'));
    assert(reference[name.len() as int] == '.');
    assert forall|i: int| 0 <= i < name.len() implies is_word_char(reference[i]) by {
        assert(reference[i] == name[i]);
    }
    lemma_word_run_unique(reference, name.len() as int);
    assert(reference.subrange(0, name.len() as int) =~= name);
    assert(reference.subrange(name.len() as int + 1, reference.len() as int) =~= field);
}

/// The per-workflow-run accumulator: the outputs recorded so far, plus the
/// name of the workflow being run.
#[derive(Debug, PartialEq, Eq)]
pub struct Context {
    workflow_name: String,
    outputs: Outputs,
}

impl Context {
    /// The name of the workflow this run belongs to.
    pub closed spec fn workflow_name_spec(self) -> Seq<char> {
        self.workflow_name@
    }

    /// The mapping from action name to recorded output.
    pub closed spec fn outputs_spec(self) -> Map<Seq<char>, Output> {
        self.outputs@
    }

    /// The action names in execution order.
    pub closed spec fn names(self) -> Seq<Seq<char>> {
        self.outputs.keys()
    }

    /// Well-formedness: the store binds each name once, and every recorded
    /// output is itself well-formed.
    pub closed spec fn inv(self) -> bool {
        &&& self.outputs.inv()
        &&& forall|k: Seq<char>|
            #[trigger] self.outputs@.contains_key(k) ==> self.outputs@[k].inv()
    }

    /// A context with no recorded outputs.
    pub fn new(workflow_name: &str) -> (r: Self)
        ensures
            r.inv(),
            r.workflow_name_spec() == workflow_name@,
            r.outputs_spec() == Map::<Seq<char>, Output>::empty(),
            r.names() == Seq::<Seq<char>>::empty(),
    {
        Context { workflow_name: String::from_str(workflow_name), outputs: Outputs::new() }
    }

    /// The full output of the named action, or nothing if no action of
    /// that name has executed yet.
    pub fn output(&self, action_name: &str) -> (r: Option<&Output>)
        requires
            self.inv(),
        ensures
            match r {
                Some(out) => self.outputs_spec().contains_key(action_name@) && *out
                    == self.outputs_spec()[action_name@],
                None => !self.outputs_spec().contains_key(action_name@),
            },
    {
        self.outputs.get(action_name)
    }

    /// A read-only view of everything accumulated so far.
    pub fn outputs(&self) -> (r: &Outputs)
        ensures
            r@ == self.outputs_spec(),
            r.keys() == self.names(),
            self.inv() ==> r.inv(),
    {
        &self.outputs
    }

    /// Consumes the context and yields the accumulated outputs; the
    /// context cannot be used afterwards.
    pub fn take_outputs(self) -> (r: Outputs)
        ensures
            r@ == self.outputs_spec(),
            r.keys() == self.names(),
            self.inv() ==> r.inv(),
            self.inv() ==> forall|k: Seq<char>| #[trigger] r@.contains_key(k) ==> r@[k].inv(),
    {
        self.outputs
    }

    /// Records the output of the named action, overwriting any earlier
    /// output of the same name; the only mutator.
    pub fn update(&mut self, name: &str, output: Output)
        requires
            old(self).inv(),
            output.inv(),
        ensures
            final(self).inv(),
            final(self).workflow_name_spec() == old(self).workflow_name_spec(),
            final(self).outputs_spec() == old(self).outputs_spec().insert(name@, output),
            final(self).names() == if old(self).outputs_spec().contains_key(name@) {
                old(self).names()
            } else {
                old(self).names().push(name@)
            },
    {
        self.outputs.insert(name, output);
        proof {
            assert forall|k: Seq<char>|
                #[trigger] self.outputs@.contains_key(k) implies self.outputs@[k].inv() by {
                if k != name@ {
                    assert(old(self).outputs@.contains_key(k));
                }
            }
        }
    }

    /// Resolves a variable reference of the form `<action>.<field>`
    /// against the recorded outputs, exactly as `resolve_spec` says.
    pub fn value(&self, var_name: &str) -> (r: Result<&Value, VarError>)
        requires
            self.inv(),
        ensures
            match r {
                Ok(v) => resolve_spec(self.outputs_spec(), var_name@) == Ok::<
                    Value,
                    VarErrorView,
                >(*v),
                Err(e) => resolve_spec(self.outputs_spec(), var_name@) == Err::<
                    Value,
                    VarErrorView,
                >(e@),
            },
    {
        let len = var_name.unicode_len();
        let mut n: usize = 0;
        while n < len
            invariant_except_break
                n <= len,
                len == var_name@.len(),
                forall|j: int| 0 <= j < n ==> is_word_char(var_name@[j]),
            ensures
                n <= len,
                len == var_name@.len(),
                forall|j: int| 0 <= j < n ==> is_word_char(var_name@[j]),
                n < len ==> !is_word_char(var_name@[n as int]),
            decreases len - n,
        {
            if !is_word_char_exec(var_name.get_char(n)) {
                break;
            }
            n += 1;
        }
        proof {
            lemma_word_run_unique(var_name@, n as int);
        }
        if n == 0 {
            return Err(VarError::InvalidSyntax(String::from_str(var_name)));
        }
        let action_name = var_name.substring_char(0, n);
        match self.outputs.get(action_name) {
            None => Err(VarError::UnknownAction(String::from_str(action_name))),
            Some(output) => {
                if n == len {
                    Err(VarError::MissingVarName)
                } else {
                    let field = var_name.substring_char(n + 1, len);
                    match output.value(field) {
                        None => Err(
                            VarError::UnknownVar(
                                String::from_str(action_name),
                                String::from_str(field),
                            ),
                        ),
                        Some(v) => Ok(v),
                    }
                }
            },
        }
    }

    /// An action name is recorded exactly when it is a key of the output
    /// mapping.
    pub proof fn lemma_names_view(self)
        ensures
            forall|k: Seq<char>| self.outputs_spec().contains_key(k) <==> self.names().contains(k),
    {
        self.outputs.lemma_keys_view();
    }

    /// The name of the workflow this run belongs to.
    pub fn workflow_name(&self) -> (r: &str)
        ensures
            r@ == self.workflow_name_spec(),
    {
        self.workflow_name.as_str()
    }
}

} // verus!
