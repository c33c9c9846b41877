//! What a function declaration must look like to become a server function.
//!
//! A server function is declared as an ordinary function. Turning the
//! declaration into an argument record and an endpoint is code generation;
//! which declarations qualify, under which key the function is served and
//! which arguments its record holds is decided here.

use crate::text::same_text;
use vstd::prelude::*;

verus! {

/// One parameter of a declared function.
#[derive(Clone, Debug, PartialEq, Eq)]
pub enum Parameter {
    /// The receiver, `self` in any form.
    Receiver,
    /// A parameter bound to a plain name.
    Named(String),
    /// A parameter bound by any other pattern.
    Pattern,
}

/// What a [`Parameter`] holds, as plain text.
pub enum ParameterView {
    Receiver,
    Named(Seq<char>),
    Pattern,
}

impl View for Parameter {
    type V = ParameterView;

    open spec fn view(&self) -> ParameterView {
        match self {
            Parameter::Receiver => ParameterView::Receiver,
            Parameter::Named(name) => ParameterView::Named(name@),
            Parameter::Pattern => ParameterView::Pattern,
        }
    }
}

/// A function declaration, as far as a server function depends on it.
#[derive(Clone, Debug, PartialEq, Eq)]
pub struct Declaration {
    /// The name of the function.
    pub name: String,
    /// The parameters, in order.
    pub parameters: Vec<Parameter>,
    /// The first segment of the return type when that type is a path.
    pub return_head: Option<String>,
    /// Whether that segment has type arguments in angle brackets.
    pub return_has_arguments: bool,
}

/// Why a declaration cannot become a server function.
#[derive(Clone, Copy, Debug, PartialEq, Eq, Structural)]
pub enum DeclarationError {
    /// A parameter is a receiver.
    ReceiverParameter,
    /// A parameter is bound by a pattern that is no plain name.
    UnnamedParameter,
    /// The return type is not a `Result` with type arguments.
    NotAResult,
}

/// The server function that a declaration makes.
#[derive(Clone, Debug, PartialEq, Eq)]
pub struct ServerFnPlan {
    /// The key under which the function is served: its name.
    pub key: String,
    /// The fields of the argument record: the parameter names, in order.
    pub fields: Vec<String>,
}

/// The fault of the first parameter that has one.
pub open spec fn first_fault(parameters: Seq<ParameterView>) -> Option<DeclarationError>
    decreases parameters.len(),
{
    if parameters.len() == 0 {
        None
    } else {
        match first_fault(parameters.drop_last()) {
            Some(fault) => Some(fault),
            None => match parameters.last() {
                ParameterView::Receiver => Some(DeclarationError::ReceiverParameter),
                ParameterView::Pattern => Some(DeclarationError::UnnamedParameter),
                ParameterView::Named(_) => None,
            },
        }
    }
}

/// The names of the named parameters, in order.
pub open spec fn parameter_names(parameters: Seq<ParameterView>) -> Seq<Seq<char>>
    decreases parameters.len(),
{
    if parameters.len() == 0 {
        Seq::empty()
    } else {
        match parameters.last() {
            ParameterView::Named(name) => parameter_names(parameters.drop_last()).push(name),
            _ => parameter_names(parameters.drop_last()),
        }
    }
}

/// Whether the return type is a `Result` with type arguments.
pub open spec fn returns_result(head: Option<Seq<char>>, has_arguments: bool) -> bool {
    head == Some("Result"@) && has_arguments
}

/// What becomes of a declaration: the fault of its first faulty parameter;
/// with faultless parameters, the fault of its return type; and otherwise
/// the key and the fields of the server function.
pub open spec fn planned(declaration: Declaration) -> Result<
    (Seq<char>, Seq<Seq<char>>),
    DeclarationError,
> {
    let parameters = declaration.parameters.deep_view();
    match first_fault(parameters) {
        Some(fault) => Err(fault),
        None => if returns_result(
            declaration.return_head.deep_view(),
            declaration.return_has_arguments,
        ) {
            Ok((declaration.name@, parameter_names(parameters)))
        } else {
            Err(DeclarationError::NotAResult)
        },
    }
}

impl DeepView for Parameter {
    type V = ParameterView;

    open spec fn deep_view(&self) -> ParameterView {
        self@
    }
}

/// The plan, or the error, as plain text.
pub open spec fn plan_view(plan: Result<ServerFnPlan, DeclarationError>) -> Result<
    (Seq<char>, Seq<Seq<char>>),
    DeclarationError,
> {
    match plan {
        Ok(plan) => Ok((plan.key@, plan.fields.deep_view())),
        Err(error) => Err(error),
    }
}

/// Once a parameter has a fault, later parameters do not change it.
pub proof fn lemma_first_fault_decides(parameters: Seq<ParameterView>, n: int)
    requires
        0 <= n <= parameters.len(),
        first_fault(parameters.take(n)) is Some,
    ensures
        first_fault(parameters) == first_fault(parameters.take(n)),
    decreases parameters.len() - n,
{
    if n < parameters.len() {
        assert(parameters.take(n + 1).drop_last() =~= parameters.take(n));
        lemma_first_fault_decides(parameters, n + 1);
    } else {
        assert(parameters.take(n) =~= parameters);
    }
}

/// Decides whether `declaration` can become a server function, and if so
/// under which key and with which fields.
pub fn plan_server_fn(declaration: &Declaration) -> (plan: Result<ServerFnPlan, DeclarationError>)
    ensures
        plan_view(plan) == planned(*declaration),
{
    let ghost parameters = declaration.parameters.deep_view();
    let mut fields: Vec<String> = Vec::new();
    let mut i: usize = 0;
    proof {
        assert(fields.deep_view() =~= Seq::<Seq<char>>::empty());
        assert(parameters.take(0).len() == 0);
    }
    while i < declaration.parameters.len()
        invariant
            i <= declaration.parameters.len(),
            parameters == declaration.parameters.deep_view(),
            first_fault(parameters.take(i as int)) is None,
            fields.deep_view() == parameter_names(parameters.take(i as int)),
        decreases declaration.parameters.len() - i,
    {
        proof {
            let upto = parameters.take(i as int + 1);
            assert(upto.drop_last() =~= parameters.take(i as int));
            assert(upto.last() == declaration.parameters[i as int]@);
        }
        match &declaration.parameters[i] {
            Parameter::Named(name) => {
                let ghost before = fields.deep_view();
                fields.push(name.clone());
                assert(fields.deep_view() =~= before.push(name@));
            },
            Parameter::Receiver => {
                proof {
                    lemma_first_fault_decides(parameters, i as int + 1);
                }
                return Err(DeclarationError::ReceiverParameter);
            },
            Parameter::Pattern => {
                proof {
                    lemma_first_fault_decides(parameters, i as int + 1);
                }
                return Err(DeclarationError::UnnamedParameter);
            },
        }
        i = i + 1;
    }
    proof {
        assert(parameters.take(i as int) =~= parameters);
    }
    let is_result = match &declaration.return_head {
        Some(head) => same_text(head.as_str(), "Result"),
        None => false,
    };
    if is_result && declaration.return_has_arguments {
        Ok(ServerFnPlan { key: declaration.name.clone(), fields })
    } else {
        Err(DeclarationError::NotAResult)
    }
}

impl DeclarationError {
    /// The text of the complaint.
    pub open spec fn message_text(self) -> Seq<char> {
        match self {
            DeclarationError::ReceiverParameter => "cannot use receiver types in server function macro"@,
            DeclarationError::UnnamedParameter => "field names need to be identifiers"@,
            DeclarationError::NotAResult => "server functions should return Result<T, ServerCallError>"@,
        }
    }

    /// The complaint to raise for this error.
    pub fn message(&self) -> (text: String)
        ensures
            text@ == self.message_text(),
    {
        match self {
            DeclarationError::ReceiverParameter => "cannot use receiver types in server function macro".to_owned(),
            DeclarationError::UnnamedParameter => "field names need to be identifiers".to_owned(),
            DeclarationError::NotAResult => "server functions should return Result<T, ServerCallError>".to_owned(),
        }
    }
}

} // verus!
