//! A variable of the process's environment, as the library is told of it.

use vstd::prelude::*;

verus! {

/// The value of a variable.
#[derive(Debug)]
pub enum Variable {
    Unset,
    Text(String),
    /// It is set, to something that is no text: how that is shown in an error.
    NotText(String),
}

/// The value of a variable.
pub enum VariableView {
    Unset,
    Text(Seq<char>),
    NotText(Seq<char>),
}

impl View for Variable {
    type V = VariableView;

    open spec fn view(&self) -> VariableView {
        match *self {
            Variable::Unset => VariableView::Unset,
            Variable::Text(text) => VariableView::Text(text@),
            Variable::NotText(shown) => VariableView::NotText(shown@),
        }
    }
}

} // verus!
