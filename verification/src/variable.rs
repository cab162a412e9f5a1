//! Variables of a task file: a key bound to a string value.

use vstd::prelude::*;

verus! {

/// What a [`Variable`] stands for: its key and its value, as character
/// sequences.
pub struct VariableView {
    pub key: Seq<char>,
    pub value: Seq<char>,
}

/// The value of a variable that stands for a struct instance until the
/// instance is rendered.
pub open spec fn struct_marker() -> Seq<char> {
    "[Struct]"@
}

/// A key bound to a value. The value is an opaque string; it may hold the
/// rendering of a struct instance.
#[derive(Debug)]
pub struct Variable {
    key: String,
    value: String,
}

impl View for Variable {
    type V = VariableView;

    closed spec fn view(&self) -> VariableView {
        VariableView { key: self.key@, value: self.value@ }
    }
}

impl DeepView for Variable {
    type V = VariableView;

    open spec fn deep_view(&self) -> VariableView {
        self@
    }
}

impl Clone for Variable {
    fn clone(&self) -> (r: Self)
        ensures
            r == *self,
    {
        Variable { key: self.key.clone(), value: self.value.clone() }
    }
}

impl Variable {
    /// A variable with the given key and value.
    pub fn new(key: &str, value: &str) -> (r: Variable)
        ensures
            r@ == (VariableView { key: key@, value: value@ }),
    {
        Variable { key: key.to_owned(), value: value.to_owned() }
    }

    /// The key.
    pub fn get_key(&self) -> (r: String)
        ensures
            r@ == self@.key,
    {
        self.key.clone()
    }

    /// Replaces the value and keeps the key.
    pub fn set_value(&mut self, value: &str)
        ensures
            final(self)@ == (VariableView { key: old(self)@.key, value: value@ }),
    {
        self.value = value.to_owned();
    }

    /// The value.
    pub fn get_value(&self) -> (r: String)
        ensures
            r@ == self@.value,
    {
        self.value.clone()
    }
}

} // verus!
