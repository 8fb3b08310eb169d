//! The values that a program computes with.

use vstd::prelude::*;
use crate::ast::{
    Statement, StatementView, clone_names, duplicate_statements, names_view, statements_view,
};

verus! {

/// The native functions that the language offers.
#[derive(PartialEq, Eq, Debug, Clone, Copy, Structural)]
pub enum NativeFunctionCallback {
    /// Writes the string form of each argument to the output.
    Print,
    /// As `Print`, followed by a newline.
    Println,
}

/// A function that a program declared.
#[derive(Debug)]
pub struct FunctionDef {
    pub name: String,
    pub params: Vec<String>,
    pub body: Vec<Statement>,
}

/// A function that the interpreter itself provides.
#[derive(Debug)]
pub struct NativeFunctionDef {
    pub name: String,
    pub callback: NativeFunctionCallback,
}

/// A runtime value.
#[derive(Debug)]
pub enum Object {
    Bool(bool),
    Str(String),
    /// A number, as the 64 bits by which the host arithmetic knows it.
    Number(u64),
    Function(Box<FunctionDef>),
    NativeFunction(Box<NativeFunctionDef>),
    /// The value that signifies no value.
    Unit,
}

pub ghost struct FunctionDefView {
    pub name: Seq<char>,
    pub params: Seq<Seq<char>>,
    pub body: Seq<StatementView>,
}

pub ghost struct NativeFunctionDefView {
    pub name: Seq<char>,
    pub callback: NativeFunctionCallback,
}

pub ghost enum ObjectView {
    Bool(bool),
    Str(Seq<char>),
    Number(u64),
    Function(FunctionDefView),
    NativeFunction(NativeFunctionDefView),
    Unit,
}

impl View for FunctionDef {
    type V = FunctionDefView;

    open spec fn view(&self) -> FunctionDefView {
        FunctionDefView {
            name: self.name@,
            params: names_view(self.params@),
            body: statements_view(self.body@),
        }
    }
}

impl View for NativeFunctionDef {
    type V = NativeFunctionDefView;

    open spec fn view(&self) -> NativeFunctionDefView {
        NativeFunctionDefView { name: self.name@, callback: self.callback }
    }
}

impl View for Object {
    type V = ObjectView;

    open spec fn view(&self) -> ObjectView {
        match self {
            Object::Bool(b) => ObjectView::Bool(*b),
            Object::Str(text) => ObjectView::Str(text@),
            Object::Number(bits) => ObjectView::Number(*bits),
            Object::Function(def) => ObjectView::Function(def@),
            Object::NativeFunction(def) => ObjectView::NativeFunction(def@),
            Object::Unit => ObjectView::Unit,
        }
    }
}

/// The views of a sequence of values, in order.
pub open spec fn objects_view(objects: Seq<Object>) -> Seq<ObjectView> {
    Seq::new(objects.len(), |i: int| objects[i]@)
}

impl Clone for FunctionDef {
    fn clone(&self) -> (copy: Self)
        ensures
            copy@ == self@,
    {
        FunctionDef {
            name: self.name.clone(),
            params: clone_names(&self.params),
            body: duplicate_statements(&self.body),
        }
    }
}

impl Clone for NativeFunctionDef {
    fn clone(&self) -> (copy: Self)
        ensures
            copy@ == self@,
    {
        NativeFunctionDef { name: self.name.clone(), callback: self.callback }
    }
}

impl Clone for Object {
    fn clone(&self) -> (copy: Self)
        ensures
            copy@ == self@,
    {
        match self {
            Object::Bool(b) => Object::Bool(*b),
            Object::Str(text) => Object::Str(text.clone()),
            Object::Number(bits) => Object::Number(*bits),
            Object::Function(def) => Object::Function(Box::new((**def).clone())),
            Object::NativeFunction(def) => Object::NativeFunction(Box::new((**def).clone())),
            Object::Unit => Object::Unit,
        }
    }
}

} // verus!
