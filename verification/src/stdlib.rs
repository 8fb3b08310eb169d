//! The native functions that every program starts with.

use vstd::prelude::*;
use vstd::string::StringExecFns;
use crate::context::{Frame, FrameView};
use crate::object::{
    NativeFunctionCallback, NativeFunctionDef, NativeFunctionDefView, Object, ObjectView,
};

verus! {

/// The bindings of the global frame at the start of a run: `print` and
/// `println`.
pub open spec fn library() -> FrameView {
    Map::<Seq<char>, ObjectView>::empty().insert(
        "print"@,
        ObjectView::NativeFunction(
            NativeFunctionDefView { name: "print"@, callback: NativeFunctionCallback::Print },
        ),
    ).insert(
        "println"@,
        ObjectView::NativeFunction(
            NativeFunctionDefView { name: "println"@, callback: NativeFunctionCallback::Println },
        ),
    )
}

/// The frame of native functions.
pub fn get_lib() -> (lib: Frame)
    ensures
        lib.wf(),
        lib@ == library(),
{
    let mut lib = Frame::new();
    lib.insert(
        String::from_str("print"),
        Object::NativeFunction(
            Box::new(
                NativeFunctionDef {
                    name: String::from_str("print"),
                    callback: NativeFunctionCallback::Print,
                },
            ),
        ),
    );
    lib.insert(
        String::from_str("println"),
        Object::NativeFunction(
            Box::new(
                NativeFunctionDef {
                    name: String::from_str("println"),
                    callback: NativeFunctionCallback::Println,
                },
            ),
        ),
    );
    lib
}

} // verus!
