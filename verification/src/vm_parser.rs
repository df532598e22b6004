//! The coarse classification of VM command lines used by the line-oriented
//! parser front end.

use vstd::prelude::*;

verus! {

/// The kind of one VM command line.
#[allow(non_camel_case_types)]
#[derive(Debug, PartialEq, Eq, Structural, Clone, Copy)]
pub enum CommandType {
    C_arithmetic,
    C_push,
    C_pop,
    C_label,
    C_goto,
    C_if,
    C_function,
    C_return,
    C_call,
}

} // verus!
