//! The error taxonomy of a translation run. Every error is fatal for the
//! run: the reader and the code generator never swallow an error, and the
//! driver surfaces the first one and halts.

use vstd::prelude::*;
use crate::command::MemorySegment;

verus! {

/// An error of one translation run.
#[derive(Debug)]
pub enum HVMError {
    /// A malformed command line: wrong argument count, a non-numeric index,
    /// or an unknown segment keyword. Carries the module name and the
    /// offending line.
    ParseError { module: String, line: String },
    /// An index outside the valid range of its segment: `temp` beyond 7,
    /// `pointer` beyond 1, or a `pop` of the push-only `constant` segment.
    SegmentRange { segment: MemorySegment, index: u16 },
    /// A line whose leading keyword is not a VM command. Carries the module
    /// name and the offending line.
    UnknownCommand { module: String, line: String },
}

/// The mathematical view of an error.
pub enum HVMErrorView {
    ParseError { module: Seq<char>, line: Seq<char> },
    SegmentRange { segment: MemorySegment, index: u16 },
    UnknownCommand { module: Seq<char>, line: Seq<char> },
}

impl View for HVMError {
    type V = HVMErrorView;

    open spec fn view(&self) -> HVMErrorView {
        match self {
            HVMError::ParseError { module, line } => HVMErrorView::ParseError {
                module: module@,
                line: line@,
            },
            HVMError::SegmentRange { segment, index } => HVMErrorView::SegmentRange {
                segment: *segment,
                index: *index,
            },
            HVMError::UnknownCommand { module, line } => HVMErrorView::UnknownCommand {
                module: module@,
                line: line@,
            },
        }
    }
}

impl HVMError {
    /// A one-line description of the error, for reporting at the boundary.
    pub fn message(&self) -> (r: String)
        ensures
            r@ == self@.message(),
    {
        match self {
            HVMError::ParseError { module, line } => {
                let mut s = String::from_str("Error: malformed command in ");
                s.append(module.as_str());
                s.append(": ");
                s.append(line.as_str());
                s
            },
            HVMError::SegmentRange { segment: _, index: _ } => {
                String::from_str("Error: segment index out of range")
            },
            HVMError::UnknownCommand { module, line } => {
                let mut s = String::from_str("Error: unknown command in ");
                s.append(module.as_str());
                s.append(": ");
                s.append(line.as_str());
                s
            },
        }
    }
}

impl HVMErrorView {
    /// The text `message` returns, stated over the view.
    pub open spec fn message(self) -> Seq<char> {
        match self {
            HVMErrorView::ParseError { module, line } => "Error: malformed command in "@ + module
                + ": "@ + line,
            HVMErrorView::SegmentRange { .. } => "Error: segment index out of range"@,
            HVMErrorView::UnknownCommand { module, line } => "Error: unknown command in "@ + module
                + ": "@ + line,
        }
    }
}

} // verus!
