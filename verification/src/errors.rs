//! Errors of shader construction.
use crate::dims::{MatrixDims, VectorDims};
use vstd::prelude::*;

verus! {

/// Failures of the module builder, one for each way a call can fail here.
#[derive(PartialEq, Eq, Structural, Clone, Copy, Debug)]
pub enum BuildError {
    /// A function was begun inside another one.
    NestedFunction,
    /// A function was ended while none was being built.
    MismatchedFunctionEnd,
    /// A block was begun outside of any function.
    DetachedBlock,
    /// A block was begun inside another one.
    NestedBlock,
    /// A block terminator was appended while no block was being built.
    MismatchedTerminator,
    /// An instruction was appended while no block was being built.
    DetachedInstruction,
}

/// Errors of shader construction.
#[derive(Debug)]
pub enum Error {
    /// The module builder refused a call.
    Builder(BuildError),
    /// An operation was built from arguments of the wrong types.
    BadOp { op: &'static str, reason: &'static str, arguments: Vec<String> },
    /// An operand produced no object.
    NoObjectId,
    /// An accessed base produced no object.
    NoBase,
    /// An operation produced no result.
    NoOp,
    /// Illegal operation on the absent type.
    NoType,
    /// Operation was not an interface.
    NotInterface,
    /// An interface variable has a type that cannot cross the interface.
    IllegalInterfaceType,
    /// A member was accessed on an operation that has no storage class.
    NoStorageClass,
    /// A matrix-matrix product of mismatching dimensions.
    MatrixTimesMatrixMismatch(MatrixDims, MatrixDims),
    /// A matrix-vector product of mismatching dimensions.
    MatrixTimesVectorMismatch(MatrixDims, VectorDims),
    /// A vector expansion applied to a value that is not a vector of the right size.
    VecMismatch(&'static str, String),
    /// A name that holds a NUL character.
    NulInName,
}

} // verus!
