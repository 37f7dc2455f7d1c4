//! Dimensions of matrices and vectors, and how products and transposition affect them.
use crate::errors::Error;
use crate::types::{is_float_matrix, Float, Matrix, SpirvType, Vector};
use vstd::prelude::*;

verus! {

/// Reflects the dimensions of a matrix, and how various operations affect them.
#[derive(PartialEq, Eq, Structural, Clone, Copy, Debug)]
pub struct MatrixDims {
    pub cols: u32,
    pub rows: u32,
}

/// Reflects the dimension of a vector.
#[derive(PartialEq, Eq, Structural, Clone, Copy, Debug)]
pub struct VectorDims {
    pub count: u32,
}

impl VectorDims {
    pub fn new(count: u32) -> (r: VectorDims)
        ensures
            r.count == count,
    {
        VectorDims { count }
    }
}

impl MatrixDims {
    pub fn new(cols: u32, rows: u32) -> (r: MatrixDims)
        ensures
            r.cols == cols,
            r.rows == rows,
    {
        MatrixDims { cols, rows }
    }

    /// Reflects the multiplication of a matrix and a matrix: defined when the columns of
    /// `self` match the rows of `other`; the product is a float matrix with the columns
    /// of `other`, each of the rows of `self`.
    pub fn matrix_mul_type(&self, other: MatrixDims) -> (r: Result<Matrix, Error>)
        ensures
            self.cols != other.rows <==> r is Err,
            r matches Err(e) ==> e == Error::MatrixTimesMatrixMismatch(*self, other),
            r matches Ok(m) ==> is_float_matrix(m, other.cols, self.rows),
    {
        if self.cols != other.rows {
            return Err(Error::MatrixTimesMatrixMismatch(*self, other));
        }
        Ok(Matrix::new(SpirvType::Vector(Vector::new(SpirvType::Float(Float), self.rows)), other.cols))
    }

    /// Reflects the multiplication of a matrix and a vector: defined when the columns of
    /// `self` match the size of the vector; the product is a float vector with one
    /// component per row of `self`.
    pub fn vector_mul_type(&self, other: VectorDims) -> (r: Result<Vector, Error>)
        ensures
            self.cols != other.count <==> r is Err,
            r matches Err(e) ==> e == Error::MatrixTimesVectorMismatch(*self, other),
            r matches Ok(v) ==> *v.component == SpirvType::Float(Float) && v.component_count
                == self.rows,
    {
        if self.cols != other.count {
            return Err(Error::MatrixTimesVectorMismatch(*self, other));
        }
        Ok(Vector::new(SpirvType::Float(Float), self.rows))
    }

    /// Transpose the current matrix and return the new type: a float matrix with the
    /// rows of `self` as columns, each of the columns of `self`.
    pub fn transpose_type(&self) -> (r: Result<Matrix, Error>)
        ensures
            r matches Ok(m) && is_float_matrix(m, self.rows, self.cols),
    {
        Ok(Matrix::new(SpirvType::Vector(Vector::new(SpirvType::Float(Float), self.cols)), self.rows))
    }
}

} // verus!
