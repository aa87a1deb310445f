//! The kinds of elements a tensor can hold.
use crate::error::TchError;
use vstd::prelude::*;

verus! {

/// The kind of elements stored in a tensor.
#[derive(Debug, Clone, Copy, PartialEq, Eq, Structural)]
pub enum Kind {
    Uint8,
    Int8,
    Int16,
    Int,
    Int64,
    Half,
    Float,
    Double,
    ComplexHalf,
    ComplexFloat,
    ComplexDouble,
    Bool,
    QInt8,
    QUInt8,
    QInt32,
    BFloat16,
}

/// Whether elements of kind `k` are floating-point or complex numbers.
pub open spec fn is_floating_or_complex(k: Kind) -> bool {
    match k {
        Kind::Half | Kind::BFloat16 | Kind::Float | Kind::Double | Kind::ComplexHalf
        | Kind::ComplexFloat | Kind::ComplexDouble => true,
        _ => false,
    }
}

/// The size in bytes of one element of kind `k`.
pub open spec fn elt_size(k: Kind) -> nat {
    match k {
        Kind::Uint8 | Kind::Int8 | Kind::Bool | Kind::QInt8 | Kind::QUInt8 => 1,
        Kind::Int16 | Kind::Half | Kind::BFloat16 => 2,
        Kind::Int | Kind::Float | Kind::QInt32 | Kind::ComplexHalf => 4,
        Kind::Int64 | Kind::Double | Kind::ComplexFloat => 8,
        Kind::ComplexDouble => 16,
    }
}

/// The name of a kind, as `{:?}` writes it.
pub open spec fn kind_name(k: Kind) -> Seq<char> {
    match k {
        Kind::Uint8 => "Uint8"@,
        Kind::Int8 => "Int8"@,
        Kind::Int16 => "Int16"@,
        Kind::Int => "Int"@,
        Kind::Int64 => "Int64"@,
        Kind::Half => "Half"@,
        Kind::Float => "Float"@,
        Kind::Double => "Double"@,
        Kind::ComplexHalf => "ComplexHalf"@,
        Kind::ComplexFloat => "ComplexFloat"@,
        Kind::ComplexDouble => "ComplexDouble"@,
        Kind::Bool => "Bool"@,
        Kind::QInt8 => "QInt8"@,
        Kind::QUInt8 => "QUInt8"@,
        Kind::QInt32 => "QInt32"@,
        Kind::BFloat16 => "BFloat16"@,
    }
}

impl Kind {
    /// The size in bytes of one element of this kind.
    pub fn elt_size_in_bytes(&self) -> (s: usize)
        ensures
            s == elt_size(*self),
    {
        match self {
            Kind::Uint8 | Kind::Int8 | Kind::Bool | Kind::QInt8 | Kind::QUInt8 => 1,
            Kind::Int16 | Kind::Half | Kind::BFloat16 => 2,
            Kind::Int | Kind::Float | Kind::QInt32 | Kind::ComplexHalf => 4,
            Kind::Int64 | Kind::Double | Kind::ComplexFloat => 8,
            Kind::ComplexDouble => 16,
        }
    }

    /// The name of this kind.
    pub fn name(&self) -> (s: &'static str)
        ensures
            s@ == kind_name(*self),
    {
        match self {
            Kind::Uint8 => "Uint8",
            Kind::Int8 => "Int8",
            Kind::Int16 => "Int16",
            Kind::Int => "Int",
            Kind::Int64 => "Int64",
            Kind::Half => "Half",
            Kind::Float => "Float",
            Kind::Double => "Double",
            Kind::ComplexHalf => "ComplexHalf",
            Kind::ComplexFloat => "ComplexFloat",
            Kind::ComplexDouble => "ComplexDouble",
            Kind::Bool => "Bool",
            Kind::QInt8 => "QInt8",
            Kind::QUInt8 => "QUInt8",
            Kind::QInt32 => "QInt32",
            Kind::BFloat16 => "BFloat16",
        }
    }
}

/// The code of a kind in libtorch (`c10::ScalarType`).
pub open spec fn kind_code(k: Kind) -> int {
    match k {
        Kind::Uint8 => 0,
        Kind::Int8 => 1,
        Kind::Int16 => 2,
        Kind::Int => 3,
        Kind::Int64 => 4,
        Kind::Half => 5,
        Kind::Float => 6,
        Kind::Double => 7,
        Kind::ComplexHalf => 8,
        Kind::ComplexFloat => 9,
        Kind::ComplexDouble => 10,
        Kind::Bool => 11,
        Kind::QInt8 => 12,
        Kind::QUInt8 => 13,
        Kind::QInt32 => 14,
        Kind::BFloat16 => 15,
    }
}

impl Kind {
    /// The code of this kind in libtorch.
    pub fn c_int(&self) -> (c: libc::c_int)
        ensures
            c == kind_code(*self),
    {
        match self {
            Kind::Uint8 => 0,
            Kind::Int8 => 1,
            Kind::Int16 => 2,
            Kind::Int => 3,
            Kind::Int64 => 4,
            Kind::Half => 5,
            Kind::Float => 6,
            Kind::Double => 7,
            Kind::ComplexHalf => 8,
            Kind::ComplexFloat => 9,
            Kind::ComplexDouble => 10,
            Kind::Bool => 11,
            Kind::QInt8 => 12,
            Kind::QUInt8 => 13,
            Kind::QInt32 => 14,
            Kind::BFloat16 => 15,
        }
    }

    /// The kind of libtorch code `v`; codes of kinds this library does not
    /// handle are an `UnknownKind` error.
    pub fn from_c_int(v: libc::c_int) -> (r: Result<Kind, TchError>)
        ensures
            r is Ok <==> 0 <= v <= 15,
            r matches Ok(k) ==> kind_code(k) == v,
            r matches Err(e) ==> e == TchError::UnknownKind(v),
    {
        match v {
            0 => Ok(Kind::Uint8),
            1 => Ok(Kind::Int8),
            2 => Ok(Kind::Int16),
            3 => Ok(Kind::Int),
            4 => Ok(Kind::Int64),
            5 => Ok(Kind::Half),
            6 => Ok(Kind::Float),
            7 => Ok(Kind::Double),
            8 => Ok(Kind::ComplexHalf),
            9 => Ok(Kind::ComplexFloat),
            10 => Ok(Kind::ComplexDouble),
            11 => Ok(Kind::Bool),
            12 => Ok(Kind::QInt8),
            13 => Ok(Kind::QUInt8),
            14 => Ok(Kind::QInt32),
            15 => Ok(Kind::BFloat16),
            _ => Err(TchError::UnknownKind(v)),
        }
    }
}

/// Law: decoding the code of a kind gives the kind back, and no two kinds
/// share a code.
pub proof fn lemma_kind_code_roundtrip(k: Kind, l: Kind)
    ensures
        0 <= kind_code(k) <= 15,
        kind_code(k) == kind_code(l) ==> k == l,
{
}

} // verus!
