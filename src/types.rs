use vstd::prelude::*;

use crate::hex::AccountAddress;

verus! {

/// The type of a Move value.
#[derive(Debug, PartialEq, Eq)]
pub enum TypeTag {
    Bool,
    U8,
    U16,
    U32,
    U64,
    U128,
    U256,
    Address,
    Signer,
    Vector(Box<TypeTag>),
    /// `<address>::<module>::<name>` with its type parameters.
    Struct { address: AccountAddress, module: Vec<u8>, name: Vec<u8>, type_params: Vec<TypeTag> },
}

/// Byte width of an unsigned integer type; zero for every other type.
pub open spec fn int_width(t: TypeTag) -> nat {
    match t {
        TypeTag::U8 => 1,
        TypeTag::U16 => 2,
        TypeTag::U32 => 4,
        TypeTag::U64 => 8,
        TypeTag::U128 => 16,
        TypeTag::U256 => 32,
        _ => 0,
    }
}

pub fn int_width_of(t: &TypeTag) -> (r: usize)
    ensures
        r as nat == int_width(*t),
{
    match t {
        TypeTag::U8 => 1,
        TypeTag::U16 => 2,
        TypeTag::U32 => 4,
        TypeTag::U64 => 8,
        TypeTag::U128 => 16,
        TypeTag::U256 => 32,
        _ => 0,
    }
}

/// A literal argument as written, before it is matched with a parameter type.
#[derive(Debug, PartialEq, Eq)]
pub enum Literal {
    Bool(bool),
    /// Decimal digits with the byte width of an explicit suffix such as `_u8`.
    Number { digits: Vec<u8>, suffix: Option<usize> },
    Address(AccountAddress),
    /// A `x"..."` byte string.
    Bytes(Vec<u8>),
    Vector(Vec<Literal>),
}

/// The integer type of the given byte width.
pub open spec fn int_type(w: nat) -> TypeTag {
    if w == 1 {
        TypeTag::U8
    } else if w == 2 {
        TypeTag::U16
    } else if w == 4 {
        TypeTag::U32
    } else if w == 16 {
        TypeTag::U128
    } else if w == 32 {
        TypeTag::U256
    } else {
        TypeTag::U64
    }
}

pub fn int_type_of(w: usize) -> (r: TypeTag)
    ensures
        r == int_type(w as nat),
{
    if w == 1 {
        TypeTag::U8
    } else if w == 2 {
        TypeTag::U16
    } else if w == 4 {
        TypeTag::U32
    } else if w == 16 {
        TypeTag::U128
    } else if w == 32 {
        TypeTag::U256
    } else {
        TypeTag::U64
    }
}

/// The type a literal has when nothing is declared for it: unsuffixed numbers
/// are `u64`, and an empty vector is a vector of `u64`.
pub open spec fn natural_type(l: Literal) -> TypeTag
    decreases l,
{
    match l {
        Literal::Bool(_) => TypeTag::Bool,
        Literal::Number { digits, suffix } => match suffix {
            Some(w) => int_type(w as nat),
            None => TypeTag::U64,
        },
        Literal::Address(_) => TypeTag::Address,
        Literal::Bytes(_) => TypeTag::Vector(Box::new(TypeTag::U8)),
        Literal::Vector(v) => if v@.len() == 0 {
            TypeTag::Vector(Box::new(TypeTag::U64))
        } else {
            TypeTag::Vector(Box::new(natural_type(v@[0])))
        },
    }
}

impl Literal {
    pub fn natural_type(&self) -> (r: TypeTag)
        ensures
            r == natural_type(*self),
        decreases self,
    {
        match self {
            Literal::Bool(_) => TypeTag::Bool,
            Literal::Number { digits, suffix } => match suffix {
                Some(w) => int_type_of(*w),
                None => TypeTag::U64,
            },
            Literal::Address(_) => TypeTag::Address,
            Literal::Bytes(_) => TypeTag::Vector(Box::new(TypeTag::U8)),
            Literal::Vector(v) => if v.len() == 0 {
                TypeTag::Vector(Box::new(TypeTag::U64))
            } else {
                TypeTag::Vector(Box::new(v[0].natural_type()))
            },
        }
    }
}

} // verus!
