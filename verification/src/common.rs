//! Data types and attributes of the source intermediate representation.
//!
//! The flattening engine copies these values around but never interprets
//! their contents: a data type travels from an entity to the flat value
//! table, and attributes parameterize operations.

use vstd::prelude::*;

verus! {

/// An unsigned integer type of a given bit width.
#[derive(Clone, Copy, Debug, PartialEq, Eq, Structural)]
pub struct UIntType(pub usize);

/// A struct type: named fields, each with its own data type.
#[derive(Debug)]
pub struct StructType(pub Vec<(String, Box<DataTypeEnum>)>);

/// An array type: element type and length.
#[derive(Debug)]
pub struct ArrayType(pub Box<DataTypeEnum>, pub usize);

/// An unpacked array type: element type and length.
#[derive(Debug)]
pub struct UArrayType(pub Box<DataTypeEnum>, pub usize);

/// A memory type: element type and a shape of dimensions.
#[derive(Debug)]
pub struct SeqHlmemType(pub Box<DataTypeEnum>, pub Vec<usize>);

/// The data type carried by a wire or flat value.
#[derive(Debug)]
pub enum DataTypeEnum {
    /// The type of synthetic values that no wire of the source carries.
    Void,
    /// The clock type; clock wires take no part in the dataflow graph.
    Clk,
    /// An unsigned integer.
    UInt(UIntType),
    /// A struct.
    Struct(StructType),
    /// A packed array.
    Array(ArrayType),
    /// An unpacked array.
    UArray(UArrayType),
    /// A memory.
    SeqHlmem(SeqHlmemType),
}

/// The mathematical shape of a data type, used by every contract that
/// speaks about a copied type.
#[verifier::ext_equal]
pub enum DtShape {
    /// The type of synthetic values.
    Void,
    /// The clock type.
    Clk,
    /// An unsigned integer of the given width.
    UInt(usize),
    /// A struct: field names with their shapes, in order.
    Struct(Seq<(Seq<char>, DtShape)>),
    /// A packed array: element shape and length.
    Array(Box<DtShape>, usize),
    /// An unpacked array: element shape and length.
    UArray(Box<DtShape>, usize),
    /// A memory: element shape and dimensions.
    SeqHlmem(Box<DtShape>, Seq<usize>),
}

impl View for DataTypeEnum {
    type V = DtShape;

    open spec fn view(&self) -> DtShape
        decreases self,
    {
        match self {
            DataTypeEnum::Void => DtShape::Void,
            DataTypeEnum::Clk => DtShape::Clk,
            DataTypeEnum::UInt(w) => DtShape::UInt(w.0),
            DataTypeEnum::Struct(st) => DtShape::Struct(field_shapes_of(st.0@)),
            DataTypeEnum::Array(a) => DtShape::Array(Box::new((*a.0)@), a.1),
            DataTypeEnum::UArray(a) => DtShape::UArray(Box::new((*a.0)@), a.1),
            DataTypeEnum::SeqHlmem(m) => DtShape::SeqHlmem(Box::new((*m.0)@), m.1@),
        }
    }
}

/// The shapes of a struct type's field list, names included, in order.
pub open spec fn field_shapes_of(s: Seq<(String, Box<DataTypeEnum>)>) -> Seq<(Seq<char>, DtShape)>
    decreases s,
{
    if s.len() == 0 {
        Seq::empty()
    } else {
        field_shapes_of(s.subrange(0, s.len() - 1)).push(
            (s[s.len() - 1].0@, (*s[s.len() - 1].1)@),
        )
    }
}

/// `field_shapes_of` maps the field list pointwise.
pub proof fn lemma_field_shapes_of(s: Seq<(String, Box<DataTypeEnum>)>)
    ensures
        field_shapes_of(s).len() == s.len(),
        forall|i: int|
            0 <= i < s.len() ==> field_shapes_of(s)[i] == ((#[trigger] s[i]).0@, (*s[i].1)@),
    decreases s.len(),
{
    if s.len() > 0 {
        let sub = s.subrange(0, s.len() - 1);
        lemma_field_shapes_of(sub);
        assert(field_shapes_of(s) == field_shapes_of(sub).push(
            (s[s.len() - 1].0@, (*s[s.len() - 1].1)@),
        ));
        assert forall|i: int|
            0 <= i < s.len() implies field_shapes_of(s)[i] == ((#[trigger] s[i]).0@, (
        *s[i].1)@) by {
            if i < s.len() - 1 {
                assert(sub[i] == s[i]);
                assert(field_shapes_of(s)[i] == field_shapes_of(sub)[i]);
            }
        }
    }
}

impl DataTypeEnum {
    /// A copy of the data type with exactly the same shape.
    pub fn duplicate(&self) -> (r: DataTypeEnum)
        ensures
            r@ == self@,
        decreases self,
    {
        match self {
            DataTypeEnum::Void => DataTypeEnum::Void,
            DataTypeEnum::Clk => DataTypeEnum::Clk,
            DataTypeEnum::UInt(w) => DataTypeEnum::UInt(UIntType(w.0)),
            DataTypeEnum::Struct(s) => {
                let copies = duplicate_fields(&s.0);
                proof {
                    lemma_field_shapes_of(copies@);
                    lemma_field_shapes_of(s.0@);
                    assert forall|i: int|
                        0 <= i < s.0@.len() implies field_shapes_of(copies@)[i]
                        == field_shapes_of(s.0@)[i] by {
                        assert(copies@[i].0 == s.0@[i].0);
                        assert((*copies@[i].1)@ == (*s.0@[i].1)@);
                    }
                    assert(field_shapes_of(copies@) =~= field_shapes_of(s.0@));
                }
                DataTypeEnum::Struct(StructType(copies))
            },
            DataTypeEnum::Array(a) => {
                DataTypeEnum::Array(ArrayType(Box::new(a.0.duplicate()), a.1))
            },
            DataTypeEnum::UArray(a) => {
                DataTypeEnum::UArray(UArrayType(Box::new(a.0.duplicate()), a.1))
            },
            DataTypeEnum::SeqHlmem(m) => {
                DataTypeEnum::SeqHlmem(SeqHlmemType(Box::new(m.0.duplicate()), copy_dims(&m.1)))
            },
        }
    }
}

/// A copy of a struct type's field list, names and shapes preserved.
fn duplicate_fields(fields: &Vec<(String, Box<DataTypeEnum>)>) -> (r: Vec<
    (String, Box<DataTypeEnum>),
>)
    ensures
        r@.len() == fields@.len(),
        forall|i: int|
            0 <= i < fields@.len() ==> (#[trigger] r@[i]).0 == fields@[i].0 && (*r@[i].1)@ == (
            *fields@[i].1)@,
    decreases fields,
{
    let mut out: Vec<(String, Box<DataTypeEnum>)> = Vec::new();
    let mut i: usize = 0;
    while i < fields.len()
        invariant
            i <= fields@.len(),
            out@.len() == i,
            forall|k: int|
                0 <= k < i ==> (#[trigger] out@[k]).0 == fields@[k].0 && (*out@[k].1)@ == (
                *fields@[k].1)@,
        decreases fields@.len() - i,
    {
        let name = fields[i].0.clone();
        let dtype = fields[i].1.duplicate();
        out.push((name, Box::new(dtype)));
        i = i + 1;
    }
    out
}

/// A copy of a dimension list.
fn copy_dims(dims: &Vec<usize>) -> (r: Vec<usize>)
    ensures
        r@ == dims@,
{
    let mut out: Vec<usize> = Vec::new();
    let mut i: usize = 0;
    while i < dims.len()
        invariant
            i <= dims@.len(),
            out@ == dims@.subrange(0, i as int),
        decreases dims@.len() - i,
    {
        out.push(dims[i]);
        i = i + 1;
    }
    proof {
        assert(out@ =~= dims@);
    }
    out
}

/// The predicate of a variadic combinational operator.
#[derive(Clone, Copy, Debug, PartialEq, Eq, Structural)]
pub enum CombVariadicPredicate {
    /// Sum of the operands.
    Add,
    /// Product of the operands.
    Mul,
    /// Bitwise conjunction.
    And,
    /// Bitwise disjunction.
    Or,
    /// Bitwise exclusive or.
    Xor,
}

impl CombVariadicPredicate {
    /// The textual mnemonic of the predicate.
    pub fn get_str(&self) -> &'static str {
        match self {
            CombVariadicPredicate::Add => "add",
            CombVariadicPredicate::Mul => "mul",
            CombVariadicPredicate::And => "and",
            CombVariadicPredicate::Or => "or",
            CombVariadicPredicate::Xor => "xor",
        }
    }
}

/// The predicate of a unary combinational operator.
#[derive(Clone, Copy, Debug, PartialEq, Eq, Structural)]
pub enum CombUnaryPredicate {
    /// Bitwise complement.
    Not,
    /// Arithmetic negation.
    Neg,
}

impl CombUnaryPredicate {
    /// The textual mnemonic of the predicate.
    pub fn get_str(&self) -> &'static str {
        match self {
            CombUnaryPredicate::Not => "not",
            CombUnaryPredicate::Neg => "neg",
        }
    }
}

/// The predicate of a binary combinational operator.
#[derive(Clone, Copy, Debug, PartialEq, Eq, Structural)]
pub enum CombBinaryPredicate {
    /// Unsigned division.
    DivU,
    /// Signed division.
    DivS,
    /// Unsigned remainder.
    ModU,
    /// Signed remainder.
    ModS,
    /// Left shift.
    Shl,
    /// Unsigned right shift.
    ShrU,
    /// Signed right shift.
    ShrS,
    /// Subtraction.
    Sub,
}

impl CombBinaryPredicate {
    /// The textual mnemonic of the predicate.
    pub fn get_str(&self) -> &'static str {
        match self {
            CombBinaryPredicate::DivU => "divu",
            CombBinaryPredicate::DivS => "divs",
            CombBinaryPredicate::ModU => "modu",
            CombBinaryPredicate::ModS => "mods",
            CombBinaryPredicate::Shl => "shl",
            CombBinaryPredicate::ShrU => "shru",
            CombBinaryPredicate::ShrS => "shrs",
            CombBinaryPredicate::Sub => "sub",
        }
    }
}

/// The predicate of an integer comparison operator.
#[derive(Clone, Copy, Debug, PartialEq, Eq, Structural)]
pub enum CombICmpPredicate {
    /// Equal.
    EQ,
    /// Not equal.
    NE,
    /// Signed less than.
    SLT,
    /// Signed less than or equal.
    SLE,
    /// Signed greater than.
    SGT,
    /// Signed greater than or equal.
    SGE,
    /// Unsigned less than.
    ULT,
    /// Unsigned less than or equal.
    ULE,
    /// Unsigned greater than.
    UGT,
    /// Unsigned greater than or equal.
    UGE,
    /// Case equality.
    CEQ,
    /// Case inequality.
    CNE,
    /// Wildcard equality.
    WEQ,
    /// Wildcard inequality.
    WNE,
}

impl CombICmpPredicate {
    /// The textual mnemonic of the predicate.
    pub fn get_str(&self) -> &'static str {
        match self {
            CombICmpPredicate::EQ => "eq",
            CombICmpPredicate::NE => "ne",
            CombICmpPredicate::SLT => "slt",
            CombICmpPredicate::SLE => "sle",
            CombICmpPredicate::SGT => "sgt",
            CombICmpPredicate::SGE => "sge",
            CombICmpPredicate::ULT => "ult",
            CombICmpPredicate::ULE => "ule",
            CombICmpPredicate::UGT => "ugt",
            CombICmpPredicate::UGE => "uge",
            CombICmpPredicate::CEQ => "ceq",
            CombICmpPredicate::CNE => "cne",
            CombICmpPredicate::WEQ => "weq",
            CombICmpPredicate::WNE => "wne",
        }
    }
}

/// A string attribute, such as a module or port name.
#[derive(Clone, Debug, PartialEq)]
pub struct StringAttr(pub String);

/// A boolean attribute, such as the one-hot or top-module flag.
#[derive(Clone, Copy, Debug, PartialEq, Eq, Structural)]
pub struct BoolAttr(pub bool);

/// An unsigned integer attribute.
#[derive(Clone, Copy, Debug, PartialEq, Eq, Structural)]
pub struct UIntAttr(pub u32);

/// A data type carried as an attribute.
#[derive(Debug)]
pub struct TypeAttr(pub DataTypeEnum);

/// A constant value, least significant bit first.
#[derive(Clone, Debug, PartialEq)]
pub struct ConstantAttr(pub Vec<bool>);

/// A list of attributes.
#[derive(Debug)]
pub struct ArrayAttr(pub Vec<AttributeEnum>);

/// Any attribute an operation or entity of the source design may carry.
#[derive(Debug)]
pub enum AttributeEnum {
    /// A constant bit vector.
    ConstantAttr(ConstantAttr),
    /// A boolean flag.
    BoolAttr(BoolAttr),
    /// An unsigned integer.
    UIntAttr(UIntAttr),
    /// A string.
    StringAttr(StringAttr),
    /// A data type.
    TypeAttr(TypeAttr),
    /// A list of attributes.
    ArrayAttr(ArrayAttr),
    /// A variadic combinational predicate.
    CombVariadicPredicate(CombVariadicPredicate),
    /// A binary combinational predicate.
    CombBinaryPredicate(CombBinaryPredicate),
    /// A unary combinational predicate.
    CombUnaryPredicate(CombUnaryPredicate),
    /// An integer comparison predicate.
    CombICmpPredicate(CombICmpPredicate),
}

impl AttributeEnum {
    /// The data type an attribute value carries, if any: only a type
    /// attribute has one, and the copy keeps its shape.
    pub fn dtype(&self) -> (r: Option<DataTypeEnum>)
        ensures
            r is Some <==> self is TypeAttr,
            self matches AttributeEnum::TypeAttr(t) ==> (r matches Some(d) && d@ == t.0@),
    {
        match self {
            AttributeEnum::TypeAttr(t) => Some(t.0.duplicate()),
            _ => None,
        }
    }
}

/// A named handle used where the source design labels an item.
#[derive(Clone, Debug, PartialEq)]
pub struct Symbol {
    name: Option<String>,
}

impl Symbol {
    /// Wrap a name.
    pub fn new(name: String) -> Symbol {
        Symbol { name: Some(name) }
    }
}

/// A constant value of a known width together with its data type.
#[derive(Clone, Copy, Debug, PartialEq)]
pub struct ConstValueU32<D: Clone> {
    /// The numeric value.
    pub value: u32,
    /// The data type of the constant.
    pub dtype: D,
}

} // verus!
