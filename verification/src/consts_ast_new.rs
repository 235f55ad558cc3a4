use vstd::prelude::*;
use crate::ast::{ConstValueASTNode, TypeIDASTNode};

verus! {

/// A block of constants whose values may also be structs and enum cases.
pub struct ConstBlockASTNode {
    pub id: String,
    pub items: Vec<ConstItemASTNode>,
}

/// An item of such a block: a constant or a nested block.
pub enum ConstItemASTNode {
    Value { id: String, type_id: TypeIDASTNode, value: ConstValueASTNode },
    ConstsBlock { node: ConstBlockASTNode },
}

/// The value of a constant: a literal, a struct or an enum case.
pub enum ConstItemValueASTNode {
    Value { id: String, type_id: TypeIDASTNode, value: ConstValueASTNode },
    Struct { id: String, type_id: TypeIDASTNode, parameters: Vec<ConstAssignASTNode> },
    Enum { id: String, type_id: TypeIDASTNode, case_id: String, parameters: EnumAssigns },
}

/// The arguments of an enum case: named, or by position.
pub enum EnumAssigns {
    Struct { parameters: Vec<ConstAssignASTNode> },
    Tuple { parameters: Vec<ConstItemValueASTNode> },
}

/// A named argument of a struct or enum case value.
pub struct ConstAssignASTNode {
    pub id: String,
    pub value: ConstItemValueASTNode,
}

} // verus!
