use vstd::prelude::*;
use crate::ast::{TypeIDASTNode, TypeId, type_ids_view, lemma_type_ids_view};
use crate::text::cat;

verus! {

/// Whether the type has a name here: integers of 1, 4 or 8 bytes, floats
/// of 4 or 8 bytes, and generic types whose arguments all have one.
pub open spec fn swift_plain_type_supported(t: TypeId) -> bool
    decreases t, 1nat,
{
    match t {
        TypeId::Integer { size, .. } => size == 1 || size == 4 || size == 8,
        TypeId::Number { size, .. } => size == 4 || size == 8,
        TypeId::Generic { generics, .. } => swift_plain_types_supported(generics),
        _ => true,
    }
}

pub open spec fn swift_plain_types_supported(ts: Seq<TypeId>) -> bool
    decreases ts, 0nat,
{
    if ts.len() == 0 {
        true
    } else {
        swift_plain_types_supported(ts.drop_last()) && swift_plain_type_supported(ts.last())
    }
}

/// The Swift name of a type, with generic types written as `Id<A, B>`.
pub open spec fn swift_plain_type_text(t: TypeId) -> Seq<char>
    decreases t, 1nat,
{
    match t {
        TypeId::Integer { size, signed, .. } => {
            if size == 1 {
                if signed { "Int8"@ } else { "UInt8"@ }
            } else if size == 4 {
                if signed { "Int32"@ } else { "UInt32"@ }
            } else {
                if signed { "Int64"@ } else { "UInt64"@ }
            }
        },
        TypeId::Number { size, .. } => if size == 4 { "Float"@ } else { "Double"@ },
        TypeId::Bool { .. } => "Bool"@,
        TypeId::Char { id } => id,
        TypeId::Other { id } => id,
        TypeId::Generic { id, generics } => id + "<"@ + swift_plain_types_text(generics) + ">"@,
    }
}

pub open spec fn swift_plain_types_text(ts: Seq<TypeId>) -> Seq<char>
    decreases ts, 0nat,
{
    if ts.len() == 0 {
        Seq::empty()
    } else if ts.len() == 1 {
        swift_plain_type_text(ts[0])
    } else {
        swift_plain_types_text(ts.drop_last()) + ", "@ + swift_plain_type_text(ts.last())
    }
}

proof fn lemma_swift_plain_types_supported(ts: Seq<TypeId>)
    requires
        swift_plain_types_supported(ts),
    ensures
        forall|i: int| 0 <= i < ts.len() ==> swift_plain_type_supported(#[trigger] ts[i]),
    decreases ts.len(),
{
    if ts.len() > 0 {
        lemma_swift_plain_types_supported(ts.drop_last());
        assert forall|i: int| 0 <= i < ts.len() implies swift_plain_type_supported(#[trigger] ts[i]) by {
            if i < ts.len() - 1 {
                assert(ts[i] == ts.drop_last()[i]);
            }
        }
    }
}

/// The names of the types `generics`, joined by ", ".
#[verifier::loop_isolation(false)]
pub fn generics_text(generics: &Vec<TypeIDASTNode>) -> (res: String)
    requires
        swift_plain_types_supported(type_ids_view(generics@)),
    ensures
        res@ == swift_plain_types_text(type_ids_view(generics@)),
    decreases generics@, 0nat,
{
    proof {
        lemma_type_ids_view(generics@);
        lemma_swift_plain_types_supported(type_ids_view(generics@));
    }
    let mut res = String::new();
    let mut i: usize = 0;
    while i < generics.len()
        invariant
            i <= generics.len(),
            res@ == swift_plain_types_text(type_ids_view(generics@.take(i as int))),
        decreases generics.len() - i,
    {
        proof {
            assert(decreases_to!(generics@ => generics@[i as int]));
            assert(generics@.take(i + 1).drop_last() =~= generics@.take(i as int));
            lemma_type_ids_view(generics@.take(i as int));
            lemma_type_ids_view(generics@.take(i + 1));
            assert(type_ids_view(generics@)[i as int] == generics@[i as int]@);
            assert(type_ids_view(generics@.take(i + 1)).drop_last() =~= type_ids_view(generics@.take(i as int)));
        }
        let g = generate_type_id(&generics[i]);
        if i > 0 {
            res.append(", ");
        }
        res.append(g.as_str());
        i = i + 1;
    }
    assert(generics@.take(generics.len() as int) =~= generics@);
    res
}

/// The Swift name of a type.
pub fn generate_type_id(type_id: &TypeIDASTNode) -> (res: String)
    requires
        swift_plain_type_supported(type_id@),
    ensures
        res@ == swift_plain_type_text(type_id@),
    decreases type_id, 1nat,
{
    match type_id {
        TypeIDASTNode::Integer { size, signed, .. } => {
            if *size == 1 {
                if *signed { String::from_str("Int8") } else { String::from_str("UInt8") }
            } else if *size == 4 {
                if *signed { String::from_str("Int32") } else { String::from_str("UInt32") }
            } else {
                if *signed { String::from_str("Int64") } else { String::from_str("UInt64") }
            }
        },
        TypeIDASTNode::Number { size, .. } => {
            if *size == 4 { String::from_str("Float") } else { String::from_str("Double") }
        },
        TypeIDASTNode::Bool { .. } => String::from_str("Bool"),
        TypeIDASTNode::Char { id } => id.clone(),
        TypeIDASTNode::Other { id } => id.clone(),
        TypeIDASTNode::Generic { id, generics } => {
            proof { assert(decreases_to!(*type_id => *generics)); }
            let inner = generics_text(generics);
            let mut res = cat(id.as_str(), "<");
            res.append(inner.as_str());
            res.append(">");
            res
        },
    }
}

} // verus!
