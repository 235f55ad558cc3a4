use vstd::prelude::*;
use crate::lexer::Literal;
use crate::text::str_eq;

verus! {

pub enum ASTNode {
    Enum(EnumASTNode),
    Struct(StructASTNode),
    Fn(FnASTNode),
    Directive(DirectiveASTNode),
    Const(ConstASTNode),
}

pub struct ConstASTNode {
    pub id: String,
    pub items: Vec<ConstItemASTNode>,
}

pub enum ConstItemASTNode {
    Value { id: String, type_id: TypeIDASTNode, value: ConstValueASTNode },
    ConstNode { node: ConstASTNode },
}

pub enum DirectiveASTNode {
    Value { id: String, value: ConstValueASTNode },
    Group { group_id: String, values: Vec<IdValuePair> },
}

pub struct EnumASTNode {
    pub id: String,
    pub items: Vec<EnumItemASTNode>,
}

pub struct StructASTNode {
    pub id: String,
    pub fields: Vec<StructFieldASTNode>,
    pub emplace_buffers: bool,
    pub into_buffers: bool,
}

pub struct FnASTNode {
    pub id: String,
    pub position: u32,
    pub args: Vec<FnArgASTNode>,
    pub return_type_id: Option<TypeIDASTNode>,
    pub is_read: bool,
    pub is_async: bool,
    pub is_signal: bool,
}

pub enum EnumItemASTNode {
    Empty { position: u32, id: String },
    Tuple { position: u32, id: String, values: Vec<TupleFieldASTNode> },
    Struct { position: u32, id: String, fields: Vec<StructFieldASTNode> },
}

pub enum ConstValueASTNode {
    Literal { literal: Literal, type_id: TypeIDASTNode },
}

pub struct IdValuePair {
    pub id: String,
    pub value: ConstValueASTNode,
}

pub enum TypeIDASTNode {
    Integer { id: String, size: usize, signed: bool },
    Number { id: String, size: usize },
    Bool { id: String },
    Char { id: String },
    Generic { id: String, generics: Vec<TypeIDASTNode> },
    Other { id: String },
}

pub struct TupleFieldASTNode {
    pub position: u32,
    pub type_id: TypeIDASTNode,
}

pub struct StructFieldASTNode {
    pub position: u32,
    pub name: String,
    pub type_id: TypeIDASTNode,
}

pub struct FnArgASTNode {
    pub id: String,
    pub type_id: TypeIDASTNode,
}

/// The mathematical value of a type: its name, its size and sign for
/// numbers, and its type arguments for generic types.
pub enum TypeId {
    Integer { id: Seq<char>, size: usize, signed: bool },
    Number { id: Seq<char>, size: usize },
    Bool { id: Seq<char> },
    Char { id: Seq<char> },
    Generic { id: Seq<char>, generics: Seq<TypeId> },
    Other { id: Seq<char> },
}

pub open spec fn type_id_view(t: TypeIDASTNode) -> TypeId
    decreases t, 1nat,
{
    match t {
        TypeIDASTNode::Integer { id, size, signed } => TypeId::Integer { id: id@, size, signed },
        TypeIDASTNode::Number { id, size } => TypeId::Number { id: id@, size },
        TypeIDASTNode::Bool { id } => TypeId::Bool { id: id@ },
        TypeIDASTNode::Char { id } => TypeId::Char { id: id@ },
        TypeIDASTNode::Generic { id, generics } => TypeId::Generic {
            id: id@,
            generics: type_ids_view(generics@),
        },
        TypeIDASTNode::Other { id } => TypeId::Other { id: id@ },
    }
}

pub open spec fn type_ids_view(ts: Seq<TypeIDASTNode>) -> Seq<TypeId>
    decreases ts, 0nat,
{
    if ts.len() == 0 {
        Seq::empty()
    } else {
        type_ids_view(ts.drop_last()).push(type_id_view(ts.last()))
    }
}

impl View for TypeIDASTNode {
    type V = TypeId;

    open spec fn view(&self) -> TypeId {
        type_id_view(*self)
    }
}

/// The view of a sequence of types is the sequence of their views.
pub proof fn lemma_type_ids_view(ts: Seq<TypeIDASTNode>)
    ensures
        type_ids_view(ts).len() == ts.len(),
        forall|i: int| 0 <= i < ts.len() ==> #[trigger] type_ids_view(ts)[i] == ts[i]@,
    decreases ts.len(),
{
    if ts.len() > 0 {
        lemma_type_ids_view(ts.drop_last());
    }
}

/// The mathematical value of a constant: its literal and its type.
pub struct ConstValue {
    pub literal: Literal,
    pub type_id: TypeId,
}

impl View for ConstValueASTNode {
    type V = ConstValue;

    open spec fn view(&self) -> ConstValue {
        match self {
            ConstValueASTNode::Literal { literal, type_id } => ConstValue { literal: *literal, type_id: type_id@ },
        }
    }
}

impl Clone for TypeIDASTNode {
    #[verifier::loop_isolation(false)]
    fn clone(&self) -> (res: Self)
        ensures
            res@ == self@,
        decreases self,
    {
        match self {
            TypeIDASTNode::Integer { id, size, signed } => TypeIDASTNode::Integer { id: id.clone(), size: *size, signed: *signed },
            TypeIDASTNode::Number { id, size } => TypeIDASTNode::Number { id: id.clone(), size: *size },
            TypeIDASTNode::Bool { id } => TypeIDASTNode::Bool { id: id.clone() },
            TypeIDASTNode::Char { id } => TypeIDASTNode::Char { id: id.clone() },
            TypeIDASTNode::Other { id } => TypeIDASTNode::Other { id: id.clone() },
            TypeIDASTNode::Generic { id, generics } => {
                let mut gs: Vec<TypeIDASTNode> = Vec::new();
                let mut i: usize = 0;
                while i < generics.len()
                    invariant
                        i <= generics.len(),
                        type_ids_view(gs@) == type_ids_view(generics@.take(i as int)),
                    decreases generics.len() - i,
                {
                    proof { assert(decreases_to!(*generics => generics[i as int])); }
                    let g = generics[i].clone();
                    let ghost prev = gs@;
                    gs.push(g);
                    assert(gs@.drop_last() =~= prev);
                    assert(generics@.take(i + 1).drop_last() =~= generics@.take(i as int));
                    assert(type_ids_view(gs@) == type_ids_view(prev).push(g@));
                    i = i + 1;
                }
                assert(generics@.take(generics.len() as int) =~= generics@);
                TypeIDASTNode::Generic { id: id.clone(), generics: gs }
            },
        }
    }
}



impl Clone for ConstValueASTNode {
    fn clone(&self) -> (res: Self)
        ensures
            res@ == self@,
    {
        match self {
            ConstValueASTNode::Literal { literal, type_id } => ConstValueASTNode::Literal {
                literal: literal.clone(),
                type_id: type_id.clone(),
            },
        }
    }
}

impl EnumItemASTNode {
    pub open spec fn spec_id(&self) -> Seq<char> {
        match self {
            EnumItemASTNode::Empty { id, .. } => id@,
            EnumItemASTNode::Tuple { id, .. } => id@,
            EnumItemASTNode::Struct { id, .. } => id@,
        }
    }

    pub open spec fn spec_position(&self) -> u32 {
        match self {
            EnumItemASTNode::Empty { position, .. } => *position,
            EnumItemASTNode::Tuple { position, .. } => *position,
            EnumItemASTNode::Struct { position, .. } => *position,
        }
    }

    /// The item's name, whatever its kind.
    pub fn id(&self) -> (res: &str)
        ensures
            res@ == self.spec_id(),
    {
        match self {
            EnumItemASTNode::Empty { position: _, id } => id.as_str(),
            EnumItemASTNode::Tuple { position: _, id, values: _ } => id.as_str(),
            EnumItemASTNode::Struct { position: _, id, fields: _ } => id.as_str(),
        }
    }

    /// The item's position, whatever its kind.
    pub fn position(&self) -> (res: u32)
        ensures
            res == self.spec_position(),
    {
        match self {
            EnumItemASTNode::Empty { position, id: _ } => *position,
            EnumItemASTNode::Tuple { position, id: _, values: _ } => *position,
            EnumItemASTNode::Struct { position, id: _, fields: _ } => *position,
        }
    }
}

impl TypeIDASTNode {
    /// The type used for enum discriminants: `u32`, declared with size 8.
    pub fn u32_type_id() -> (res: Self)
        ensures
            res@ == (TypeId::Integer { id: "u32"@, size: 8, signed: false }),
    {
        TypeIDASTNode::Integer { id: String::from_str("u32"), size: 8, signed: false }
    }
}

/// Whether some node is a block of constants.
pub fn contains_consts_nodes(ast: &[ASTNode]) -> (res: bool)
    ensures
        res == exists|i: int| 0 <= i < ast@.len() && ast@[i] is Const,
{
    let mut i: usize = 0;
    while i < ast.len()
        invariant
            i <= ast@.len(),
            forall|j: int| 0 <= j < i ==> !(ast@[j] is Const),
        decreases ast@.len() - i,
    {
        if let ASTNode::Const(_) = &ast[i] {
            return true;
        }
        i = i + 1;
    }
    false
}

/// Whether some node is a function (an RPC method).
pub fn contains_fn_nodes(ast: &[ASTNode]) -> (res: bool)
    ensures
        res == exists|i: int| 0 <= i < ast@.len() && ast@[i] is Fn,
{
    let mut i: usize = 0;
    while i < ast.len()
        invariant
            i <= ast@.len(),
            forall|j: int| 0 <= j < i ==> !(ast@[j] is Fn),
        decreases ast@.len() - i,
    {
        if let ASTNode::Fn(_) = &ast[i] {
            return true;
        }
        i = i + 1;
    }
    false
}

/// Whether some node is a model that goes through buffers: a struct or an enum.
pub fn contains_buffers_nodes(ast: &[ASTNode]) -> (res: bool)
    ensures
        res == exists|i: int| 0 <= i < ast@.len() && (ast@[i] is Struct || ast@[i] is Enum),
{
    let mut i: usize = 0;
    while i < ast.len()
        invariant
            i <= ast@.len(),
            forall|j: int| 0 <= j < i ==> !(ast@[j] is Struct || ast@[j] is Enum),
        decreases ast@.len() - i,
    {
        match &ast[i] {
            ASTNode::Struct(_) => { return true; },
            ASTNode::Enum(_) => { return true; },
            _ => {},
        }
        i = i + 1;
    }
    false
}

/// How deeply constant blocks nest: one for a block without nested blocks.
pub open spec fn const_block_depth(node: ConstASTNode) -> nat
    decreases node, 2nat,
{
    1 + const_items_depth(node.items@)
}

pub open spec fn const_items_depth(items: Seq<ConstItemASTNode>) -> nat
    decreases items, 1nat,
{
    if items.len() == 0 {
        0
    } else {
        let rest = const_items_depth(items.drop_last());
        let last = const_item_depth(items[items.len() - 1]);
        if rest >= last { rest } else { last }
    }
}

pub open spec fn const_item_depth(item: ConstItemASTNode) -> nat
    decreases item, 0nat,
{
    match item {
        ConstItemASTNode::Value { .. } => 0,
        ConstItemASTNode::ConstNode { node } => const_block_depth(node),
    }
}

/// How deep a block of constants nests, where that fits in `usize`.
#[verifier::loop_isolation(false)]
pub fn const_block_depth_of(node: &ConstASTNode) -> (res: Option<usize>)
    ensures
        match res {
            Some(d) => d == const_block_depth(*node),
            None => const_block_depth(*node) > usize::MAX,
        },
    decreases node,
{
    let items = &node.items;
    assert(items@ == node.items@);
    let mut deepest: usize = 0;
    let mut i: usize = 0;
    while i < items.len()
        invariant
            i <= items@.len(),
            deepest == const_items_depth(items@.take(i as int)),
        decreases items@.len() - i,
    {
        proof {
            assert(items@.take(i + 1).drop_last() =~= items@.take(i as int));
            assert(items@.take(i + 1)[i as int] == items@[i as int]);
        }
        let d: usize = match &items[i] {
            ConstItemASTNode::Value { .. } => 0,
            ConstItemASTNode::ConstNode { node: inner } => {
                proof {
                    assert(decreases_to!(*node => node.items));
                    assert(decreases_to!(node.items => node.items[i as int]));
                    assert(decreases_to!(node.items[i as int] => *inner));
                }
                match const_block_depth_of(inner) {
                    Some(d) => d,
                    None => {
                        proof {
                            lemma_const_items_depth(items@);
                            assert(const_item_depth(items@[i as int]) <= const_items_depth(items@));
                            assert(items@.take(items@.len() as int) =~= items@);
                        }
                        return None;
                    },
                }
            },
        };
        if d > deepest {
            deepest = d;
        }
        i = i + 1;
    }
    proof { assert(items@.take(items@.len() as int) =~= items@); }
    if deepest == usize::MAX {
        None
    } else {
        Some(deepest + 1)
    }
}

/// No item nests deeper than the items together.
pub proof fn lemma_const_items_depth(items: Seq<ConstItemASTNode>)
    ensures
        forall|i: int| 0 <= i < items.len() ==> const_item_depth(#[trigger] items[i]) <= const_items_depth(items),
    decreases items.len(),
{
    if items.len() > 0 {
        lemma_const_items_depth(items.drop_last());
        assert forall|i: int| 0 <= i < items.len() implies const_item_depth(#[trigger] items[i]) <= const_items_depth(items) by {
            if i < items.len() - 1 {
                assert(items[i] == items.drop_last()[i]);
            }
        }
    }
}

/// The blocks of constants, in their order.
pub open spec fn const_nodes(ast: Seq<ASTNode>) -> Seq<ConstASTNode>
    decreases ast.len(),
{
    if ast.len() == 0 {
        Seq::empty()
    } else {
        let rest = const_nodes(ast.drop_last());
        match ast.last() {
            ASTNode::Const(node) => rest.push(node),
            _ => rest,
        }
    }
}

/// The function nodes, in their order.
pub open spec fn fn_nodes(ast: Seq<ASTNode>) -> Seq<FnASTNode>
    decreases ast.len(),
{
    if ast.len() == 0 {
        Seq::empty()
    } else {
        let rest = fn_nodes(ast.drop_last());
        match ast.last() {
            ASTNode::Fn(node) => rest.push(node),
            _ => rest,
        }
    }
}

pub fn find_fn_nodes(ast: &[ASTNode]) -> (res: Vec<&FnASTNode>)
    ensures
        res@.len() == fn_nodes(ast@).len(),
        forall|i: int| 0 <= i < res@.len() ==> *res@[i] == fn_nodes(ast@)[i],
{
    let mut res: Vec<&FnASTNode> = Vec::new();
    let mut i: usize = 0;
    while i < ast.len()
        invariant
            i <= ast@.len(),
            res@.len() == fn_nodes(ast@.take(i as int)).len(),
            forall|k: int| 0 <= k < res@.len() ==> *res@[k] == fn_nodes(ast@.take(i as int))[k],
        decreases ast@.len() - i,
    {
        assert(ast@.take(i + 1).drop_last() =~= ast@.take(i as int));
        if let ASTNode::Fn(node) = &ast[i] {
            res.push(node);
        }
        i = i + 1;
    }
    assert(ast@.take(ast@.len() as int) =~= ast@);
    res
}

/// The value of the first directive `#[target = value]`.
pub open spec fn directive_value(ast: Seq<ASTNode>, target: Seq<char>) -> Option<ConstValue>
    decreases ast.len(),
{
    if ast.len() == 0 {
        None
    } else {
        match ast[0] {
            ASTNode::Directive(DirectiveASTNode::Value { id, value }) => {
                if id@ == target {
                    Some(value@)
                } else {
                    directive_value(ast.drop_first(), target)
                }
            },
            _ => directive_value(ast.drop_first(), target),
        }
    }
}

pub fn find_directive_value(ast: &[ASTNode], target_id: &str) -> (res: Option<ConstValueASTNode>)
    ensures
        match res {
            Some(v) => directive_value(ast@, target_id@) == Some(v@),
            None => directive_value(ast@, target_id@) is None,
        },
{
    let mut i: usize = 0;
    assert(ast@.skip(0) =~= ast@);
    while i < ast.len()
        invariant
            i <= ast@.len(),
            directive_value(ast@, target_id@) == directive_value(ast@.skip(i as int), target_id@),
        decreases ast@.len() - i,
    {
        assert(ast@.skip(i as int).drop_first() =~= ast@.skip(i + 1));
        assert(ast@.skip(i as int)[0] == ast@[i as int]);
        if let ASTNode::Directive(DirectiveASTNode::Value { id, value }) = &ast[i] {
            if str_eq(target_id, id.as_str()) {
                return Some(value.clone());
            }
        }
        i = i + 1;
    }
    None
}

/// The value of the first pair `target = value` among `pairs`.
pub open spec fn pair_value(pairs: Seq<IdValuePair>, target: Seq<char>) -> Option<ConstValue>
    decreases pairs.len(),
{
    if pairs.len() == 0 {
        None
    } else if pairs[0].id@ == target {
        Some(pairs[0].value@)
    } else {
        pair_value(pairs.drop_first(), target)
    }
}

/// The value of the first pair `target_id = value` in a directive
/// `#[target_group(..)]`.
pub open spec fn directive_group_value(ast: Seq<ASTNode>, group: Seq<char>, target: Seq<char>) -> Option<ConstValue>
    decreases ast.len(),
{
    if ast.len() == 0 {
        None
    } else {
        match ast[0] {
            ASTNode::Directive(DirectiveASTNode::Group { group_id, values }) => {
                if group_id@ == group && pair_value(values@, target) is Some {
                    pair_value(values@, target)
                } else {
                    directive_group_value(ast.drop_first(), group, target)
                }
            },
            _ => directive_group_value(ast.drop_first(), group, target),
        }
    }
}

fn find_pair_value(values: &Vec<IdValuePair>, target_id: &str) -> (res: Option<ConstValueASTNode>)
    ensures
        match res {
            Some(v) => pair_value(values@, target_id@) == Some(v@),
            None => pair_value(values@, target_id@) is None,
        },
{
    let mut j: usize = 0;
    assert(values@.skip(0) =~= values@);
    while j < values.len()
        invariant
            j <= values@.len(),
            pair_value(values@, target_id@) == pair_value(values@.skip(j as int), target_id@),
        decreases values@.len() - j,
    {
        assert(values@.skip(j as int).drop_first() =~= values@.skip(j + 1));
        assert(values@.skip(j as int)[0] == values@[j as int]);
        if str_eq(values[j].id.as_str(), target_id) {
            return Some(values[j].value.clone());
        }
        j = j + 1;
    }
    None
}

pub fn find_directive_group_value(ast: &[ASTNode], target_group_id: &str, target_id: &str) -> (res: Option<ConstValueASTNode>)
    ensures
        match res {
            Some(v) => directive_group_value(ast@, target_group_id@, target_id@) == Some(v@),
            None => directive_group_value(ast@, target_group_id@, target_id@) is None,
        },
{
    let mut i: usize = 0;
    assert(ast@.skip(0) =~= ast@);
    while i < ast.len()
        invariant
            i <= ast@.len(),
            directive_group_value(ast@, target_group_id@, target_id@)
                == directive_group_value(ast@.skip(i as int), target_group_id@, target_id@),
        decreases ast@.len() - i,
    {
        assert(ast@.skip(i as int).drop_first() =~= ast@.skip(i + 1));
        assert(ast@.skip(i as int)[0] == ast@[i as int]);
        if let ASTNode::Directive(DirectiveASTNode::Group { group_id, values }) = &ast[i] {
            if str_eq(target_group_id, group_id.as_str()) {
                let found = find_pair_value(values, target_id);
                if found.is_some() {
                    return found;
                }
            }
        }
        i = i + 1;
    }
    None
}

/// The values of all pairs `target = value` among `pairs`, in their order.
pub open spec fn pair_values(pairs: Seq<IdValuePair>, target: Seq<char>) -> Seq<ConstValue>
    decreases pairs.len(),
{
    if pairs.len() == 0 {
        Seq::empty()
    } else {
        let rest = pair_values(pairs.drop_last(), target);
        if pairs.last().id@ == target {
            rest.push(pairs.last().value@)
        } else {
            rest
        }
    }
}

/// The values of all pairs `target = value` in directives `#[group(..)]`,
/// in their order.
pub open spec fn directive_group_values(ast: Seq<ASTNode>, group: Seq<char>, target: Seq<char>) -> Seq<ConstValue>
    decreases ast.len(),
{
    if ast.len() == 0 {
        Seq::empty()
    } else {
        let rest = directive_group_values(ast.drop_last(), group, target);
        match ast.last() {
            ASTNode::Directive(DirectiveASTNode::Group { group_id, values }) => {
                if group_id@ == group {
                    rest + pair_values(values@, target)
                } else {
                    rest
                }
            },
            _ => rest,
        }
    }
}

/// The values that a node contributes to `directive_group_values`.
pub open spec fn node_group_values(node: ASTNode, group: Seq<char>, target: Seq<char>) -> Seq<ConstValue> {
    match node {
        ASTNode::Directive(DirectiveASTNode::Group { group_id, values }) => {
            if group_id@ == group { pair_values(values@, target) } else { Seq::empty() }
        },
        _ => Seq::empty(),
    }
}

proof fn lemma_pair_values_prepend(pairs: Seq<IdValuePair>, target: Seq<char>)
    requires
        pairs.len() > 0,
    ensures
        pair_values(pairs, target) == (if pairs[0].id@ == target { seq![pairs[0].value@] } else { Seq::empty() })
            + pair_values(pairs.drop_first(), target),
    decreases pairs.len(),
{
    let head = if pairs[0].id@ == target { seq![pairs[0].value@] } else { Seq::<ConstValue>::empty() };
    if pairs.len() == 1 {
        assert(pairs.last() == pairs[0]);
        assert(pair_values(pairs.drop_first(), target) == Seq::<ConstValue>::empty());
        assert(pair_values(pairs.drop_last(), target) == Seq::<ConstValue>::empty());
        assert(pair_values(pairs, target) =~= head + pair_values(pairs.drop_first(), target));
    } else {
        lemma_pair_values_prepend(pairs.drop_last(), target);
        assert(pairs.drop_last().drop_first() =~= pairs.drop_first().drop_last());
        assert(pairs.drop_first().last() == pairs.last());
        assert(pairs.drop_last()[0] == pairs[0]);
        let rest = pair_values(pairs.drop_first().drop_last(), target);
        if pairs.last().id@ == target {
            assert(pair_values(pairs, target) =~= head + rest.push(pairs.last().value@));
        } else {
            assert(pair_values(pairs, target) =~= head + rest);
        }
    }
}

proof fn lemma_pair_value_first(pairs: Seq<IdValuePair>, target: Seq<char>)
    ensures
        pair_value(pairs, target) == (if pair_values(pairs, target).len() > 0 {
            Some(pair_values(pairs, target)[0])
        } else {
            None
        }),
    decreases pairs.len(),
{
    if pairs.len() > 0 {
        lemma_pair_values_prepend(pairs, target);
        lemma_pair_value_first(pairs.drop_first(), target);
    }
}

proof fn lemma_group_values_prepend(ast: Seq<ASTNode>, group: Seq<char>, target: Seq<char>)
    requires
        ast.len() > 0,
    ensures
        directive_group_values(ast, group, target)
            == node_group_values(ast[0], group, target) + directive_group_values(ast.drop_first(), group, target),
    decreases ast.len(),
{
    let head = node_group_values(ast[0], group, target);
    if ast.len() == 1 {
        assert(ast.last() == ast[0]);
        assert(directive_group_values(ast.drop_first(), group, target) == Seq::<ConstValue>::empty());
        assert(directive_group_values(ast.drop_last(), group, target) == Seq::<ConstValue>::empty());
        assert(directive_group_values(ast, group, target) =~= head + directive_group_values(ast.drop_first(), group, target));
    } else {
        lemma_group_values_prepend(ast.drop_last(), group, target);
        assert(ast.drop_last().drop_first() =~= ast.drop_first().drop_last());
        assert(ast.drop_first().last() == ast.last());
        assert(ast.drop_last()[0] == ast[0]);
        let rest = directive_group_values(ast.drop_first().drop_last(), group, target);
        assert(directive_group_values(ast, group, target)
            =~= head + (rest + node_group_values(ast.last(), group, target)));
        assert(directive_group_values(ast.drop_first(), group, target) =~= rest + node_group_values(ast.last(), group, target));
    }
}

/// The value that `find_directive_group_value` finds is the first of the
/// values that `find_directive_group_values` finds, and there is none
/// exactly where those values are none.
pub proof fn lemma_group_value_is_first(ast: Seq<ASTNode>, group: Seq<char>, target: Seq<char>)
    ensures
        directive_group_value(ast, group, target) == (if directive_group_values(ast, group, target).len() > 0 {
            Some(directive_group_values(ast, group, target)[0])
        } else {
            None
        }),
    decreases ast.len(),
{
    if ast.len() > 0 {
        lemma_group_values_prepend(ast, group, target);
        lemma_group_value_is_first(ast.drop_first(), group, target);
        if let ASTNode::Directive(DirectiveASTNode::Group { group_id, values }) = ast[0] {
            lemma_pair_value_first(values@, target);
        }
    }
}

pub open spec fn const_values_view(vs: Seq<ConstValueASTNode>) -> Seq<ConstValue> {
    Seq::new(vs.len(), |i: int| vs[i]@)
}

pub fn find_directive_group_values(ast: &[ASTNode], target_group_id: &str, target_id: &str) -> (res: Vec<ConstValueASTNode>)
    ensures
        const_values_view(res@) == directive_group_values(ast@, target_group_id@, target_id@),
{
    let mut res: Vec<ConstValueASTNode> = Vec::new();
    let mut i: usize = 0;
    while i < ast.len()
        invariant
            i <= ast@.len(),
            const_values_view(res@) == directive_group_values(ast@.take(i as int), target_group_id@, target_id@),
        decreases ast@.len() - i,
    {
        assert(ast@.take(i + 1).drop_last() =~= ast@.take(i as int));
        if let ASTNode::Directive(DirectiveASTNode::Group { group_id, values }) = &ast[i] {
            if str_eq(target_group_id, group_id.as_str()) {
                let ghost before = const_values_view(res@);
                let mut j: usize = 0;
                while j < values.len()
                    invariant
                        i < ast@.len(),
                        j <= values@.len(),
                        const_values_view(res@) == before + pair_values(values@.take(j as int), target_id@),
                    decreases values@.len() - j,
                {
                    assert(values@.take(j + 1).drop_last() =~= values@.take(j as int));
                    if str_eq(values[j].id.as_str(), target_id) {
                        let v = values[j].value.clone();
                        let ghost prev = res@;
                        res.push(v);
                        assert(const_values_view(res@) =~= const_values_view(prev).push(v@));
                    }
                    j = j + 1;
                }
                assert(values@.take(values@.len() as int) =~= values@);
            }
        }
        i = i + 1;
    }
    assert(ast@.take(ast@.len() as int) =~= ast@);
    res
}

} // verus!
