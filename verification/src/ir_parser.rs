//! Flattening: from the type tree of a local variable to the basic types
//! that it is made of.
//!
//! A derived type stands for what it is derived from: a chain of derived
//! types is followed down to the basic or composite type at its end. The
//! derived type directly above a basic type decides what the basic type
//! becomes: a pointer where the structural tag of that derived type is
//! the tag of pointers, else a plain
//! basic type that carries the name of that derived type. A composite type
//! becomes a group of what its elements become; enumerators and subranges
//! are left out. A chain that ends in a subroutine type cannot be
//! flattened.

use vstd::prelude::*;
use crate::ast::{
    BaseType, BasicTypeModel, CompositeTypeElements, CompositeTypeModel, DIBasicType,
    DICompositeType, DIDerivedType, DILocalVariable, DerivedTypeModel, LocalVariableModel,
    LocalVariableTypes, TypeNode, lemma_composite_elements,
};
use crate::structs::{Tag, clone_text, lemma_tag_names, tag_of_text, text_of};

verus! {

// ---------------------------------------------------------------------
// Leaves
// ---------------------------------------------------------------------

/// A basic type reached through a pointer.
#[derive(Debug, PartialEq, Eq)]
pub struct BasicPointerType {
    pub original: DIBasicType,
}

/// A basic type, with the name of the derived type that it was reached
/// through, if there was one and it had a name.
#[derive(Debug, PartialEq, Eq)]
pub struct BasicType {
    pub name_if_derived: Option<String>,
    pub original: DIBasicType,
}

/// What a type is made of.
#[derive(Debug, PartialEq, Eq)]
pub enum BasicTypeOrCompositeType {
    BasicType(BasicType),
    BasicPointerType(BasicPointerType),
    /// The identifier of a composite type, empty where it has none, and
    /// what its elements are made of.
    Composite(String, Vec<BasicTypeOrCompositeType>),
}

/// Why a type tree could not be flattened.
#[derive(Clone, Copy, Debug, PartialEq, Eq, Structural)]
pub enum FlattenError {
    /// A chain of derived types ends in a subroutine type.
    SubroutineType,
    /// A local variable must be made of one leaf; this many were found.
    LeafCount(usize),
}

/// The model of [`BasicPointerType`].
pub struct BasicPointerTypeModel {
    pub original: BasicTypeModel,
}

/// The model of [`BasicType`].
pub struct BasicLeafModel {
    pub name_if_derived: Option<Seq<char>>,
    pub original: BasicTypeModel,
}

/// The model of [`BasicTypeOrCompositeType`].
pub enum LeafNode {
    Basic(BasicLeafModel),
    Pointer(BasicPointerTypeModel),
    Composite(Seq<char>, Seq<LeafNode>),
}

impl View for BasicPointerType {
    type V = BasicPointerTypeModel;

    open spec fn view(&self) -> BasicPointerTypeModel {
        BasicPointerTypeModel { original: self.original@ }
    }
}

impl View for BasicType {
    type V = BasicLeafModel;

    open spec fn view(&self) -> BasicLeafModel {
        BasicLeafModel { name_if_derived: text_of(self.name_if_derived), original: self.original@ }
    }
}

/// The model of a leaf: a group holds the models of its leaves, in order.
pub open spec fn leaf_node(leaf: BasicTypeOrCompositeType) -> LeafNode
    decreases leaf,
{
    match leaf {
        BasicTypeOrCompositeType::BasicType(b) => LeafNode::Basic(b@),
        BasicTypeOrCompositeType::BasicPointerType(p) => LeafNode::Pointer(p@),
        BasicTypeOrCompositeType::Composite(name, children) => LeafNode::Composite(
            name@,
            Seq::new(
                children@.len(),
                |i: int|
                    if 0 <= i < children@.len() {
                        leaf_node(children@[i])
                    } else {
                        arbitrary()
                    },
            ),
        ),
    }
}

impl View for BasicTypeOrCompositeType {
    type V = LeafNode;

    open spec fn view(&self) -> LeafNode {
        leaf_node(*self)
    }
}

/// The models of a list of leaves, in the same order.
pub open spec fn leaf_nodes(leaves: Seq<BasicTypeOrCompositeType>) -> Seq<LeafNode> {
    Seq::new(leaves.len(), |i: int| leaves[i]@)
}

/// The model of a group is the group of the models.
pub proof fn lemma_composite_leaf(name: String, children: Vec<BasicTypeOrCompositeType>)
    ensures
        BasicTypeOrCompositeType::Composite(name, children)@ == LeafNode::Composite(
            name@,
            leaf_nodes(children@),
        ),
{
    assert(BasicTypeOrCompositeType::Composite(name, children)@->Composite_1 =~= leaf_nodes(
        children@,
    ));
}

impl Clone for BasicPointerType {
    fn clone(&self) -> (r: Self)
        ensures
            r == *self,
    {
        BasicPointerType { original: self.original.clone() }
    }
}

impl Clone for BasicType {
    fn clone(&self) -> (r: Self)
        ensures
            r == *self,
    {
        BasicType {
            name_if_derived: clone_text(&self.name_if_derived),
            original: self.original.clone(),
        }
    }
}

impl Clone for BasicTypeOrCompositeType {
    fn clone(&self) -> (r: Self)
        ensures
            r@ == self@,
        decreases *self,
    {
        match self {
            BasicTypeOrCompositeType::BasicType(b) => BasicTypeOrCompositeType::BasicType(
                b.clone(),
            ),
            BasicTypeOrCompositeType::BasicPointerType(
                p,
            ) => BasicTypeOrCompositeType::BasicPointerType(p.clone()),
            BasicTypeOrCompositeType::Composite(name, children) => {
                let mut copies: Vec<BasicTypeOrCompositeType> = Vec::new();
                let mut i: usize = 0;
                while i < children.len()
                    invariant
                        i <= children.len(),
                        copies@.len() == i,
                        decreases_to!(*self => *children),
                        forall|j: int| 0 <= j < i ==> (#[trigger] copies@[j])@ == children@[j]@,
                    decreases children.len() - i,
                {
                    copies.push(children[i].clone());
                    i += 1;
                }
                let name = name.clone();
                proof {
                    lemma_composite_leaf(name, copies);
                    lemma_composite_leaf(name, *children);
                    assert(leaf_nodes(copies@) =~= leaf_nodes(children@));
                }
                BasicTypeOrCompositeType::Composite(name, copies)
            },
        }
    }
}

// ---------------------------------------------------------------------
// What flattening gives
// ---------------------------------------------------------------------

/// Whether the `tag` of a derived type says that it is a pointer: whether
/// it stands for the structural tag of pointers.
pub open spec fn is_pointer(tag: Seq<char>) -> bool {
    tag_of_text(tag) == Some(Tag::TagPointerType)
}

/// The leaf that a basic type becomes directly below the derived type
/// `d`.
pub open spec fn basic_leaf_below(d: DerivedTypeModel, basic: BasicTypeModel) -> LeafNode {
    if is_pointer(d.tag) {
        LeafNode::Pointer(BasicPointerTypeModel { original: basic })
    } else {
        LeafNode::Basic(BasicLeafModel { name_if_derived: d.name, original: basic })
    }
}

/// The leaf that a derived type becomes, if it can be flattened.
pub open spec fn derived_leaf(d: DerivedTypeModel) -> Option<LeafNode>
    decreases d,
{
    match *d.base_type {
        TypeNode::Derived(inner) => derived_leaf(inner),
        TypeNode::Basic(basic) => Some(basic_leaf_below(d, basic)),
        TypeNode::Composite(c) => composite_leaf(c),
        _ => None,
    }
}

/// The name of the group that a composite type becomes.
pub open spec fn group_name(c: CompositeTypeModel) -> Seq<char> {
    match c.identifier {
        Some(identifier) => identifier,
        None => Seq::empty(),
    }
}

/// The leaf that a composite type becomes, if it can be flattened.
pub open spec fn composite_leaf(c: CompositeTypeModel) -> Option<LeafNode>
    decreases c, 0nat,
{
    match element_leaves(c.elements, c.elements.len()) {
        Some(children) => Some(LeafNode::Composite(group_name(c), children)),
        None => None,
    }
}

/// The leaves that the first `n` elements of a composite type become, in
/// the order of the elements: one for each derived or composite type, none
/// for the others. `None` where one of them cannot be flattened.
pub open spec fn element_leaves(elements: Seq<TypeNode>, n: nat) -> Option<Seq<LeafNode>>
    decreases elements, n,
{
    if n == 0 || n > elements.len() {
        Some(Seq::empty())
    } else {
        match element_leaves(elements, (n - 1) as nat) {
            None => None,
            Some(leaves) => match elements[n - 1] {
                TypeNode::Derived(d) => match derived_leaf(d) {
                    Some(leaf) => Some(leaves.push(leaf)),
                    None => None,
                },
                TypeNode::Composite(c) => match composite_leaf(c) {
                    Some(leaf) => Some(leaves.push(leaf)),
                    None => None,
                },
                _ => Some(leaves),
            },
        }
    }
}

/// The leaf that one element of a composite type becomes, where it is a
/// derived or a composite type that can be flattened.
pub open spec fn element_leaf(element: TypeNode) -> Option<LeafNode> {
    match element {
        TypeNode::Derived(d) => derived_leaf(d),
        TypeNode::Composite(c) => composite_leaf(c),
        _ => None,
    }
}

/// The leaf that a local variable becomes, if it can be flattened.
pub open spec fn local_variable_leaf(v: LocalVariableModel) -> Option<LeafNode> {
    match *v.ty {
        TypeNode::Derived(d) => derived_leaf(d),
        TypeNode::Basic(basic) => Some(
            LeafNode::Basic(BasicLeafModel { name_if_derived: None, original: basic }),
        ),
        TypeNode::Composite(c) => composite_leaf(c),
        _ => None,
    }
}

/// Where the first elements cannot be flattened, the whole list cannot.
pub proof fn lemma_element_leaves_prefix(elements: Seq<TypeNode>, i: nat, n: nat)
    requires
        i <= n <= elements.len(),
        element_leaves(elements, i) is None,
    ensures
        element_leaves(elements, n) is None,
    decreases n - i,
{
    if i < n {
        lemma_element_leaves_prefix(elements, i, (n - 1) as nat);
    }
}

// ---------------------------------------------------------------------
// Flattening
// ---------------------------------------------------------------------

/// Appends to `result` the leaf that the derived type `var` becomes.
/// Where `var` cannot be flattened, `result` is left as it was.
pub fn derived_type_unroll_into_basic_types(
    var: &DIDerivedType,
    result: &mut Vec<BasicTypeOrCompositeType>,
) -> (r: Result<(), FlattenError>)
    ensures
        match derived_leaf(var@) {
            Some(leaf) => r is Ok && final(result)@.len() == old(result)@.len() + 1 && leaf_nodes(
                final(result)@,
            ) == leaf_nodes(old(result)@).push(leaf),
            None => r == Err::<(), FlattenError>(FlattenError::SubroutineType) && final(result)@
                == old(result)@,
        },
    decreases *var, 0nat,
{
    match &*var.base_type {
        BaseType::DIDerivedType(derived) => derived_type_unroll_into_basic_types(derived, result),
        BaseType::DIBasicType(basic) => {
            let ghost before = leaf_nodes(result@);
            let pointer = match Tag::try_from(var.tag.as_str()) {
                Ok(Tag::TagPointerType) => true,
                _ => false,
            };
            let leaf = if pointer {
                BasicTypeOrCompositeType::BasicPointerType(
                    BasicPointerType { original: basic.clone() },
                )
            } else {
                BasicTypeOrCompositeType::BasicType(
                    BasicType { name_if_derived: clone_text(&var.name), original: basic.clone() },
                )
            };
            result.push(leaf);
            assert(leaf_nodes(result@) =~= before.push(leaf@));
            Ok(())
        },
        BaseType::DICompositeType(comp) => composite_type_unroll_into_basic_types(comp, result),
        BaseType::DISubroutineType(_) => Err(FlattenError::SubroutineType),
    }
}

/// Appends to `result` the group that the composite type `var` becomes.
/// Where `var` cannot be flattened, `result` is left as it was.
pub fn composite_type_unroll_into_basic_types(
    var: &DICompositeType,
    result: &mut Vec<BasicTypeOrCompositeType>,
) -> (r: Result<(), FlattenError>)
    ensures
        match composite_leaf(var@) {
            Some(leaf) => r is Ok && final(result)@.len() == old(result)@.len() + 1 && leaf_nodes(
                final(result)@,
            ) == leaf_nodes(old(result)@).push(leaf),
            None => r == Err::<(), FlattenError>(FlattenError::SubroutineType) && final(result)@
                == old(result)@,
        },
    decreases *var, 1nat,
{
    let ghost elements = var@.elements;
    proof {
        lemma_composite_elements(*var);
    }
    let mut new_vec: Vec<BasicTypeOrCompositeType> = Vec::new();
    let mut i: usize = 0;
    assert(leaf_nodes(new_vec@) =~= Seq::<LeafNode>::empty());
    while i < var.elements.len()
        invariant
            i <= var.elements.len(),
            elements == var@.elements,
            elements.len() == var.elements@.len(),
            forall|j: int| 0 <= j < elements.len() ==> elements[j] == (#[trigger] var.elements@[j])@,
            element_leaves(elements, i as nat) == Some(leaf_nodes(new_vec@)),
        decreases var.elements.len() - i,
    {
        assert(elements[i as int] == var.elements@[i as int]@);
        match &var.elements[i] {
            CompositeTypeElements::DIDerivedType(de) => {
                match derived_type_unroll_into_basic_types(de, &mut new_vec) {
                    Ok(()) => {},
                    Err(e) => {
                        proof {
                            lemma_element_leaves_prefix(
                                elements,
                                (i + 1) as nat,
                                elements.len(),
                            );
                        }
                        return Err(e);
                    },
                }
            },
            CompositeTypeElements::DICompositeType(comp) => {
                match composite_type_unroll_into_basic_types(comp, &mut new_vec) {
                    Ok(()) => {},
                    Err(e) => {
                        proof {
                            lemma_element_leaves_prefix(
                                elements,
                                (i + 1) as nat,
                                elements.len(),
                            );
                        }
                        return Err(e);
                    },
                }
            },
            CompositeTypeElements::DIEnumerator(_) => {},
            CompositeTypeElements::DISubrange(_) => {},
        }
        i += 1;
    }
    let name = match &var.identifier {
        Some(identifier) => identifier.clone(),
        None => String::new(),
    };
    let ghost before = leaf_nodes(result@);
    let new_curr = BasicTypeOrCompositeType::Composite(name, new_vec);
    proof {
        lemma_composite_leaf(name, new_vec);
    }
    result.push(new_curr);
    assert(leaf_nodes(result@) =~= before.push(new_curr@));
    Ok(())
}

/// Appends to `result` the leaf that the local variable `var` becomes: one
/// leaf, whatever its type is. Where the type cannot be flattened,
/// `result` is left as it was.
pub fn local_var_unroll_into_basic_types(
    var: &DILocalVariable,
    result: &mut Vec<BasicTypeOrCompositeType>,
) -> (r: Result<(), FlattenError>)
    ensures
        match local_variable_leaf(var@) {
            Some(leaf) => r is Ok && final(result)@.len() == old(result)@.len() + 1 && leaf_nodes(
                final(result)@,
            ) == leaf_nodes(old(result)@).push(leaf),
            None => r == Err::<(), FlattenError>(FlattenError::SubroutineType) && final(result)@
                == old(result)@,
        },
{
    match &var.ty {
        LocalVariableTypes::DIDerivedType(der_var) => derived_type_unroll_into_basic_types(
            der_var,
            result,
        ),
        LocalVariableTypes::DIBasicType(basic) => {
            let ghost before = leaf_nodes(result@);
            let leaf = BasicTypeOrCompositeType::BasicType(
                BasicType { name_if_derived: None, original: basic.clone() },
            );
            result.push(leaf);
            assert(leaf_nodes(result@) =~= before.push(leaf@));
            Ok(())
        },
        LocalVariableTypes::DICompositeType(comp) => composite_type_unroll_into_basic_types(
            comp,
            result,
        ),
    }
}

/// The one leaf of `leaves`. A local variable is made of one leaf: a list
/// that holds none, or more than one, is refused with its length.
pub fn single_leaf(mut leaves: Vec<BasicTypeOrCompositeType>) -> (r: Result<
    BasicTypeOrCompositeType,
    FlattenError,
>)
    ensures
        leaves@.len() == 1 ==> r is Ok && r->Ok_0 == leaves@[0],
        leaves@.len() != 1 ==> r == Err::<BasicTypeOrCompositeType, FlattenError>(
            FlattenError::LeafCount(leaves.len()),
        ),
{
    let count = leaves.len();
    if count != 1 {
        return Err(FlattenError::LeafCount(count));
    }
    match leaves.pop() {
        Some(leaf) => Ok(leaf),
        None => Err(FlattenError::LeafCount(count)),
    }
}

/// The leaf that the local variable `var` becomes.
pub fn local_var_basic_type(var: &DILocalVariable) -> (r: Result<
    BasicTypeOrCompositeType,
    FlattenError,
>)
    ensures
        match local_variable_leaf(var@) {
            Some(leaf) => r is Ok && r->Ok_0@ == leaf,
            None => r == Err::<BasicTypeOrCompositeType, FlattenError>(
                FlattenError::SubroutineType,
            ),
        },
{
    let mut result: Vec<BasicTypeOrCompositeType> = Vec::new();
    assert(leaf_nodes(result@) =~= Seq::<LeafNode>::empty());
    match local_var_unroll_into_basic_types(var, &mut result) {
        Ok(()) => {
            assert(leaf_nodes(result@).len() == 1);
            assert(leaf_nodes(result@)[0] == result@[0]@);
            single_leaf(result)
        },
        Err(e) => Err(e),
    }
}

// ---------------------------------------------------------------------
// Laws of flattening
// ---------------------------------------------------------------------

/// A pointer to a basic type becomes a pointer leaf, never a basic leaf.
pub proof fn lemma_pointer_to_basic(d: DerivedTypeModel)
    requires
        is_pointer(d.tag),
        *d.base_type is Basic,
    ensures
        derived_leaf(d) == Some(
            LeafNode::Pointer(BasicPointerTypeModel { original: (*d.base_type)->Basic_0 }),
        ),
{
}

/// A derived type with the tag `DW_TAG_pointer_type` is a pointer: directly
/// above a basic type it becomes a pointer leaf.
pub proof fn lemma_dwarf_pointer(d: DerivedTypeModel)
    requires
        d.tag == "DW_TAG_pointer_type"@,
        *d.base_type is Basic,
    ensures
        is_pointer(d.tag),
        derived_leaf(d) == Some(
            LeafNode::Pointer(BasicPointerTypeModel { original: (*d.base_type)->Basic_0 }),
        ),
{
    lemma_tag_names();
}

/// A derived type that is no pointer and stands directly above a basic
/// type becomes a basic leaf with the name of the derived type.
pub proof fn lemma_renamed_basic(d: DerivedTypeModel)
    requires
        !is_pointer(d.tag),
        *d.base_type is Basic,
    ensures
        derived_leaf(d) == Some(
            LeafNode::Basic(
                BasicLeafModel { name_if_derived: d.name, original: (*d.base_type)->Basic_0 },
            ),
        ),
{
}

/// What the first elements of a list become depends on those elements
/// alone.
pub proof fn lemma_element_leaves_of_prefix(a: Seq<TypeNode>, b: Seq<TypeNode>, n: nat)
    requires
        n <= a.len(),
        n <= b.len(),
        forall|i: int| 0 <= i < n ==> a[i] == b[i],
    ensures
        element_leaves(a, n) == element_leaves(b, n),
    decreases n,
{
    if n > 0 {
        lemma_element_leaves_of_prefix(a, b, (n - 1) as nat);
    }
}

/// An enumerator or a subrange among the elements of a composite type
/// changes nothing of what the elements become, wherever it stands.
pub proof fn lemma_dropped_element(elements: Seq<TypeNode>, k: int, extra: TypeNode, n: nat)
    requires
        0 <= k <= n <= elements.len(),
        extra is Enumerator || extra is Subrange,
    ensures
        element_leaves(elements.insert(k, extra), n + 1) == element_leaves(elements, n),
    decreases n,
{
    let longer = elements.insert(k, extra);
    if n == k {
        lemma_element_leaves_of_prefix(longer, elements, n);
        assert(longer[n as int] == extra);
    } else {
        lemma_dropped_element(elements, k, extra, (n - 1) as nat);
        assert(longer[n as int] == elements[n - 1]);
    }
}

/// A composite type with an enumerator or a subrange more among its
/// elements becomes the same group.
pub proof fn lemma_composite_drops(c: CompositeTypeModel, k: int, extra: TypeNode)
    requires
        0 <= k <= c.elements.len(),
        extra is Enumerator || extra is Subrange,
    ensures
        composite_leaf(CompositeTypeModel { elements: c.elements.insert(k, extra), ..c })
            == composite_leaf(c),
{
    lemma_dropped_element(c.elements, k, extra, c.elements.len());
}

/// The leaves of a group stand in the order of the elements that they
/// come from: where every one of the first `n` elements is a derived or a
/// composite type that can be flattened, there are `n` leaves, one for
/// each element.
pub proof fn lemma_element_leaves_in_order(elements: Seq<TypeNode>, n: nat)
    requires
        n <= elements.len(),
        forall|i: int| 0 <= i < n ==> element_leaf(#[trigger] elements[i]) is Some,
    ensures
        element_leaves(elements, n) is Some,
        element_leaves(elements, n)->Some_0.len() == n,
        forall|i: int|
            0 <= i < n ==> element_leaves(elements, n)->Some_0[i] == element_leaf(
                #[trigger] elements[i],
            )->Some_0,
    decreases n,
{
    if n > 0 {
        lemma_element_leaves_in_order(elements, (n - 1) as nat);
        assert(element_leaf(elements[n - 1]) is Some);
    }
}

} // verus!
