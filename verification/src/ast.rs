//! Resolved type trees: what the records describe once every reference
//! between them has been followed.

use vstd::prelude::*;
use crate::structs::{clone_text, text_of};

verus! {

// ---------------------------------------------------------------------
// The trees
// ---------------------------------------------------------------------

/// A scalar type: the leaf of every resolved type tree.
#[derive(Debug, PartialEq, Eq)]
pub struct DIBasicType {
    pub encoding: String,
    pub size: Option<String>,
    pub name: String,
}

/// A type derived from another one: a pointer, a member, a renaming.
#[derive(Debug, PartialEq, Eq)]
pub struct DIDerivedType {
    pub tag: String,
    pub align: String,
    pub dwarf_address_space: Option<String>,
    pub size: Option<String>,
    pub name: Option<String>,
    pub base_type: Box<BaseType>,
}

/// A structure, an array or another type made of several elements.
#[derive(Debug, PartialEq, Eq)]
pub struct DICompositeType {
    pub tag: String,
    pub identifier: Option<String>,
    pub elements: Vec<CompositeTypeElements>,
    pub vtable_holder: Option<String>,
    pub flags: Option<String>,
    pub name: Option<String>,
    pub file: Option<String>,
    pub align: String,
}

/// The type of a function. Its `types` stay a reference to another record.
#[derive(Debug, PartialEq, Eq)]
pub struct DISubroutineType {
    pub types: String,
}

/// A type parameter. Its `ty` stays a reference to another record.
#[derive(Debug, PartialEq, Eq)]
pub struct DITemplateTypeParameter {
    pub name: String,
    pub ty: String,
}

/// One named value of an enumeration.
#[derive(Debug, PartialEq, Eq)]
pub struct DIEnumerator {
    pub name: String,
    pub value: String,
}

/// The index range of an array.
#[derive(Debug, PartialEq, Eq)]
pub struct DISubrange {
    pub count: String,
    pub lower_bound: String,
}

/// A local variable, with its type resolved.
#[derive(Debug, PartialEq, Eq)]
pub struct DILocalVariable {
    pub file: String,
    pub name: Option<String>,
    pub arg: Option<String>,
    pub line: String,
    pub ty: LocalVariableTypes,
    pub scope: String,
}

/// What the type of a local variable may be.
#[derive(Debug, PartialEq, Eq)]
pub enum LocalVariableTypes {
    DIDerivedType(DIDerivedType),
    DIBasicType(DIBasicType),
    DICompositeType(DICompositeType),
}

/// What a derived type may be derived from.
#[derive(Debug, PartialEq, Eq)]
pub enum BaseType {
    DIDerivedType(DIDerivedType),
    DIBasicType(DIBasicType),
    DICompositeType(DICompositeType),
    DISubroutineType(DISubroutineType),
}

/// What a composite type may hold as an element.
#[derive(Debug, PartialEq, Eq)]
pub enum CompositeTypeElements {
    DIDerivedType(DIDerivedType),
    DICompositeType(DICompositeType),
    DIEnumerator(DIEnumerator),
    DISubrange(DISubrange),
}

/// A resolved record of any kind.
#[derive(Debug, PartialEq, Eq)]
pub enum TypeAST {
    DILocalVariable(DILocalVariable),
    DerivedType(DIDerivedType),
    DIBasicType(DIBasicType),
    DICompositeType(DICompositeType),
    DISubroutineType(DISubroutineType),
    DITemplateTypeParameter(DITemplateTypeParameter),
    DIEnumerator(DIEnumerator),
    DISubrange(DISubrange),
}

/// The kind of a resolved record.
#[derive(Clone, Copy, Debug, PartialEq, Eq, Structural)]
pub enum Kind {
    LocalVariable,
    DerivedType,
    BasicType,
    CompositeType,
    SubroutineType,
    TemplateTypeParameter,
    Enumerator,
    Subrange,
}

/// A place in a tree that admits only some kinds of node.
#[derive(Clone, Copy, Debug, PartialEq, Eq, Structural)]
pub enum Slot {
    /// The type of a local variable: derived, basic or composite.
    LocalVariableType,
    /// The base of a derived type: derived, basic, composite or subroutine.
    BaseType,
    /// An element of a composite type: derived, composite, enumerator or
    /// subrange.
    CompositeElement,
}

impl Slot {
    /// Whether a node of kind `kind` may stand in this place.
    pub open spec fn admits(self, kind: Kind) -> bool {
        match self {
            Slot::LocalVariableType => kind == Kind::DerivedType || kind == Kind::BasicType || kind
                == Kind::CompositeType,
            Slot::BaseType => kind == Kind::DerivedType || kind == Kind::BasicType || kind
                == Kind::CompositeType || kind == Kind::SubroutineType,
            Slot::CompositeElement => kind == Kind::DerivedType || kind == Kind::CompositeType
                || kind == Kind::Enumerator || kind == Kind::Subrange,
        }
    }
}

// ---------------------------------------------------------------------
// Their models
// ---------------------------------------------------------------------

/// The model of [`DIBasicType`].
pub struct BasicTypeModel {
    pub encoding: Seq<char>,
    pub size: Option<Seq<char>>,
    pub name: Seq<char>,
}

/// The model of [`DIDerivedType`].
pub struct DerivedTypeModel {
    pub tag: Seq<char>,
    pub align: Seq<char>,
    pub dwarf_address_space: Option<Seq<char>>,
    pub size: Option<Seq<char>>,
    pub name: Option<Seq<char>>,
    pub base_type: Box<TypeNode>,
}

/// The model of [`DICompositeType`].
pub struct CompositeTypeModel {
    pub tag: Seq<char>,
    pub identifier: Option<Seq<char>>,
    pub elements: Seq<TypeNode>,
    pub vtable_holder: Option<Seq<char>>,
    pub flags: Option<Seq<char>>,
    pub name: Option<Seq<char>>,
    pub file: Option<Seq<char>>,
    pub align: Seq<char>,
}

/// The model of [`DISubroutineType`].
pub struct SubroutineTypeModel {
    pub types: Seq<char>,
}

/// The model of [`DITemplateTypeParameter`].
pub struct TemplateTypeParameterModel {
    pub name: Seq<char>,
    pub ty: Seq<char>,
}

/// The model of [`DIEnumerator`].
pub struct EnumeratorModel {
    pub name: Seq<char>,
    pub value: Seq<char>,
}

/// The model of [`DISubrange`].
pub struct SubrangeModel {
    pub count: Seq<char>,
    pub lower_bound: Seq<char>,
}

/// The model of [`DILocalVariable`].
pub struct LocalVariableModel {
    pub file: Seq<char>,
    pub name: Option<Seq<char>>,
    pub arg: Option<Seq<char>>,
    pub line: Seq<char>,
    pub ty: Box<TypeNode>,
    pub scope: Seq<char>,
}

/// A node of a resolved tree. The four sum types of the trees all have
/// this model: they differ in the kinds of node that they admit.
pub enum TypeNode {
    LocalVariable(LocalVariableModel),
    Derived(DerivedTypeModel),
    Basic(BasicTypeModel),
    Composite(CompositeTypeModel),
    Subroutine(SubroutineTypeModel),
    TemplateTypeParameter(TemplateTypeParameterModel),
    Enumerator(EnumeratorModel),
    Subrange(SubrangeModel),
}

impl TypeNode {
    /// The kind of the node.
    pub open spec fn kind(self) -> Kind {
        match self {
            TypeNode::LocalVariable(_) => Kind::LocalVariable,
            TypeNode::Derived(_) => Kind::DerivedType,
            TypeNode::Basic(_) => Kind::BasicType,
            TypeNode::Composite(_) => Kind::CompositeType,
            TypeNode::Subroutine(_) => Kind::SubroutineType,
            TypeNode::TemplateTypeParameter(_) => Kind::TemplateTypeParameter,
            TypeNode::Enumerator(_) => Kind::Enumerator,
            TypeNode::Subrange(_) => Kind::Subrange,
        }
    }
}

/// The model of a derived type.
pub open spec fn derived_model(d: DIDerivedType) -> DerivedTypeModel
    decreases d,
{
    DerivedTypeModel {
        tag: d.tag@,
        align: d.align@,
        dwarf_address_space: text_of(d.dwarf_address_space),
        size: text_of(d.size),
        name: text_of(d.name),
        base_type: Box::new(base_node(*d.base_type)),
    }
}

/// The model of a composite type: its elements in their order.
pub open spec fn composite_model(c: DICompositeType) -> CompositeTypeModel
    decreases c,
{
    CompositeTypeModel {
        tag: c.tag@,
        identifier: text_of(c.identifier),
        elements: Seq::new(
            c.elements@.len(),
            |i: int|
                if 0 <= i < c.elements@.len() {
                    element_node(c.elements@[i])
                } else {
                    arbitrary()
                },
        ),
        vtable_holder: text_of(c.vtable_holder),
        flags: text_of(c.flags),
        name: text_of(c.name),
        file: text_of(c.file),
        align: c.align@,
    }
}

/// The model of the base of a derived type.
pub open spec fn base_node(b: BaseType) -> TypeNode
    decreases b,
{
    match b {
        BaseType::DIDerivedType(d) => TypeNode::Derived(derived_model(d)),
        BaseType::DIBasicType(t) => TypeNode::Basic(t@),
        BaseType::DICompositeType(c) => TypeNode::Composite(composite_model(c)),
        BaseType::DISubroutineType(s) => TypeNode::Subroutine(s@),
    }
}

/// The model of an element of a composite type.
pub open spec fn element_node(e: CompositeTypeElements) -> TypeNode
    decreases e,
{
    match e {
        CompositeTypeElements::DIDerivedType(d) => TypeNode::Derived(derived_model(d)),
        CompositeTypeElements::DICompositeType(c) => TypeNode::Composite(composite_model(c)),
        CompositeTypeElements::DIEnumerator(n) => TypeNode::Enumerator(n@),
        CompositeTypeElements::DISubrange(r) => TypeNode::Subrange(r@),
    }
}

/// The models of a list of elements, in the same order.
pub open spec fn element_nodes(elements: Seq<CompositeTypeElements>) -> Seq<TypeNode> {
    Seq::new(elements.len(), |i: int| elements[i]@)
}

impl View for DIBasicType {
    type V = BasicTypeModel;

    open spec fn view(&self) -> BasicTypeModel {
        BasicTypeModel { encoding: self.encoding@, size: text_of(self.size), name: self.name@ }
    }
}

impl View for DISubroutineType {
    type V = SubroutineTypeModel;

    open spec fn view(&self) -> SubroutineTypeModel {
        SubroutineTypeModel { types: self.types@ }
    }
}

impl View for DITemplateTypeParameter {
    type V = TemplateTypeParameterModel;

    open spec fn view(&self) -> TemplateTypeParameterModel {
        TemplateTypeParameterModel { name: self.name@, ty: self.ty@ }
    }
}

impl View for DIEnumerator {
    type V = EnumeratorModel;

    open spec fn view(&self) -> EnumeratorModel {
        EnumeratorModel { name: self.name@, value: self.value@ }
    }
}

impl View for DISubrange {
    type V = SubrangeModel;

    open spec fn view(&self) -> SubrangeModel {
        SubrangeModel { count: self.count@, lower_bound: self.lower_bound@ }
    }
}

impl View for DIDerivedType {
    type V = DerivedTypeModel;

    open spec fn view(&self) -> DerivedTypeModel {
        derived_model(*self)
    }
}

impl View for DICompositeType {
    type V = CompositeTypeModel;

    open spec fn view(&self) -> CompositeTypeModel {
        composite_model(*self)
    }
}

impl View for BaseType {
    type V = TypeNode;

    open spec fn view(&self) -> TypeNode {
        base_node(*self)
    }
}

impl View for CompositeTypeElements {
    type V = TypeNode;

    open spec fn view(&self) -> TypeNode {
        element_node(*self)
    }
}

impl View for LocalVariableTypes {
    type V = TypeNode;

    open spec fn view(&self) -> TypeNode {
        match *self {
            LocalVariableTypes::DIDerivedType(d) => TypeNode::Derived(d@),
            LocalVariableTypes::DIBasicType(t) => TypeNode::Basic(t@),
            LocalVariableTypes::DICompositeType(c) => TypeNode::Composite(c@),
        }
    }
}

impl View for DILocalVariable {
    type V = LocalVariableModel;

    open spec fn view(&self) -> LocalVariableModel {
        LocalVariableModel {
            file: self.file@,
            name: text_of(self.name),
            arg: text_of(self.arg),
            line: self.line@,
            ty: Box::new(self.ty@),
            scope: self.scope@,
        }
    }
}

impl View for TypeAST {
    type V = TypeNode;

    open spec fn view(&self) -> TypeNode {
        match *self {
            TypeAST::DILocalVariable(v) => TypeNode::LocalVariable(v@),
            TypeAST::DerivedType(d) => TypeNode::Derived(d@),
            TypeAST::DIBasicType(t) => TypeNode::Basic(t@),
            TypeAST::DICompositeType(c) => TypeNode::Composite(c@),
            TypeAST::DISubroutineType(s) => TypeNode::Subroutine(s@),
            TypeAST::DITemplateTypeParameter(p) => TypeNode::TemplateTypeParameter(p@),
            TypeAST::DIEnumerator(n) => TypeNode::Enumerator(n@),
            TypeAST::DISubrange(r) => TypeNode::Subrange(r@),
        }
    }
}

impl DeepView for TypeAST {
    type V = TypeNode;

    open spec fn deep_view(&self) -> TypeNode {
        self@
    }
}

/// The elements of a composite type have the models of the elements that
/// it holds.
pub proof fn lemma_composite_elements(c: DICompositeType)
    ensures
        c@.elements == element_nodes(c.elements@),
{
    assert(c@.elements =~= element_nodes(c.elements@));
}

// ---------------------------------------------------------------------
// Copies
// ---------------------------------------------------------------------

impl Clone for DIBasicType {
    fn clone(&self) -> (r: Self)
        ensures
            r == *self,
    {
        DIBasicType {
            encoding: self.encoding.clone(),
            size: clone_text(&self.size),
            name: self.name.clone(),
        }
    }
}

impl Clone for DISubroutineType {
    fn clone(&self) -> (r: Self)
        ensures
            r == *self,
    {
        DISubroutineType { types: self.types.clone() }
    }
}

impl Clone for DITemplateTypeParameter {
    fn clone(&self) -> (r: Self)
        ensures
            r == *self,
    {
        DITemplateTypeParameter { name: self.name.clone(), ty: self.ty.clone() }
    }
}

impl Clone for DIEnumerator {
    fn clone(&self) -> (r: Self)
        ensures
            r == *self,
    {
        DIEnumerator { name: self.name.clone(), value: self.value.clone() }
    }
}

impl Clone for DISubrange {
    fn clone(&self) -> (r: Self)
        ensures
            r == *self,
    {
        DISubrange { count: self.count.clone(), lower_bound: self.lower_bound.clone() }
    }
}

impl Clone for DIDerivedType {
    fn clone(&self) -> (r: Self)
        ensures
            r@ == self@,
        decreases *self,
    {
        DIDerivedType {
            tag: self.tag.clone(),
            align: self.align.clone(),
            dwarf_address_space: clone_text(&self.dwarf_address_space),
            size: clone_text(&self.size),
            name: clone_text(&self.name),
            base_type: Box::new((*self.base_type).clone()),
        }
    }
}

impl Clone for BaseType {
    fn clone(&self) -> (r: Self)
        ensures
            r@ == self@,
        decreases *self,
    {
        match self {
            BaseType::DIDerivedType(d) => BaseType::DIDerivedType(d.clone()),
            BaseType::DIBasicType(t) => BaseType::DIBasicType(t.clone()),
            BaseType::DICompositeType(c) => BaseType::DICompositeType(c.clone()),
            BaseType::DISubroutineType(s) => BaseType::DISubroutineType(s.clone()),
        }
    }
}

impl Clone for CompositeTypeElements {
    fn clone(&self) -> (r: Self)
        ensures
            r@ == self@,
        decreases *self,
    {
        match self {
            CompositeTypeElements::DIDerivedType(d) => CompositeTypeElements::DIDerivedType(
                d.clone(),
            ),
            CompositeTypeElements::DICompositeType(c) => CompositeTypeElements::DICompositeType(
                c.clone(),
            ),
            CompositeTypeElements::DIEnumerator(n) => CompositeTypeElements::DIEnumerator(
                n.clone(),
            ),
            CompositeTypeElements::DISubrange(s) => CompositeTypeElements::DISubrange(s.clone()),
        }
    }
}

impl Clone for DICompositeType {
    fn clone(&self) -> (r: Self)
        ensures
            r@ == self@,
        decreases *self,
    {
        let mut elements: Vec<CompositeTypeElements> = Vec::new();
        let mut i: usize = 0;
        while i < self.elements.len()
            invariant
                i <= self.elements.len(),
                elements@.len() == i,
                forall|j: int| 0 <= j < i ==> (#[trigger] elements@[j])@ == self.elements@[j]@,
            decreases self.elements.len() - i,
        {
            elements.push(self.elements[i].clone());
            i += 1;
        }
        let r = DICompositeType {
            tag: self.tag.clone(),
            identifier: clone_text(&self.identifier),
            elements,
            vtable_holder: clone_text(&self.vtable_holder),
            flags: clone_text(&self.flags),
            name: clone_text(&self.name),
            file: clone_text(&self.file),
            align: self.align.clone(),
        };
        assert(r@.elements =~= self@.elements);
        r
    }
}

impl Clone for LocalVariableTypes {
    fn clone(&self) -> (r: Self)
        ensures
            r@ == self@,
    {
        match self {
            LocalVariableTypes::DIDerivedType(d) => LocalVariableTypes::DIDerivedType(d.clone()),
            LocalVariableTypes::DIBasicType(t) => LocalVariableTypes::DIBasicType(t.clone()),
            LocalVariableTypes::DICompositeType(c) => LocalVariableTypes::DICompositeType(
                c.clone(),
            ),
        }
    }
}

impl Clone for DILocalVariable {
    fn clone(&self) -> (r: Self)
        ensures
            r@ == self@,
    {
        DILocalVariable {
            file: self.file.clone(),
            name: clone_text(&self.name),
            arg: clone_text(&self.arg),
            line: self.line.clone(),
            ty: self.ty.clone(),
            scope: self.scope.clone(),
        }
    }
}

impl Clone for TypeAST {
    fn clone(&self) -> (r: Self)
        ensures
            r@ == self@,
    {
        match self {
            TypeAST::DILocalVariable(v) => TypeAST::DILocalVariable(v.clone()),
            TypeAST::DerivedType(d) => TypeAST::DerivedType(d.clone()),
            TypeAST::DIBasicType(t) => TypeAST::DIBasicType(t.clone()),
            TypeAST::DICompositeType(c) => TypeAST::DICompositeType(c.clone()),
            TypeAST::DISubroutineType(s) => TypeAST::DISubroutineType(s.clone()),
            TypeAST::DITemplateTypeParameter(p) => TypeAST::DITemplateTypeParameter(p.clone()),
            TypeAST::DIEnumerator(n) => TypeAST::DIEnumerator(n.clone()),
            TypeAST::DISubrange(r) => TypeAST::DISubrange(r.clone()),
        }
    }
}

} // verus!
