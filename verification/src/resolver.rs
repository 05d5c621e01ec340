//! Resolution: from one record, and the records that it refers to, to a
//! type tree.
//!
//! A record refers to others by their location tags: a local variable by
//! its `type`, a derived type by its `baseType`, a composite type by its
//! `elements`, which names a list of tags. Resolution follows these
//! references and never remembers where it has been: on records that refer
//! to each other in a circle it would not end. [`resolve`] therefore counts
//! the depth that it may still descend, and the outcome of a resolution is
//! what `resolve` gives at any depth that suffices.

use vstd::prelude::*;
use crate::ast::{
    BaseType, CompositeTypeElements, DIBasicType, DICompositeType, DIDerivedType, DIEnumerator,
    DILocalVariable, DISubrange, DISubroutineType, DITemplateTypeParameter, Kind,
    LocalVariableModel, LocalVariableTypes, Slot, TypeAST, TypeNode, BasicTypeModel,
    CompositeTypeModel, DerivedTypeModel, EnumeratorModel, SubrangeModel, SubroutineTypeModel,
    TemplateTypeParameterModel, element_nodes, lemma_composite_elements,
};
use crate::structs::{
    LLVMDebugTypeInformation, RecordModel, Variant, record_models, text_of, variant_of_text,
};
use crate::table::TextMap;
use crate::text::str_eq;

verus! {

// ---------------------------------------------------------------------
// Failures
// ---------------------------------------------------------------------

/// Why a record could not be resolved.
#[derive(Debug, PartialEq, Eq)]
pub enum ResolveError {
    /// The record with the first location tag lacks the parameter with the
    /// second name.
    MissingField(String, String),
    /// No record has this location tag, or no list of tags where a
    /// composite type names its elements.
    UnresolvedTag(String),
    /// A reference led to a node of a kind that its place does not admit.
    UnexpectedKind(Slot, Kind),
    /// The variant name of the record stands for no variant.
    UnknownVariant(String),
    /// Records of this variant are not resolved.
    UnsupportedVariant(Variant),
}

/// The model of [`ResolveError`].
pub enum ResolveErrorModel {
    MissingField(Seq<char>, Seq<char>),
    UnresolvedTag(Seq<char>),
    UnexpectedKind(Slot, Kind),
    UnknownVariant(Seq<char>),
    UnsupportedVariant(Variant),
}

impl View for ResolveError {
    type V = ResolveErrorModel;

    open spec fn view(&self) -> ResolveErrorModel {
        match *self {
            ResolveError::MissingField(tag, field) => ResolveErrorModel::MissingField(tag@, field@),
            ResolveError::UnresolvedTag(tag) => ResolveErrorModel::UnresolvedTag(tag@),
            ResolveError::UnexpectedKind(slot, kind) => ResolveErrorModel::UnexpectedKind(
                slot,
                kind,
            ),
            ResolveError::UnknownVariant(name) => ResolveErrorModel::UnknownVariant(name@),
            ResolveError::UnsupportedVariant(v) => ResolveErrorModel::UnsupportedVariant(v),
        }
    }
}

impl Clone for ResolveError {
    fn clone(&self) -> (r: Self)
        ensures
            r == *self,
    {
        match self {
            ResolveError::MissingField(tag, field) => ResolveError::MissingField(
                tag.clone(),
                field.clone(),
            ),
            ResolveError::UnresolvedTag(tag) => ResolveError::UnresolvedTag(tag.clone()),
            ResolveError::UnexpectedKind(slot, kind) => ResolveError::UnexpectedKind(*slot, *kind),
            ResolveError::UnknownVariant(name) => ResolveError::UnknownVariant(name.clone()),
            ResolveError::UnsupportedVariant(v) => ResolveError::UnsupportedVariant(*v),
        }
    }
}

/// How a resolution ends: with a tree or with a failure.
pub type Resolution = Result<TypeNode, ResolveErrorModel>;

/// The model of what the resolving functions return.
pub open spec fn resolution_of(r: Result<TypeAST, ResolveError>) -> Resolution {
    match r {
        Ok(t) => Ok(t@),
        Err(e) => Err(e@),
    }
}

/// The model of what the depth-limited resolving functions return.
pub open spec fn outcome_of(r: Option<Result<TypeAST, ResolveError>>) -> Option<Resolution> {
    match r {
        Some(t) => Some(resolution_of(t)),
        None => None,
    }
}

// ---------------------------------------------------------------------
// Looking a record up
// ---------------------------------------------------------------------

/// `i` is the place of the first record with the location tag `tag`.
pub open spec fn is_first_with_tag(tag: Seq<char>, records: Seq<RecordModel>, i: int) -> bool {
    &&& 0 <= i < records.len()
    &&& records[i].location_tag == tag
    &&& forall|j: int| 0 <= j < i ==> (#[trigger] records[j]).location_tag != tag
}

/// The first record with the location tag `tag`, if there is one.
pub open spec fn find_record(tag: Seq<char>, records: Seq<RecordModel>) -> Option<RecordModel> {
    if exists|i: int| is_first_with_tag(tag, records, i) {
        Some(records[choose|i: int| is_first_with_tag(tag, records, i)])
    } else {
        None
    }
}

/// There is one first record with a tag at most.
pub proof fn lemma_first_with_tag(tag: Seq<char>, records: Seq<RecordModel>, i: int)
    requires
        is_first_with_tag(tag, records, i),
    ensures
        find_record(tag, records) == Some(records[i]),
{
    let c = choose|c: int| is_first_with_tag(tag, records, c);
    if c < i {
        assert(records[c].location_tag != tag);
    } else if i < c {
        assert(records[i].location_tag != tag);
    }
}

/// A tag that no record has finds nothing.
pub proof fn lemma_no_record_with_tag(tag: Seq<char>, records: Seq<RecordModel>)
    requires
        forall|j: int| 0 <= j < records.len() ==> (#[trigger] records[j]).location_tag != tag,
    ensures
        find_record(tag, records) is None,
{
}

fn find_record_ref<'a>(tag: &str, records: &'a [LLVMDebugTypeInformation]) -> (r: Option<
    &'a LLVMDebugTypeInformation,
>)
    ensures
        match r {
            Some(rec) => find_record(tag@, record_models(records@)) == Some(rec@),
            None => find_record(tag@, record_models(records@)) is None,
        },
{
    let mut i: usize = 0;
    while i < records.len()
        invariant
            i <= records.len(),
            forall|j: int| 0 <= j < i ==> (#[trigger] record_models(records@)[j]).location_tag != tag@,
        decreases records.len() - i,
    {
        if str_eq(records[i].location_tag.as_str(), tag) {
            proof {
                lemma_first_with_tag(tag@, record_models(records@), i as int);
            }
            return Some(&records[i]);
        }
        i += 1;
    }
    None
}

/// The first record of `metadata_vec` whose location tag is `tag`.
pub fn get_rust_debug_metadata(tag: &str, metadata_vec: &[LLVMDebugTypeInformation]) -> (r: Option<
    LLVMDebugTypeInformation,
>)
    ensures
        match r {
            Some(rec) => find_record(tag@, record_models(metadata_vec@)) == Some(rec@),
            None => find_record(tag@, record_models(metadata_vec@)) is None,
        },
{
    match find_record_ref(tag, metadata_vec) {
        Some(rec) => Some(rec.clone()),
        None => None,
    }
}

// ---------------------------------------------------------------------
// What resolution gives
// ---------------------------------------------------------------------

/// The failure of a record that lacks a parameter.
pub open spec fn missing(rec: RecordModel, field: Seq<char>) -> ResolveErrorModel {
    ResolveErrorModel::MissingField(rec.location_tag, field)
}

/// A parameter that a record may lack.
pub open spec fn optional(rec: RecordModel, field: Seq<char>) -> Option<Seq<char>> {
    if rec.parameters.contains_key(field) {
        Some(rec.parameters[field])
    } else {
        None
    }
}

/// A resolved node in a place that admits only some kinds: the node
/// where it is admitted, else a failure that names the place and the kind.
pub open spec fn narrowed(slot: Slot, node: TypeNode) -> Resolution {
    if slot.admits(node.kind()) {
        Ok(node)
    } else {
        Err(ResolveErrorModel::UnexpectedKind(slot, node.kind()))
    }
}

/// A local variable from its record and the outcome for its type.
pub open spec fn local_variable_from(rec: RecordModel, ty: Option<Resolution>) -> Option<
    Resolution,
> {
    match ty {
        None => None,
        Some(Err(e)) => Some(Err(e)),
        Some(Ok(node)) => Some(
            if !Slot::LocalVariableType.admits(node.kind()) {
                narrowed(Slot::LocalVariableType, node)
            } else if !rec.parameters.contains_key("file"@) {
                Err(missing(rec, "file"@))
            } else if !rec.parameters.contains_key("line"@) {
                Err(missing(rec, "line"@))
            } else if !rec.parameters.contains_key("scope"@) {
                Err(missing(rec, "scope"@))
            } else {
                Ok(
                    TypeNode::LocalVariable(
                        LocalVariableModel {
                            file: rec.parameters["file"@],
                            name: optional(rec, "name"@),
                            arg: optional(rec, "arg"@),
                            line: rec.parameters["line"@],
                            ty: Box::new(node),
                            scope: rec.parameters["scope"@],
                        },
                    ),
                )
            },
        ),
    }
}

/// A derived type from its record and the outcome for its base type.
pub open spec fn derived_from(rec: RecordModel, base: Option<Resolution>) -> Option<Resolution> {
    match base {
        None => None,
        Some(Err(e)) => Some(Err(e)),
        Some(Ok(node)) => Some(
            if !Slot::BaseType.admits(node.kind()) {
                narrowed(Slot::BaseType, node)
            } else {
                Ok(
                    TypeNode::Derived(
                        DerivedTypeModel {
                            tag: rec.parameters["tag"@],
                            align: rec.parameters["align"@],
                            dwarf_address_space: optional(rec, "dwarfAddressSpace"@),
                            size: optional(rec, "size"@),
                            name: optional(rec, "name"@),
                            base_type: Box::new(node),
                        },
                    ),
                )
            },
        ),
    }
}

/// A composite type from its record and the outcome for its elements.
pub open spec fn composite_from(
    rec: RecordModel,
    elements: Option<Result<Seq<TypeNode>, ResolveErrorModel>>,
) -> Option<Resolution> {
    match elements {
        None => None,
        Some(Err(e)) => Some(Err(e)),
        Some(Ok(nodes)) => Some(
            if !rec.parameters.contains_key("tag"@) {
                Err(missing(rec, "tag"@))
            } else if !rec.parameters.contains_key("align"@) {
                Err(missing(rec, "align"@))
            } else {
                Ok(
                    TypeNode::Composite(
                        CompositeTypeModel {
                            tag: rec.parameters["tag"@],
                            identifier: optional(rec, "identifier"@),
                            elements: nodes,
                            vtable_holder: optional(rec, "vtableHolder"@),
                            flags: optional(rec, "flags"@),
                            name: optional(rec, "name"@),
                            file: optional(rec, "file"@),
                            align: rec.parameters["align"@],
                        },
                    ),
                )
            },
        ),
    }
}

/// What a record without references resolves to: a basic type, a
/// subroutine type, a template type parameter, an enumerator or a
/// subrange. Each needs its parameters, and fails at the first that the
/// record lacks.
pub open spec fn resolve_leaf(rec: RecordModel, variant: Variant) -> Resolution {
    let p = rec.parameters;
    match variant {
        Variant::BasicType => if !p.contains_key("encoding"@) {
            Err(missing(rec, "encoding"@))
        } else if !p.contains_key("name"@) {
            Err(missing(rec, "name"@))
        } else {
            Ok(
                TypeNode::Basic(
                    BasicTypeModel {
                        encoding: p["encoding"@],
                        size: optional(rec, "size"@),
                        name: p["name"@],
                    },
                ),
            )
        },
        Variant::DISubroutineType => if !p.contains_key("types"@) {
            Err(missing(rec, "types"@))
        } else {
            Ok(TypeNode::Subroutine(SubroutineTypeModel { types: p["types"@] }))
        },
        Variant::TemplateTypeParameter => if !p.contains_key("name"@) {
            Err(missing(rec, "name"@))
        } else if !p.contains_key("type"@) {
            Err(missing(rec, "type"@))
        } else {
            Ok(
                TypeNode::TemplateTypeParameter(
                    TemplateTypeParameterModel { name: p["name"@], ty: p["type"@] },
                ),
            )
        },
        Variant::Enumerator => if !p.contains_key("name"@) {
            Err(missing(rec, "name"@))
        } else if !p.contains_key("value"@) {
            Err(missing(rec, "value"@))
        } else {
            Ok(TypeNode::Enumerator(EnumeratorModel { name: p["name"@], value: p["value"@] }))
        },
        Variant::DISubrange => if !p.contains_key("count"@) {
            Err(missing(rec, "count"@))
        } else if !p.contains_key("lowerBound"@) {
            Err(missing(rec, "lowerBound"@))
        } else {
            Ok(
                TypeNode::Subrange(
                    SubrangeModel { count: p["count"@], lower_bound: p["lowerBound"@] },
                ),
            )
        },
        _ => Err(ResolveErrorModel::UnsupportedVariant(variant)),
    }
}

/// What the record `rec` resolves to when at most `depth` records may
/// stand above each other on any path of the tree, `rec` included: `None`
/// where that depth does not suffice.
///
/// - A name that stands for no variant fails as an unknown variant.
/// - A local variable needs `type`; the record with that tag is resolved
///   and must be a derived, basic or composite type; then `file`, `line`
///   and `scope` are needed.
/// - A derived type needs `baseType`, a record with that tag, `tag` and
///   `align`; then that record is resolved and must be a derived, basic,
///   composite or subroutine type.
/// - A composite type needs `elements`, whose value must name a list of
///   tags; each tag of the list is resolved in turn and must be a derived
///   type, a composite type, an enumerator or a subrange; then `tag` and
///   `align` are needed.
/// - The other variants refer to nothing: see [`resolve_leaf`].
///
/// The first failure met in this order is the outcome.
pub open spec fn resolve(
    rec: RecordModel,
    records: Seq<RecordModel>,
    tags: Map<Seq<char>, Seq<Seq<char>>>,
    depth: nat,
) -> Option<Resolution>
    decreases depth, 1nat,
{
    let p = rec.parameters;
    if depth == 0 {
        None
    } else {
        match variant_of_text(rec.variant) {
            None => Some(Err(ResolveErrorModel::UnknownVariant(rec.variant))),
            Some(Variant::LocalVariable) => if !p.contains_key("type"@) {
                Some(Err(missing(rec, "type"@)))
            } else {
                local_variable_from(
                    rec,
                    resolve_reference(p["type"@], records, tags, (depth - 1) as nat),
                )
            },
            Some(Variant::DerivedType) => if !p.contains_key("baseType"@) {
                Some(Err(missing(rec, "baseType"@)))
            } else if find_record(p["baseType"@], records) is None {
                Some(Err(ResolveErrorModel::UnresolvedTag(p["baseType"@])))
            } else if !p.contains_key("tag"@) {
                Some(Err(missing(rec, "tag"@)))
            } else if !p.contains_key("align"@) {
                Some(Err(missing(rec, "align"@)))
            } else {
                derived_from(
                    rec,
                    resolve_reference(p["baseType"@], records, tags, (depth - 1) as nat),
                )
            },
            Some(Variant::CompositeType) => if !p.contains_key("elements"@) {
                Some(Err(missing(rec, "elements"@)))
            } else if !tags.contains_key(p["elements"@]) {
                Some(Err(ResolveErrorModel::UnresolvedTag(p["elements"@])))
            } else {
                composite_from(
                    rec,
                    resolve_elements(
                        tags[p["elements"@]],
                        tags[p["elements"@]].len(),
                        records,
                        tags,
                        (depth - 1) as nat,
                    ),
                )
            },
            Some(v) => Some(resolve_leaf(rec, v)),
        }
    }
}

/// What the record with the location tag `tag` resolves to within
/// `depth`. A tag that no record has is a failure.
pub open spec fn resolve_reference(
    tag: Seq<char>,
    records: Seq<RecordModel>,
    tags: Map<Seq<char>, Seq<Seq<char>>>,
    depth: nat,
) -> Option<Resolution>
    decreases depth, 2nat,
{
    match find_record(tag, records) {
        None => Some(Err(ResolveErrorModel::UnresolvedTag(tag))),
        Some(child) => resolve(child, records, tags, depth),
    }
}

/// What the first `n` tags of `elements` resolve to within `depth`, as
/// elements of a composite type: the nodes in the order of the tags, or
/// the first failure.
pub open spec fn resolve_elements(
    elements: Seq<Seq<char>>,
    n: nat,
    records: Seq<RecordModel>,
    tags: Map<Seq<char>, Seq<Seq<char>>>,
    depth: nat,
) -> Option<Result<Seq<TypeNode>, ResolveErrorModel>>
    decreases depth, 3 + n,
{
    if n == 0 {
        Some(Ok(Seq::empty()))
    } else {
        match resolve_elements(elements, (n - 1) as nat, records, tags, depth) {
            None => None,
            Some(Err(e)) => Some(Err(e)),
            Some(Ok(nodes)) => match resolve_reference(elements[n - 1], records, tags, depth) {
                None => None,
                Some(Err(e)) => Some(Err(e)),
                Some(Ok(node)) => match narrowed(Slot::CompositeElement, node) {
                    Err(e) => Some(Err(e)),
                    Ok(node) => Some(Ok(nodes.push(node))),
                },
            },
        }
    }
}

/// Resolution of `rec` ends: some depth suffices.
pub open spec fn resolution_ends(
    rec: RecordModel,
    records: Seq<RecordModel>,
    tags: Map<Seq<char>, Seq<Seq<char>>>,
) -> bool {
    exists|depth: nat| resolve(rec, records, tags, depth) is Some
}

/// A depth that suffices to resolve `rec`, where resolution ends.
pub open spec fn sufficient_depth(
    rec: RecordModel,
    records: Seq<RecordModel>,
    tags: Map<Seq<char>, Seq<Seq<char>>>,
) -> nat {
    choose|depth: nat| resolve(rec, records, tags, depth) is Some
}

/// What `rec` resolves to, where resolution ends.
pub open spec fn resolution(
    rec: RecordModel,
    records: Seq<RecordModel>,
    tags: Map<Seq<char>, Seq<Seq<char>>>,
) -> Resolution {
    resolve(rec, records, tags, sufficient_depth(rec, records, tags))->Some_0
}

// ---------------------------------------------------------------------
// Resolving
// ---------------------------------------------------------------------

impl TypeAST {
    /// The kind of the record that was resolved.
    pub fn kind(&self) -> (r: Kind)
        ensures
            r == self@.kind(),
    {
        match self {
            TypeAST::DILocalVariable(_) => Kind::LocalVariable,
            TypeAST::DerivedType(_) => Kind::DerivedType,
            TypeAST::DIBasicType(_) => Kind::BasicType,
            TypeAST::DICompositeType(_) => Kind::CompositeType,
            TypeAST::DISubroutineType(_) => Kind::SubroutineType,
            TypeAST::DITemplateTypeParameter(_) => Kind::TemplateTypeParameter,
            TypeAST::DIEnumerator(_) => Kind::Enumerator,
            TypeAST::DISubrange(_) => Kind::Subrange,
        }
    }
}

impl LocalVariableTypes {
    /// A resolved record as the type of a local variable: a derived, basic
    /// or composite type is kept, any other kind is a failure.
    pub fn try_from(ast_type: TypeAST) -> (r: Result<LocalVariableTypes, ResolveError>)
        ensures
            match r {
                Ok(t) => narrowed(Slot::LocalVariableType, ast_type@) == Ok::<
                    TypeNode,
                    ResolveErrorModel,
                >(t@),
                Err(e) => narrowed(Slot::LocalVariableType, ast_type@) == Err::<
                    TypeNode,
                    ResolveErrorModel,
                >(e@),
            },
    {
        let kind = ast_type.kind();
        match ast_type {
            TypeAST::DerivedType(t) => Ok(LocalVariableTypes::DIDerivedType(t)),
            TypeAST::DIBasicType(t) => Ok(LocalVariableTypes::DIBasicType(t)),
            TypeAST::DICompositeType(t) => Ok(LocalVariableTypes::DICompositeType(t)),
            _ => Err(ResolveError::UnexpectedKind(Slot::LocalVariableType, kind)),
        }
    }
}

impl BaseType {
    /// A resolved record as the base of a derived type: a derived, basic,
    /// composite or subroutine type is kept, any other kind is a failure.
    pub fn try_from(ast_type: TypeAST) -> (r: Result<BaseType, ResolveError>)
        ensures
            match r {
                Ok(t) => narrowed(Slot::BaseType, ast_type@) == Ok::<TypeNode, ResolveErrorModel>(
                    t@,
                ),
                Err(e) => narrowed(Slot::BaseType, ast_type@) == Err::<
                    TypeNode,
                    ResolveErrorModel,
                >(e@),
            },
    {
        let kind = ast_type.kind();
        match ast_type {
            TypeAST::DerivedType(t) => Ok(BaseType::DIDerivedType(t)),
            TypeAST::DIBasicType(t) => Ok(BaseType::DIBasicType(t)),
            TypeAST::DICompositeType(t) => Ok(BaseType::DICompositeType(t)),
            TypeAST::DISubroutineType(t) => Ok(BaseType::DISubroutineType(t)),
            _ => Err(ResolveError::UnexpectedKind(Slot::BaseType, kind)),
        }
    }
}

impl CompositeTypeElements {
    /// A resolved record as an element of a composite type: a derived
    /// type, a composite type, an enumerator or a subrange is kept, any
    /// other kind is a failure.
    pub fn try_from(ast_type: TypeAST) -> (r: Result<CompositeTypeElements, ResolveError>)
        ensures
            match r {
                Ok(t) => narrowed(Slot::CompositeElement, ast_type@) == Ok::<
                    TypeNode,
                    ResolveErrorModel,
                >(t@),
                Err(e) => narrowed(Slot::CompositeElement, ast_type@) == Err::<
                    TypeNode,
                    ResolveErrorModel,
                >(e@),
            },
    {
        let kind = ast_type.kind();
        match ast_type {
            TypeAST::DerivedType(t) => Ok(CompositeTypeElements::DIDerivedType(t)),
            TypeAST::DICompositeType(t) => Ok(CompositeTypeElements::DICompositeType(t)),
            TypeAST::DIEnumerator(t) => Ok(CompositeTypeElements::DIEnumerator(t)),
            TypeAST::DISubrange(t) => Ok(CompositeTypeElements::DISubrange(t)),
            _ => Err(ResolveError::UnexpectedKind(Slot::CompositeElement, kind)),
        }
    }
}

/// A parameter that the record must have.
fn required(rec: &LLVMDebugTypeInformation, field: &str) -> (r: Result<String, ResolveError>)
    ensures
        match r {
            Ok(v) => rec@.parameters.contains_key(field@) && v@ == rec@.parameters[field@],
            Err(e) => !rec@.parameters.contains_key(field@) && e@ == missing(rec@, field@),
        },
{
    match rec.parameters.get(field) {
        Some(v) => Ok(v.clone()),
        None => Err(ResolveError::MissingField(rec.location_tag.clone(), field.to_owned())),
    }
}

/// A parameter that the record may have.
fn optional_field(rec: &LLVMDebugTypeInformation, field: &str) -> (r: Option<String>)
    ensures
        text_of(r) == optional(rec@, field@),
{
    match rec.parameters.get(field) {
        Some(v) => Some(v.clone()),
        None => None,
    }
}

/// What the first tags of a list resolve to decides what the whole list
/// resolves to, unless they all resolve.
pub proof fn lemma_elements_prefix(
    elements: Seq<Seq<char>>,
    i: nat,
    n: nat,
    records: Seq<RecordModel>,
    tags: Map<Seq<char>, Seq<Seq<char>>>,
    depth: nat,
)
    requires
        i <= n,
    ensures
        match resolve_elements(elements, i, records, tags, depth) {
            None => resolve_elements(elements, n, records, tags, depth) is None,
            Some(Err(e)) => resolve_elements(elements, n, records, tags, depth) == Some(
                Err::<Seq<TypeNode>, ResolveErrorModel>(e),
            ),
            Some(Ok(_)) => true,
        },
    decreases n - i,
{
    if i < n {
        lemma_elements_prefix(elements, i, (n - 1) as nat, records, tags, depth);
    }
}

fn resolve_leaf_record(rec: &LLVMDebugTypeInformation, variant: Variant) -> (r: Result<
    TypeAST,
    ResolveError,
>)
    ensures
        resolution_of(r) == resolve_leaf(rec@, variant),
{
    match variant {
        Variant::BasicType => {
            let encoding = required(rec, "encoding")?;
            let size = optional_field(rec, "size");
            let name = required(rec, "name")?;
            Ok(TypeAST::DIBasicType(DIBasicType { encoding, size, name }))
        },
        Variant::DISubroutineType => {
            let types = required(rec, "types")?;
            Ok(TypeAST::DISubroutineType(DISubroutineType { types }))
        },
        Variant::TemplateTypeParameter => {
            let name = required(rec, "name")?;
            let ty = required(rec, "type")?;
            Ok(TypeAST::DITemplateTypeParameter(DITemplateTypeParameter { name, ty }))
        },
        Variant::Enumerator => {
            let name = required(rec, "name")?;
            let value = required(rec, "value")?;
            Ok(TypeAST::DIEnumerator(DIEnumerator { name, value }))
        },
        Variant::DISubrange => {
            let count = required(rec, "count")?;
            let lower_bound = required(rec, "lowerBound")?;
            Ok(TypeAST::DISubrange(DISubrange { count, lower_bound }))
        },
        _ => Err(ResolveError::UnsupportedVariant(variant)),
    }
}

/// Resolves `rec`. With a limit, gives up where the tree would be deeper;
/// without one, `depth` is known to suffice.
fn resolve_record(
    rec: &LLVMDebugTypeInformation,
    records: &[LLVMDebugTypeInformation],
    tags: &TextMap<Vec<String>>,
    limit: Option<usize>,
    Ghost(depth): Ghost<nat>,
) -> (r: Option<Result<TypeAST, ResolveError>>)
    requires
        limit matches Some(l) ==> l == depth,
        limit is None ==> resolve(rec@, record_models(records@), tags@, depth) is Some,
    ensures
        outcome_of(r) == resolve(rec@, record_models(records@), tags@, depth),
    decreases depth, 1nat,
{
    let below: Option<usize> = match limit {
        Some(l) => {
            if l == 0 {
                return None;
            }
            Some(l - 1)
        },
        None => None,
    };
    let ghost below_depth = (depth - 1) as nat;
    let variant = match rec.get_variant() {
        Some(v) => v,
        None => {
            return Some(Err(ResolveError::UnknownVariant(rec.variant.clone())));
        },
    };
    match variant {
        Variant::LocalVariable => {
            let type_tag = match required(rec, "type") {
                Ok(t) => t,
                Err(e) => {
                    return Some(Err(e));
                },
            };
            let node = match resolve_tag(
                type_tag.as_str(),
                records,
                tags,
                below,
                Ghost(below_depth),
            ) {
                Some(Ok(node)) => node,
                Some(Err(e)) => {
                    return Some(Err(e));
                },
                None => {
                    return None;
                },
            };
            let ty = match LocalVariableTypes::try_from(node) {
                Ok(t) => t,
                Err(e) => {
                    return Some(Err(e));
                },
            };
            let file = match required(rec, "file") {
                Ok(t) => t,
                Err(e) => {
                    return Some(Err(e));
                },
            };
            let name = optional_field(rec, "name");
            let arg = optional_field(rec, "arg");
            let line = match required(rec, "line") {
                Ok(t) => t,
                Err(e) => {
                    return Some(Err(e));
                },
            };
            let scope = match required(rec, "scope") {
                Ok(t) => t,
                Err(e) => {
                    return Some(Err(e));
                },
            };
            Some(Ok(TypeAST::DILocalVariable(DILocalVariable { file, name, arg, line, ty, scope })))
        },
        Variant::DerivedType => {
            let base_tag = match required(rec, "baseType") {
                Ok(t) => t,
                Err(e) => {
                    return Some(Err(e));
                },
            };
            if find_record_ref(base_tag.as_str(), records).is_none() {
                return Some(Err(ResolveError::UnresolvedTag(base_tag)));
            }
            let tag = match required(rec, "tag") {
                Ok(t) => t,
                Err(e) => {
                    return Some(Err(e));
                },
            };
            let align = match required(rec, "align") {
                Ok(t) => t,
                Err(e) => {
                    return Some(Err(e));
                },
            };
            let dwarf_address_space = optional_field(rec, "dwarfAddressSpace");
            let size = optional_field(rec, "size");
            let name = optional_field(rec, "name");
            let node = match resolve_tag(
                base_tag.as_str(),
                records,
                tags,
                below,
                Ghost(below_depth),
            ) {
                Some(Ok(node)) => node,
                Some(Err(e)) => {
                    return Some(Err(e));
                },
                None => {
                    return None;
                },
            };
            let base = match BaseType::try_from(node) {
                Ok(t) => t,
                Err(e) => {
                    return Some(Err(e));
                },
            };
            Some(
                Ok(
                    TypeAST::DerivedType(
                        DIDerivedType {
                            tag,
                            align,
                            dwarf_address_space,
                            size,
                            name,
                            base_type: Box::new(base),
                        },
                    ),
                ),
            )
        },
        Variant::CompositeType => {
            let list_tag = match required(rec, "elements") {
                Ok(t) => t,
                Err(e) => {
                    return Some(Err(e));
                },
            };
            let list = match tags.get(list_tag.as_str()) {
                Some(list) => list,
                None => {
                    return Some(Err(ResolveError::UnresolvedTag(list_tag)));
                },
            };
            let elements = match resolve_list(list, records, tags, below, Ghost(below_depth)) {
                Some(Ok(elements)) => elements,
                Some(Err(e)) => {
                    return Some(Err(e));
                },
                None => {
                    return None;
                },
            };
            let tag = match required(rec, "tag") {
                Ok(t) => t,
                Err(e) => {
                    return Some(Err(e));
                },
            };
            let identifier = optional_field(rec, "identifier");
            let vtable_holder = optional_field(rec, "vtableHolder");
            let flags = optional_field(rec, "flags");
            let name = optional_field(rec, "name");
            let file = optional_field(rec, "file");
            let align = match required(rec, "align") {
                Ok(t) => t,
                Err(e) => {
                    return Some(Err(e));
                },
            };
            let composite = DICompositeType {
                tag,
                identifier,
                elements,
                vtable_holder,
                flags,
                name,
                file,
                align,
            };
            proof {
                lemma_composite_elements(composite);
            }
            Some(Ok(TypeAST::DICompositeType(composite)))
        },
        other => Some(resolve_leaf_record(rec, other)),
    }
}

/// Resolves the record that has the location tag `tag`.
fn resolve_tag(
    tag: &str,
    records: &[LLVMDebugTypeInformation],
    tags: &TextMap<Vec<String>>,
    limit: Option<usize>,
    Ghost(depth): Ghost<nat>,
) -> (r: Option<Result<TypeAST, ResolveError>>)
    requires
        limit matches Some(l) ==> l == depth,
        limit is None ==> resolve_reference(tag@, record_models(records@), tags@, depth) is Some,
    ensures
        outcome_of(r) == resolve_reference(tag@, record_models(records@), tags@, depth),
    decreases depth, 2nat,
{
    match find_record_ref(tag, records) {
        None => Some(Err(ResolveError::UnresolvedTag(tag.to_owned()))),
        Some(child) => resolve_record(child, records, tags, limit, Ghost(depth)),
    }
}

/// Resolves the records that the tags of `list` name, as the elements of
/// a composite type.
fn resolve_list(
    list: &Vec<String>,
    records: &[LLVMDebugTypeInformation],
    tags: &TextMap<Vec<String>>,
    limit: Option<usize>,
    Ghost(depth): Ghost<nat>,
) -> (r: Option<Result<Vec<CompositeTypeElements>, ResolveError>>)
    requires
        limit matches Some(l) ==> l == depth,
        limit is None ==> resolve_elements(
            list.deep_view(),
            list.len() as nat,
            record_models(records@),
            tags@,
            depth,
        ) is Some,
    ensures
        match r {
            None => resolve_elements(
                list.deep_view(),
                list.len() as nat,
                record_models(records@),
                tags@,
                depth,
            ) is None,
            Some(Err(e)) => resolve_elements(
                list.deep_view(),
                list.len() as nat,
                record_models(records@),
                tags@,
                depth,
            ) == Some(Err::<Seq<TypeNode>, ResolveErrorModel>(e@)),
            Some(Ok(elements)) => resolve_elements(
                list.deep_view(),
                list.len() as nat,
                record_models(records@),
                tags@,
                depth,
            ) == Some(Ok::<Seq<TypeNode>, ResolveErrorModel>(element_nodes(elements@))),
        },
    decreases depth, 3nat,
{
    let ghost names = list.deep_view();
    let ghost all = record_models(records@);
    let mut elements: Vec<CompositeTypeElements> = Vec::new();
    let mut i: usize = 0;
    assert(element_nodes(elements@) =~= Seq::<TypeNode>::empty());
    while i < list.len()
        invariant
            i <= list.len(),
            names == list.deep_view(),
            all == record_models(records@),
            limit matches Some(l) ==> l == depth,
            limit is None ==> resolve_elements(names, list.len() as nat, all, tags@, depth) is Some,
            resolve_elements(names, i as nat, all, tags@, depth) == Some(
                Ok::<Seq<TypeNode>, ResolveErrorModel>(element_nodes(elements@)),
            ),
        decreases list.len() - i,
    {
        proof {
            lemma_elements_prefix(names, (i + 1) as nat, list.len() as nat, all, tags@, depth);
            assert(names[i as int] == list@[i as int]@);
        }
        let node = match resolve_tag(list[i].as_str(), records, tags, limit, Ghost(depth)) {
            Some(Ok(node)) => node,
            Some(Err(e)) => {
                return Some(Err(e));
            },
            None => {
                return None;
            },
        };
        let element = match CompositeTypeElements::try_from(node) {
            Ok(t) => t,
            Err(e) => {
                return Some(Err(e));
            },
        };
        let ghost before = element_nodes(elements@);
        elements.push(element);
        assert(element_nodes(elements@) =~= before.push(element@));
        i += 1;
    }
    Some(Ok(elements))
}

/// Resolves `debug_type_info` into a type tree, following its references
/// through `full_debug_type_info` and `multiple_tags_tag`.
///
/// The records must not refer to each other in a circle from
/// `debug_type_info` on: resolution keeps no account of where it has been.
pub fn parse_llvm_debug_type_information(
    debug_type_info: &LLVMDebugTypeInformation,
    full_debug_type_info: &[LLVMDebugTypeInformation],
    multiple_tags_tag: &TextMap<Vec<String>>,
) -> (r: Result<TypeAST, ResolveError>)
    requires
        resolution_ends(
            debug_type_info@,
            record_models(full_debug_type_info@),
            multiple_tags_tag@,
        ),
    ensures
        resolution_of(r) == resolution(
            debug_type_info@,
            record_models(full_debug_type_info@),
            multiple_tags_tag@,
        ),
{
    let ghost depth = sufficient_depth(
        debug_type_info@,
        record_models(full_debug_type_info@),
        multiple_tags_tag@,
    );
    match resolve_record(
        debug_type_info,
        full_debug_type_info,
        multiple_tags_tag,
        None,
        Ghost(depth),
    ) {
        Some(r) => r,
        None => unreached(),
    }
}

/// Resolves `debug_type_info` as [`parse_llvm_debug_type_information`]
/// does, as long as no path of the tree holds more than `max_depth`
/// records; gives `None` where one would. On records that refer to each
/// other in a circle every depth is exceeded.
pub fn resolve_within_depth(
    debug_type_info: &LLVMDebugTypeInformation,
    full_debug_type_info: &[LLVMDebugTypeInformation],
    multiple_tags_tag: &TextMap<Vec<String>>,
    max_depth: usize,
) -> (r: Option<Result<TypeAST, ResolveError>>)
    ensures
        outcome_of(r) == resolve(
            debug_type_info@,
            record_models(full_debug_type_info@),
            multiple_tags_tag@,
            max_depth as nat,
        ),
{
    resolve_record(
        debug_type_info,
        full_debug_type_info,
        multiple_tags_tag,
        Some(max_depth),
        Ghost(max_depth as nat),
    )
}

// ---------------------------------------------------------------------
// Laws of resolution
// ---------------------------------------------------------------------

/// A depth that suffices gives what every greater depth gives: the outcome
/// of a resolution does not depend on the depth allowed, once it ends.
pub proof fn lemma_resolve_deeper(
    rec: RecordModel,
    records: Seq<RecordModel>,
    tags: Map<Seq<char>, Seq<Seq<char>>>,
    depth: nat,
    deeper: nat,
)
    requires
        depth <= deeper,
        resolve(rec, records, tags, depth) is Some,
    ensures
        resolve(rec, records, tags, deeper) == resolve(rec, records, tags, depth),
    decreases depth, 1nat,
{
    let p = rec.parameters;
    match variant_of_text(rec.variant) {
        Some(Variant::LocalVariable) => {
            if p.contains_key("type"@) {
                lemma_reference_deeper(
                    p["type"@],
                    records,
                    tags,
                    (depth - 1) as nat,
                    (deeper - 1) as nat,
                );
            }
        },
        Some(Variant::DerivedType) => {
            if p.contains_key("baseType"@) && find_record(p["baseType"@], records) is Some
                && p.contains_key("tag"@) && p.contains_key("align"@) {
                lemma_reference_deeper(
                    p["baseType"@],
                    records,
                    tags,
                    (depth - 1) as nat,
                    (deeper - 1) as nat,
                );
            }
        },
        Some(Variant::CompositeType) => {
            if p.contains_key("elements"@) && tags.contains_key(p["elements"@]) {
                lemma_elements_deeper(
                    tags[p["elements"@]],
                    tags[p["elements"@]].len(),
                    records,
                    tags,
                    (depth - 1) as nat,
                    (deeper - 1) as nat,
                );
            }
        },
        _ => {},
    }
}

/// [`lemma_resolve_deeper`], for the record that a tag names.
pub proof fn lemma_reference_deeper(
    tag: Seq<char>,
    records: Seq<RecordModel>,
    tags: Map<Seq<char>, Seq<Seq<char>>>,
    depth: nat,
    deeper: nat,
)
    requires
        depth <= deeper,
        resolve_reference(tag, records, tags, depth) is Some,
    ensures
        resolve_reference(tag, records, tags, deeper) == resolve_reference(
            tag,
            records,
            tags,
            depth,
        ),
    decreases depth, 2nat,
{
    match find_record(tag, records) {
        Some(child) => lemma_resolve_deeper(child, records, tags, depth, deeper),
        None => {},
    }
}

/// [`lemma_resolve_deeper`], for the elements of a composite type.
pub proof fn lemma_elements_deeper(
    elements: Seq<Seq<char>>,
    n: nat,
    records: Seq<RecordModel>,
    tags: Map<Seq<char>, Seq<Seq<char>>>,
    depth: nat,
    deeper: nat,
)
    requires
        depth <= deeper,
        resolve_elements(elements, n, records, tags, depth) is Some,
    ensures
        resolve_elements(elements, n, records, tags, deeper) == resolve_elements(
            elements,
            n,
            records,
            tags,
            depth,
        ),
    decreases depth, 3 + n,
{
    if n > 0 {
        lemma_elements_deeper(elements, (n - 1) as nat, records, tags, depth, deeper);
        if resolve_elements(elements, (n - 1) as nat, records, tags, depth) matches Some(Ok(_)) {
            lemma_reference_deeper(elements[n - 1], records, tags, depth, deeper);
        }
    }
}

/// Where resolution within some depth gives an outcome, resolution ends,
/// and that is its outcome.
pub proof fn lemma_resolution_within(
    rec: RecordModel,
    records: Seq<RecordModel>,
    tags: Map<Seq<char>, Seq<Seq<char>>>,
    depth: nat,
)
    requires
        resolve(rec, records, tags, depth) is Some,
    ensures
        resolution_ends(rec, records, tags),
        resolve(rec, records, tags, depth) == Some(resolution(rec, records, tags)),
{
    let chosen = sufficient_depth(rec, records, tags);
    if chosen <= depth {
        lemma_resolve_deeper(rec, records, tags, chosen, depth);
    } else {
        lemma_resolve_deeper(rec, records, tags, depth, chosen);
    }
}

/// The elements of a composite type stand in the order of the tags that
/// name them: each is what its tag resolves to.
pub proof fn lemma_elements_in_order(
    elements: Seq<Seq<char>>,
    n: nat,
    records: Seq<RecordModel>,
    tags: Map<Seq<char>, Seq<Seq<char>>>,
    depth: nat,
)
    requires
        resolve_elements(elements, n, records, tags, depth) matches Some(Ok(_)),
    ensures
        resolve_elements(elements, n, records, tags, depth)->Some_0->Ok_0.len() == n,
        forall|i: int|
            0 <= i < n ==> #[trigger] resolve_reference(elements[i], records, tags, depth) == Some(
                Ok::<TypeNode, ResolveErrorModel>(
                    resolve_elements(elements, n, records, tags, depth)->Some_0->Ok_0[i],
                ),
            ),
    decreases n,
{
    if n > 0 {
        lemma_elements_in_order(elements, (n - 1) as nat, records, tags, depth);
    }
}

/// A basic type resolves by itself, whatever the other records are: to a
/// basic type with its `encoding` and `name`, and its `size` if it has one.
pub proof fn lemma_basic_type_resolution(
    rec: RecordModel,
    records: Seq<RecordModel>,
    tags: Map<Seq<char>, Seq<Seq<char>>>,
)
    requires
        variant_of_text(rec.variant) == Some(Variant::BasicType),
        rec.parameters.contains_key("encoding"@),
        rec.parameters.contains_key("name"@),
    ensures
        resolution_ends(rec, records, tags),
        resolution(rec, records, tags) == Ok::<TypeNode, ResolveErrorModel>(
            TypeNode::Basic(
                BasicTypeModel {
                    encoding: rec.parameters["encoding"@],
                    size: optional(rec, "size"@),
                    name: rec.parameters["name"@],
                },
            ),
        ),
        forall|depth: nat|
            depth > 0 ==> #[trigger] resolve(rec, records, tags, depth) == Some(
                resolution(rec, records, tags),
            ),
{
    assert(resolve(rec, records, tags, 1) is Some);
    lemma_resolution_within(rec, records, tags, 1);
    assert forall|depth: nat| depth > 0 implies #[trigger] resolve(rec, records, tags, depth)
        == Some(resolution(rec, records, tags)) by {
        lemma_resolve_deeper(rec, records, tags, 1, depth);
    }
}

/// A local variable whose `type` names a tag that no record has fails as
/// unresolved, with that very tag.
pub proof fn lemma_local_variable_unresolved_type(
    rec: RecordModel,
    records: Seq<RecordModel>,
    tags: Map<Seq<char>, Seq<Seq<char>>>,
)
    requires
        variant_of_text(rec.variant) == Some(Variant::LocalVariable),
        rec.parameters.contains_key("type"@),
        forall|j: int|
            0 <= j < records.len() ==> (#[trigger] records[j]).location_tag
                != rec.parameters["type"@],
    ensures
        resolution_ends(rec, records, tags),
        resolution(rec, records, tags) == Err::<TypeNode, ResolveErrorModel>(
            ResolveErrorModel::UnresolvedTag(rec.parameters["type"@]),
        ),
{
    lemma_no_record_with_tag(rec.parameters["type"@], records);
    assert(resolve_reference(rec.parameters["type"@], records, tags, 0) == Some(
        Err::<TypeNode, ResolveErrorModel>(
            ResolveErrorModel::UnresolvedTag(rec.parameters["type"@]),
        ),
    ));
    assert(resolve(rec, records, tags, 1) is Some);
    lemma_resolution_within(rec, records, tags, 1);
}

/// Any reference to a tag that no record has fails as unresolved, with
/// that very tag, at whatever depth it is met.
pub proof fn lemma_unresolved_reference(
    tag: Seq<char>,
    records: Seq<RecordModel>,
    tags: Map<Seq<char>, Seq<Seq<char>>>,
    depth: nat,
)
    requires
        forall|j: int| 0 <= j < records.len() ==> (#[trigger] records[j]).location_tag != tag,
    ensures
        resolve_reference(tag, records, tags, depth) == Some(
            Err::<TypeNode, ResolveErrorModel>(ResolveErrorModel::UnresolvedTag(tag)),
        ),
{
    lemma_no_record_with_tag(tag, records);
}

} // verus!
