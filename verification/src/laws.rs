//! What holds of resolution and flattening together.

use vstd::prelude::*;
use crate::ast::{BasicTypeModel, Slot, TypeNode};
use crate::ir_parser::{
    BasicPointerTypeModel, LeafNode, composite_leaf, derived_leaf, element_leaf,
    is_pointer, lemma_element_leaves_in_order,
};
use crate::resolver::{
    ResolveErrorModel, find_record, lemma_resolution_within, optional, resolution,
    resolution_ends, resolve, resolve_elements, resolve_reference,
};
use crate::structs::{RecordModel, Variant, variant_of_text};

verus! {

/// Where every one of the first `n` tags of a list resolves to a node
/// that may be an element of a composite type, the list resolves to these
/// nodes, in the order of the tags.
pub proof fn lemma_elements_resolve(
    elements: Seq<Seq<char>>,
    n: nat,
    records: Seq<RecordModel>,
    tags: Map<Seq<char>, Seq<Seq<char>>>,
    depth: nat,
)
    requires
        forall|i: int|
            0 <= i < n ==> (#[trigger] resolve_reference(elements[i], records, tags, depth)
                matches Some(Ok(node)) && Slot::CompositeElement.admits(node.kind())),
    ensures
        resolve_elements(elements, n, records, tags, depth) matches Some(Ok(nodes)) && nodes.len()
            == n && forall|i: int|
            0 <= i < n ==> #[trigger] resolve_reference(elements[i], records, tags, depth) == Some(
                Ok::<TypeNode, ResolveErrorModel>(nodes[i]),
            ),
    decreases n,
{
    if n > 0 {
        lemma_elements_resolve(elements, (n - 1) as nat, records, tags, depth);
        assert(resolve_reference(elements[n - 1], records, tags, depth) matches Some(Ok(node))
            && Slot::CompositeElement.admits(node.kind()));
    }
}

/// A derived type whose `tag` stands for the tag of pointers, as
/// `DW_TAG_pointer_type` does, and whose base is a basic type resolves to
/// a type that flattens to a pointer to that basic type.
pub proof fn lemma_pointer_record(
    rec: RecordModel,
    base: RecordModel,
    records: Seq<RecordModel>,
    tags: Map<Seq<char>, Seq<Seq<char>>>,
)
    requires
        variant_of_text(rec.variant) == Some(Variant::DerivedType),
        rec.parameters.contains_key("baseType"@),
        rec.parameters.contains_key("tag"@),
        rec.parameters.contains_key("align"@),
        is_pointer(rec.parameters["tag"@]),
        find_record(rec.parameters["baseType"@], records) == Some(base),
        variant_of_text(base.variant) == Some(Variant::BasicType),
        base.parameters.contains_key("encoding"@),
        base.parameters.contains_key("name"@),
    ensures
        resolution_ends(rec, records, tags),
        resolution(rec, records, tags) matches Ok(TypeNode::Derived(d)) && derived_leaf(d) == Some(
            LeafNode::Pointer(
                BasicPointerTypeModel {
                    original: BasicTypeModel {
                        encoding: base.parameters["encoding"@],
                        size: optional(base, "size"@),
                        name: base.parameters["name"@],
                    },
                },
            ),
        ),
{
    assert(resolve(base, records, tags, 1) is Some);
    assert(resolve_reference(rec.parameters["baseType"@], records, tags, 1) == resolve(
        base,
        records,
        tags,
        1,
    ));
    assert(resolve(rec, records, tags, 2) is Some);
    lemma_resolution_within(rec, records, tags, 2);
}

/// A composite type that has its `tag` and its `align`, and whose
/// elements all resolve to derived types that can be flattened, resolves
/// to a type that flattens to one group: it holds one leaf for each tag of
/// the list that names the elements, in the order of that list.
pub proof fn lemma_composite_record(
    rec: RecordModel,
    records: Seq<RecordModel>,
    tags: Map<Seq<char>, Seq<Seq<char>>>,
    depth: nat,
)
    requires
        variant_of_text(rec.variant) == Some(Variant::CompositeType),
        rec.parameters.contains_key("elements"@),
        rec.parameters.contains_key("tag"@),
        rec.parameters.contains_key("align"@),
        tags.contains_key(rec.parameters["elements"@]),
        forall|i: int|
            0 <= i < tags[rec.parameters["elements"@]].len() ==> (#[trigger] resolve_reference(
                tags[rec.parameters["elements"@]][i],
                records,
                tags,
                depth,
            ) matches Some(Ok(node)) && node is Derived && element_leaf(node) is Some),
    ensures
        resolution_ends(rec, records, tags),
        resolution(rec, records, tags) matches Ok(TypeNode::Composite(c)) && composite_leaf(c)
            matches Some(LeafNode::Composite(name, leaves)) && {
            let list = tags[rec.parameters["elements"@]];
            &&& name == match optional(rec, "identifier"@) {
                Some(identifier) => identifier,
                None => Seq::empty(),
            }
            &&& c.elements.len() == list.len()
            &&& leaves.len() == list.len()
            &&& forall|i: int|
                0 <= i < list.len() ==> #[trigger] resolve_reference(
                    list[i],
                    records,
                    tags,
                    depth,
                ) == Some(Ok::<TypeNode, ResolveErrorModel>(c.elements[i])) && Some(leaves[i])
                    == element_leaf(c.elements[i])
        },
{
    let list = tags[rec.parameters["elements"@]];
    assert forall|i: int| 0 <= i < list.len() implies (#[trigger] resolve_reference(
        list[i],
        records,
        tags,
        depth,
    ) matches Some(Ok(node)) && Slot::CompositeElement.admits(node.kind())) by {
        let r = resolve_reference(list[i], records, tags, depth);
        assert(r matches Some(Ok(node)) && node is Derived);
    }
    lemma_elements_resolve(list, list.len(), records, tags, depth);
    let nodes = resolve_elements(list, list.len(), records, tags, depth)->Some_0->Ok_0;
    assert(resolve(rec, records, tags, depth + 1) is Some);
    lemma_resolution_within(rec, records, tags, depth + 1);
    assert forall|i: int| 0 <= i < nodes.len() implies element_leaf(#[trigger] nodes[i])
        is Some by {
        assert(resolve_reference(list[i], records, tags, depth) == Some(
            Ok::<TypeNode, ResolveErrorModel>(nodes[i]),
        ));
    }
    lemma_element_leaves_in_order(nodes, nodes.len());
}

} // verus!
