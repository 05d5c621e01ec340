//! How deep a resolution can go: where it ends at all, no path of the tree
//! holds more records than there are, and the record that is resolved.
//!
//! Every record below the first is found by its tag among the records. A
//! path that is longer than the number of records therefore meets one of
//! them twice, and what has come round once comes round for ever.

use vstd::prelude::*;
use vstd::set_lib::{lemma_int_range, set_int_range};
use crate::ast::TypeAST;
use crate::resolver::{
    ResolveError, find_record, is_first_with_tag, lemma_elements_deeper,
    lemma_resolution_within, lemma_resolve_deeper, outcome_of, resolution, resolution_ends,
    resolve, resolve_elements, resolve_reference, resolve_within_depth, sufficient_depth,
};
use crate::structs::{
    LLVMDebugTypeInformation, RecordModel, Variant, record_models, variant_of_text,
};
use crate::table::TextMap;

verus! {

/// The record at place `i` holds up the resolution of `rec` within
/// `depth + 1`: it is not resolved within `depth`, and as long as it is
/// not resolved within a greater depth, `rec` is not resolved within one
/// more.
pub open spec fn holds_up(
    rec: RecordModel,
    records: Seq<RecordModel>,
    tags: Map<Seq<char>, Seq<Seq<char>>>,
    depth: nat,
    i: int,
) -> bool {
    &&& 0 <= i < records.len()
    &&& resolve(records[i], records, tags, depth) is None
    &&& forall|e: nat|
        e > depth && resolve(records[i], records, tags, (e - 1) as nat) is None
            ==> #[trigger] resolve(rec, records, tags, e) is None
}

/// The record at place `i` holds up the resolution of the first `n`
/// elements of a list within `depth`.
pub open spec fn holds_up_elements(
    elements: Seq<Seq<char>>,
    n: nat,
    records: Seq<RecordModel>,
    tags: Map<Seq<char>, Seq<Seq<char>>>,
    depth: nat,
    i: int,
) -> bool {
    &&& 0 <= i < records.len()
    &&& resolve(records[i], records, tags, depth) is None
    &&& forall|e: nat|
        e >= depth && resolve(records[i], records, tags, e) is None
            ==> #[trigger] resolve_elements(elements, n, records, tags, e) is None
}

/// A reference that is not resolved within a depth is held up by the
/// record that it names.
proof fn lemma_reference_held_up(
    tag: Seq<char>,
    records: Seq<RecordModel>,
    tags: Map<Seq<char>, Seq<Seq<char>>>,
    depth: nat,
) -> (i: int)
    requires
        resolve_reference(tag, records, tags, depth) is None,
    ensures
        0 <= i < records.len(),
        find_record(tag, records) == Some(records[i]),
        resolve(records[i], records, tags, depth) is None,
{
    choose|i: int| is_first_with_tag(tag, records, i)
}

/// Elements that are not resolved within a depth are held up by some
/// record.
proof fn lemma_elements_held_up(
    elements: Seq<Seq<char>>,
    n: nat,
    records: Seq<RecordModel>,
    tags: Map<Seq<char>, Seq<Seq<char>>>,
    depth: nat,
) -> (i: int)
    requires
        resolve_elements(elements, n, records, tags, depth) is None,
    ensures
        holds_up_elements(elements, n, records, tags, depth, i),
    decreases n,
{
    assert(n > 0);
    let before = resolve_elements(elements, (n - 1) as nat, records, tags, depth);
    if before is None {
        let i = lemma_elements_held_up(elements, (n - 1) as nat, records, tags, depth);
        assert forall|e: nat|
            e >= depth && resolve(records[i], records, tags, e) is None implies #[trigger] resolve_elements(
            elements,
            n,
            records,
            tags,
            e,
        ) is None by {
            assert(resolve_elements(elements, (n - 1) as nat, records, tags, e) is None);
        }
        i
    } else {
        assert(before matches Some(Ok(_)));
        let i = lemma_reference_held_up(elements[n - 1], records, tags, depth);
        assert forall|e: nat|
            e >= depth && resolve(records[i], records, tags, e) is None implies #[trigger] resolve_elements(
            elements,
            n,
            records,
            tags,
            e,
        ) is None by {
            lemma_elements_deeper(elements, (n - 1) as nat, records, tags, depth, e);
            assert(resolve_elements(elements, (n - 1) as nat, records, tags, e) == before);
            assert(resolve_reference(elements[n - 1], records, tags, e) is None);
        }
        i
    }
}

/// A record that is not resolved within a depth of one or more is held
/// up by some record.
pub proof fn lemma_held_up(
    rec: RecordModel,
    records: Seq<RecordModel>,
    tags: Map<Seq<char>, Seq<Seq<char>>>,
    depth: nat,
) -> (i: int)
    requires
        resolve(rec, records, tags, depth + 1) is None,
    ensures
        holds_up(rec, records, tags, depth, i),
{
    let p = rec.parameters;
    match variant_of_text(rec.variant) {
        Some(Variant::LocalVariable) => lemma_reference_held_up(
            p["type"@],
            records,
            tags,
            depth,
        ),
        Some(Variant::DerivedType) => lemma_reference_held_up(
            p["baseType"@],
            records,
            tags,
            depth,
        ),
        Some(Variant::CompositeType) => {
            let list = tags[p["elements"@]];
            let i = lemma_elements_held_up(list, list.len(), records, tags, depth);
            assert forall|e: nat|
                e > depth && resolve(
                    records[i],
                    records,
                    tags,
                    (e - 1) as nat,
                ) is None implies #[trigger] resolve(rec, records, tags, e) is None by {
                assert(resolve_elements(list, list.len(), records, tags, (e - 1) as nat) is None);
            }
            i
        },
        _ => 0,
    }
}

/// Where every record of a set is unresolved within `depth + 1`, and
/// every other record is resolved within `depth`, the records of the set
/// are resolved within no depth: each is held up by another of them.
proof fn lemma_closed(
    records: Seq<RecordModel>,
    tags: Map<Seq<char>, Seq<Seq<char>>>,
    depth: nat,
    live: Set<int>,
    at: nat,
)
    requires
        forall|i: int|
            live.contains(i) ==> 0 <= i < records.len() && resolve(
                #[trigger] records[i],
                records,
                tags,
                depth + 1,
            ) is None,
        forall|i: int|
            0 <= i < records.len() && !live.contains(i) ==> resolve(
                #[trigger] records[i],
                records,
                tags,
                depth,
            ) is Some,
    ensures
        forall|i: int|
            live.contains(i) ==> resolve(#[trigger] records[i], records, tags, at) is None,
    decreases at,
{
    assert forall|i: int| live.contains(i) implies resolve(
        #[trigger] records[i],
        records,
        tags,
        at,
    ) is None by {
        if at <= depth + 1 {
            if resolve(records[i], records, tags, at) is Some {
                lemma_resolve_deeper(records[i], records, tags, at, depth + 1);
            }
        } else {
            lemma_closed(records, tags, depth, live, (at - 1) as nat);
            let j = lemma_held_up(records[i], records, tags, depth);
            assert(live.contains(j));
            assert(resolve(records[j], records, tags, (at - 1) as nat) is None);
        }
    }
}

/// Where all records but those of a finite set are resolved within
/// `depth`, those that are not resolved within `depth` and the size of
/// the set are resolved within no depth.
proof fn lemma_settled(
    records: Seq<RecordModel>,
    tags: Map<Seq<char>, Seq<Seq<char>>>,
    depth: nat,
    live: Set<int>,
)
    requires
        live.finite(),
        forall|i: int|
            0 <= i < records.len() && !live.contains(i) ==> resolve(
                #[trigger] records[i],
                records,
                tags,
                depth,
            ) is Some,
    ensures
        forall|i: int|
            0 <= i < records.len() && resolve(
                #[trigger] records[i],
                records,
                tags,
                depth + live.len(),
            ) is None ==> !resolution_ends(records[i], records, tags),
    decreases live.len(),
{
    if exists|a: int|
        live.contains(a) && !(0 <= a < records.len() && resolve(
            records[a],
            records,
            tags,
            depth + 1,
        ) is None) {
        let a = choose|a: int|
            live.contains(a) && !(0 <= a < records.len() && resolve(
                records[a],
                records,
                tags,
                depth + 1,
            ) is None);
        let fewer = live.remove(a);
        assert forall|i: int| 0 <= i < records.len() && !fewer.contains(i) implies resolve(
            #[trigger] records[i],
            records,
            tags,
            depth + 1,
        ) is Some by {
            if i != a {
                lemma_resolve_deeper(records[i], records, tags, depth, depth + 1);
            }
        }
        lemma_settled(records, tags, depth + 1, fewer);
        assert(depth + 1 + fewer.len() == depth + live.len());
    } else {
        assert forall|i: int|
            0 <= i < records.len() && resolve(
                #[trigger] records[i],
                records,
                tags,
                depth + live.len(),
            ) is None implies !resolution_ends(records[i], records, tags) by {
            if live.contains(i) {
                assert forall|at: nat| resolve(records[i], records, tags, at) is None by {
                    lemma_closed(records, tags, depth, live, at);
                }
            } else {
                lemma_resolve_deeper(records[i], records, tags, depth, depth + live.len());
            }
        }
    }
}

/// A resolution that ends at all ends within a depth of the number of
/// records and one: no path of a tree is longer, unless the records refer
/// to each other in a circle.
pub proof fn lemma_depth_suffices(
    rec: RecordModel,
    records: Seq<RecordModel>,
    tags: Map<Seq<char>, Seq<Seq<char>>>,
)
    requires
        resolution_ends(rec, records, tags),
    ensures
        resolve(rec, records, tags, records.len() + 1) == Some(resolution(rec, records, tags)),
{
    let n = records.len();
    if resolve(rec, records, tags, n + 1) is None {
        let i = lemma_held_up(rec, records, tags, n);
        let all = set_int_range(0, n as int);
        lemma_int_range(0, n as int);
        lemma_settled(records, tags, 0, all);
        assert(!resolution_ends(records[i], records, tags));
        let chosen = sufficient_depth(rec, records, tags);
        if chosen > n {
            assert(resolve(records[i], records, tags, (chosen - 1) as nat) is None);
        } else {
            lemma_resolve_deeper(rec, records, tags, chosen, n + 1);
        }
    }
    lemma_resolution_within(rec, records, tags, n + 1);
}

/// Resolves `debug_type_info` where its resolution ends, and gives `None`
/// where it does not: where the records refer to each other in a circle
/// from `debug_type_info` on.
pub fn try_parse_llvm_debug_type_information(
    debug_type_info: &LLVMDebugTypeInformation,
    full_debug_type_info: &[LLVMDebugTypeInformation],
    multiple_tags_tag: &TextMap<Vec<String>>,
) -> (r: Option<Result<TypeAST, ResolveError>>)
    requires
        full_debug_type_info.len() < usize::MAX,
    ensures
        r is Some <==> resolution_ends(
            debug_type_info@,
            record_models(full_debug_type_info@),
            multiple_tags_tag@,
        ),
        r is Some ==> outcome_of(r) == Some(
            resolution(debug_type_info@, record_models(full_debug_type_info@), multiple_tags_tag@),
        ),
{
    let depth = full_debug_type_info.len() + 1;
    let r = resolve_within_depth(debug_type_info, full_debug_type_info, multiple_tags_tag, depth);
    proof {
        let rec = debug_type_info@;
        let records = record_models(full_debug_type_info@);
        if resolution_ends(rec, records, multiple_tags_tag@) {
            lemma_depth_suffices(rec, records, multiple_tags_tag@);
        }
        if r is Some {
            lemma_resolution_within(rec, records, multiple_tags_tag@, depth as nat);
        }
    }
    r
}

} // verus!
