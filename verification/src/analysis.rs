//! From all that a file holds to what its local variables are made of.

use vstd::prelude::*;
use crate::ast::{DILocalVariable, LocalVariableModel, TypeAST, TypeNode};
use crate::file_parser::{LLVMIRMetadata, collected, lemma_collected_failure};
use crate::ir_parser::{
    BasicTypeOrCompositeType, FlattenError, LeafNode, local_var_basic_type, local_variable_leaf,
};
use crate::depth::lemma_depth_suffices;
use crate::resolver::{
    ResolveError, ResolveErrorModel, lemma_resolution_within, resolution, resolution_ends,
    resolve, resolve_within_depth,
};
use crate::structs::{
    LLVMLocalTypeVariableDebugInfo, LinkModel, RecordModel, Variant, variant_of_text,
};
use crate::table::{TextMap, lemma_map_of_pairs_push, map_of_pairs};

verus! {

/// The resolved records of a file, by their location tags.
#[derive(Debug)]
pub struct Ast {
    pub inner: TextMap<TypeAST>,
}

impl View for Ast {
    type V = Map<Seq<char>, TypeNode>;

    open spec fn view(&self) -> Map<Seq<char>, TypeNode> {
        self.inner@
    }
}

/// Whether records of this variant are resolved for their own sake.
/// Enumerators and subranges are resolved only as elements of composite
/// types; namespaces, files and the like not at all.
pub open spec fn stands_alone(variant: Variant) -> bool {
    variant == Variant::LocalVariable || variant == Variant::BasicType || variant
        == Variant::DerivedType || variant == Variant::CompositeType || variant
        == Variant::TemplateTypeParameter || variant == Variant::DISubroutineType
}

/// What the first `n` records resolve to within `depth`, each with its
/// tag, in the order of the records: `None` where the depth does not
/// suffice. A variant name that stands for no variant is a failure.
pub open spec fn resolved_entries(
    records: Seq<RecordModel>,
    tags: Map<Seq<char>, Seq<Seq<char>>>,
    depth: nat,
    n: nat,
) -> Option<Result<Seq<(Seq<char>, TypeNode)>, ResolveErrorModel>>
    decreases n,
{
    if n == 0 {
        Some(Ok(Seq::empty()))
    } else {
        let rec = records[n - 1];
        match resolved_entries(records, tags, depth, (n - 1) as nat) {
            None => None,
            Some(Err(e)) => Some(Err(e)),
            Some(Ok(entries)) => match variant_of_text(rec.variant) {
                None => Some(Err(ResolveErrorModel::UnknownVariant(rec.variant))),
                Some(variant) => if stands_alone(variant) {
                    match resolve(rec, records, tags, depth) {
                        None => None,
                        Some(Err(e)) => Some(Err(e)),
                        Some(Ok(node)) => Some(Ok(entries.push((rec.location_tag, node)))),
                    }
                } else {
                    Some(Ok(entries))
                },
            },
        }
    }
}

/// What the first records resolve to decides what all of them resolve
/// to, unless they all resolve.
pub proof fn lemma_resolved_entries_prefix(
    records: Seq<RecordModel>,
    tags: Map<Seq<char>, Seq<Seq<char>>>,
    depth: nat,
    i: nat,
    n: nat,
)
    requires
        i <= n,
        !(resolved_entries(records, tags, depth, i) matches Some(Ok(_))),
    ensures
        resolved_entries(records, tags, depth, n) == resolved_entries(records, tags, depth, i),
    decreases n - i,
{
    if i < n {
        lemma_resolved_entries_prefix(records, tags, depth, i, (n - 1) as nat);
    }
}

/// What a record resolves to, where its resolution ends.
pub open spec fn ended(
    rec: RecordModel,
    records: Seq<RecordModel>,
    tags: Map<Seq<char>, Seq<Seq<char>>>,
) -> Option<Result<TypeNode, ResolveErrorModel>> {
    if resolution_ends(rec, records, tags) {
        Some(resolution(rec, records, tags))
    } else {
        None
    }
}

/// What the first `n` records resolve to, each with its tag, in the order
/// of the records: the first failure among them, and `None` where the
/// records are resolved up to one whose resolution does not end.
pub open spec fn all_entries(
    records: Seq<RecordModel>,
    tags: Map<Seq<char>, Seq<Seq<char>>>,
    n: nat,
) -> Option<Result<Seq<(Seq<char>, TypeNode)>, ResolveErrorModel>>
    decreases n,
{
    if n == 0 {
        Some(Ok(Seq::empty()))
    } else {
        let rec = records[n - 1];
        match all_entries(records, tags, (n - 1) as nat) {
            None => None,
            Some(Err(e)) => Some(Err(e)),
            Some(Ok(entries)) => match variant_of_text(rec.variant) {
                None => Some(Err(ResolveErrorModel::UnknownVariant(rec.variant))),
                Some(variant) => if stands_alone(variant) {
                    match ended(rec, records, tags) {
                        None => None,
                        Some(Err(e)) => Some(Err(e)),
                        Some(Ok(node)) => Some(Ok(entries.push((rec.location_tag, node)))),
                    }
                } else {
                    Some(Ok(entries))
                },
            },
        }
    }
}

/// Within a depth of the number of records and one, the records resolve
/// to what they resolve to at all.
pub proof fn lemma_entries_at_bound(
    records: Seq<RecordModel>,
    tags: Map<Seq<char>, Seq<Seq<char>>>,
    n: nat,
)
    requires
        n <= records.len(),
    ensures
        resolved_entries(records, tags, records.len() + 1, n) == all_entries(records, tags, n),
    decreases n,
{
    if n > 0 {
        lemma_entries_at_bound(records, tags, (n - 1) as nat);
        let rec = records[n - 1];
        if resolution_ends(rec, records, tags) {
            lemma_depth_suffices(rec, records, tags);
        } else if resolve(rec, records, tags, records.len() + 1) is Some {
            lemma_resolution_within(rec, records, tags, records.len() + 1);
        }
    }
}

/// Where the resolution of every record that stands alone ends, the
/// records resolve to a map or to a failure.
pub proof fn lemma_all_entries_end(
    records: Seq<RecordModel>,
    tags: Map<Seq<char>, Seq<Seq<char>>>,
    n: nat,
)
    requires
        n <= records.len(),
        forall|i: int|
            0 <= i < n && (variant_of_text((#[trigger] records[i]).variant) matches Some(v)
                && stands_alone(v)) ==> resolution_ends(records[i], records, tags),
    ensures
        all_entries(records, tags, n) is Some,
    decreases n,
{
    if n > 0 {
        lemma_all_entries_end(records, tags, (n - 1) as nat);
    }
}

impl Ast {
    /// Resolves every record of `ir` that stands alone, as long as no
    /// path of a tree holds more than `max_depth` records; gives `None`
    /// where one would. Where a tag is defined twice, the later record
    /// stands.
    pub fn build(ir: &LLVMIRMetadata, max_depth: usize) -> (r: Option<Result<Ast, ResolveError>>)
        ensures
            match resolved_entries(
                ir@.llvm_debug_type_information,
                ir@.multiple_tags_tag,
                max_depth as nat,
                ir@.llvm_debug_type_information.len(),
            ) {
                None => r is None,
                Some(Err(e)) => r matches Some(Err(f)) && f@ == e,
                Some(Ok(entries)) => r matches Some(Ok(ast)) && ast@ == map_of_pairs(entries),
            },
    {
        let records = ir.llvm_debug_type_information.as_slice();
        let ghost all = ir@.llvm_debug_type_information;
        let ghost tags = ir@.multiple_tags_tag;
        let ghost mut entries: Seq<(Seq<char>, TypeNode)> = Seq::empty();
        let mut inner: TextMap<TypeAST> = TextMap::new();
        let mut i: usize = 0;
        while i < records.len()
            invariant
                i <= records.len(),
                records@ == ir.llvm_debug_type_information@,
                all == ir@.llvm_debug_type_information,
                tags == ir@.multiple_tags_tag,
                resolved_entries(all, tags, max_depth as nat, i as nat) == Some(
                    Ok::<Seq<(Seq<char>, TypeNode)>, ResolveErrorModel>(entries),
                ),
                inner@ == map_of_pairs(entries),
            decreases records.len() - i,
        {
            let record = &records[i];
            assert(all[i as int] == record@);
            proof {
                if !(resolved_entries(all, tags, max_depth as nat, (i + 1) as nat) matches Some(
                    Ok(_),
                )) {
                    lemma_resolved_entries_prefix(
                        all,
                        tags,
                        max_depth as nat,
                        (i + 1) as nat,
                        all.len(),
                    );
                }
            }
            let variant = match record.get_variant() {
                Some(variant) => variant,
                None => {
                    return Some(Err(ResolveError::UnknownVariant(record.variant.clone())));
                },
            };
            let alone = match variant {
                Variant::LocalVariable => true,
                Variant::BasicType => true,
                Variant::DerivedType => true,
                Variant::CompositeType => true,
                Variant::TemplateTypeParameter => true,
                Variant::DISubroutineType => true,
                _ => false,
            };
            if alone {
                match resolve_within_depth(record, records, &ir.multiple_tags_tag, max_depth) {
                    None => {
                        return None;
                    },
                    Some(Err(e)) => {
                        return Some(Err(e));
                    },
                    Some(Ok(parsed)) => {
                        proof {
                            lemma_map_of_pairs_push(entries, record.location_tag@, parsed@);
                            entries = entries.push((record.location_tag@, parsed@));
                        }
                        inner.insert(record.location_tag.clone(), parsed);
                    },
                }
            }
            i += 1;
        }
        Some(Ok(Ast { inner }))
    }

    /// Resolves every record of `ir` that stands alone, in the order of
    /// the records, up to the first that fails. Gives `None` where the
    /// records are resolved up to one whose resolution does not end: where
    /// records refer to each other in a circle. Where the resolution of
    /// every record that stands alone ends, the outcome is a map or a
    /// failure.
    pub fn try_build(ir: &LLVMIRMetadata) -> (r: Option<Result<Ast, ResolveError>>)
        requires
            ir.llvm_debug_type_information@.len() < usize::MAX,
        ensures
            match all_entries(
                ir@.llvm_debug_type_information,
                ir@.multiple_tags_tag,
                ir@.llvm_debug_type_information.len(),
            ) {
                None => r is None,
                Some(Err(e)) => r matches Some(Err(f)) && f@ == e,
                Some(Ok(entries)) => r matches Some(Ok(ast)) && ast@ == map_of_pairs(entries),
            },
            (forall|i: int|
                0 <= i < ir@.llvm_debug_type_information.len() && (variant_of_text(
                    (#[trigger] ir@.llvm_debug_type_information[i]).variant,
                ) matches Some(v) && stands_alone(v)) ==> resolution_ends(
                    ir@.llvm_debug_type_information[i],
                    ir@.llvm_debug_type_information,
                    ir@.multiple_tags_tag,
                )) ==> r is Some,
    {
        let depth = ir.llvm_debug_type_information.len() + 1;
        proof {
            let records = ir@.llvm_debug_type_information;
            lemma_entries_at_bound(records, ir@.multiple_tags_tag, records.len());
            if forall|i: int|
                0 <= i < records.len() && (variant_of_text((#[trigger] records[i]).variant)
                    matches Some(v) && stands_alone(v)) ==> resolution_ends(
                    records[i],
                    records,
                    ir@.multiple_tags_tag,
                ) {
                lemma_all_entries_end(records, ir@.multiple_tags_tag, records.len());
            }
        }
        Ast::build(ir, depth)
    }
}

/// A local value of the IR with its debug record and what it is made of.
#[derive(Debug)]
pub struct LocalVariableInfo {
    pub link: LLVMLocalTypeVariableDebugInfo,
    pub variable: DILocalVariable,
    pub basic_type: BasicTypeOrCompositeType,
}

/// The model of [`LocalVariableInfo`].
pub struct LocalVariableInfoModel {
    pub link: LinkModel,
    pub variable: LocalVariableModel,
    pub basic_type: LeafNode,
}

impl View for LocalVariableInfo {
    type V = LocalVariableInfoModel;

    open spec fn view(&self) -> LocalVariableInfoModel {
        LocalVariableInfoModel {
            link: self.link@,
            variable: self.variable@,
            basic_type: self.basic_type@,
        }
    }
}

/// The models of a list, in the same order.
pub open spec fn info_models(infos: Seq<LocalVariableInfo>) -> Seq<LocalVariableInfoModel> {
    Seq::new(infos.len(), |i: int| infos[i]@)
}

/// Why the local values of a file could not be described.
#[derive(Debug, PartialEq, Eq)]
pub enum AnalysisError {
    /// No resolved record has the tag that a link names.
    NoDebugInfo(String),
    /// The record with the tag that a link names is no local variable.
    NotLocalVariable(String),
    /// The type of a local variable could not be flattened.
    Flatten(FlattenError),
}

/// The model of [`AnalysisError`].
pub enum AnalysisErrorModel {
    NoDebugInfo(Seq<char>),
    NotLocalVariable(Seq<char>),
    Flatten(FlattenError),
}

impl View for AnalysisError {
    type V = AnalysisErrorModel;

    open spec fn view(&self) -> AnalysisErrorModel {
        match *self {
            AnalysisError::NoDebugInfo(tag) => AnalysisErrorModel::NoDebugInfo(tag@),
            AnalysisError::NotLocalVariable(tag) => AnalysisErrorModel::NotLocalVariable(tag@),
            AnalysisError::Flatten(e) => AnalysisErrorModel::Flatten(e),
        }
    }
}

/// What a link leads to: the local variable that its tag names among the
/// resolved records, and the leaf that this variable becomes.
pub open spec fn info_of_link(link: LinkModel, ast: Map<Seq<char>, TypeNode>) -> Result<
    LocalVariableInfoModel,
    AnalysisErrorModel,
> {
    if !ast.contains_key(link.location_tag) {
        Err(AnalysisErrorModel::NoDebugInfo(link.location_tag))
    } else {
        match ast[link.location_tag] {
            TypeNode::LocalVariable(variable) => match local_variable_leaf(variable) {
                Some(leaf) => Ok(LocalVariableInfoModel { link, variable, basic_type: leaf }),
                None => Err(AnalysisErrorModel::Flatten(FlattenError::SubroutineType)),
            },
            _ => Err(AnalysisErrorModel::NotLocalVariable(link.location_tag)),
        }
    }
}

/// What each link of a list leads to.
pub open spec fn info_items(links: Seq<LinkModel>, ast: Map<Seq<char>, TypeNode>) -> spec_fn(
    int,
) -> Result<LocalVariableInfoModel, AnalysisErrorModel> {
    |i: int| info_of_link(links[i], ast)
}

/// What the local values of a file are made of: for each link, in the
/// order of the links, what it leads to; or the first failure.
pub fn local_variable_types(ir: &LLVMIRMetadata, ast: &Ast) -> (r: Result<
    Vec<LocalVariableInfo>,
    AnalysisError,
>)
    ensures
        match collected(
            info_items(ir@.llvm_local_type_variable_debug_info, ast@),
            ir@.llvm_local_type_variable_debug_info.len(),
        ) {
            Ok(infos) => r matches Ok(list) && info_models(list@) == infos,
            Err(e) => r matches Err(f) && f@ == e,
        },
{
    let ghost links = ir@.llvm_local_type_variable_debug_info;
    let ghost items = info_items(links, ast@);
    let mut infos: Vec<LocalVariableInfo> = Vec::new();
    let mut i: usize = 0;
    assert(info_models(infos@) =~= Seq::<LocalVariableInfoModel>::empty());
    while i < ir.llvm_local_type_variable_debug_info.len()
        invariant
            i <= ir.llvm_local_type_variable_debug_info.len(),
            links == ir@.llvm_local_type_variable_debug_info,
            items == info_items(links, ast@),
            collected(items, i as nat) == Ok::<Seq<LocalVariableInfoModel>, AnalysisErrorModel>(
                info_models(infos@),
            ),
        decreases ir.llvm_local_type_variable_debug_info.len() - i,
    {
        let val = &ir.llvm_local_type_variable_debug_info[i];
        assert(links[i as int] == val@);
        assert(items(i as int) == info_of_link(val@, ast@));
        proof {
            if items(i as int) is Err {
                lemma_collected_failure(items, (i + 1) as nat, links.len());
            }
        }
        let debug_info = match ast.inner.get(val.location_tag.as_str()) {
            Some(debug_info) => debug_info,
            None => {
                return Err(AnalysisError::NoDebugInfo(val.location_tag.clone()));
            },
        };
        let local = match debug_info {
            TypeAST::DILocalVariable(local) => local,
            _ => {
                return Err(AnalysisError::NotLocalVariable(val.location_tag.clone()));
            },
        };
        let basic_type = match local_var_basic_type(local) {
            Ok(leaf) => leaf,
            Err(e) => {
                return Err(AnalysisError::Flatten(e));
            },
        };
        let ghost before = info_models(infos@);
        let info = LocalVariableInfo { link: val.clone(), variable: local.clone(), basic_type };
        infos.push(info);
        assert(info_models(infos@) =~= before.push(info@));
        i += 1;
    }
    Ok(infos)
}

} // verus!
