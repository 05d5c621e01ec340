//! Reconstruction of typed debug-information trees from the textual
//! metadata of LLVM IR.
//!
//! The text of an IR file is read into records ([`file_parser`]); a record
//! is resolved into a type tree by following its references to other
//! records ([`resolver`]); the tree of a local variable is flattened into
//! the basic types that it is made of ([`ir_parser`]). [`depth`] bounds
//! how deep a resolution can go, and [`laws`] says what holds of
//! resolution and flattening together.

pub mod analysis;
pub mod ast;
pub mod depth;
pub mod file_parser;
pub mod ir_parser;
pub mod laws;
pub mod resolver;
pub mod structs;
pub mod table;
pub mod text;

pub use analysis::{AnalysisError, Ast, LocalVariableInfo, local_variable_types};
pub use ast::{
    BaseType, CompositeTypeElements, DIBasicType, DICompositeType, DIDerivedType, DIEnumerator,
    DILocalVariable, DISubrange, DISubroutineType, DITemplateTypeParameter, Kind,
    LocalVariableTypes, Slot, TypeAST,
};
pub use file_parser::{
    ExtractError, LLVMIRMetadata, extract_llvm_multiple_tags, extract_llvm_multiple_tags_tag,
    extract_llvm_to_rust_metadata, extract_rust_metadata, get_all_params,
};
pub use ir_parser::{
    BasicPointerType, BasicType, BasicTypeOrCompositeType, FlattenError,
    composite_type_unroll_into_basic_types, derived_type_unroll_into_basic_types,
    local_var_basic_type, local_var_unroll_into_basic_types, single_leaf,
};
pub use depth::try_parse_llvm_debug_type_information;
pub use resolver::{
    ResolveError, get_rust_debug_metadata, parse_llvm_debug_type_information,
    resolve_within_depth,
};
pub use structs::{
    LLVMDebugTypeInformation, LLVMLocalTypeVariableDebugInfo, MultipleTagsTag, Tag, Variant,
};
pub use table::TextMap;
