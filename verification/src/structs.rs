//! The data model: the records as they are read from the text, and the
//! resolved type trees that are built from them. Every type has a
//! mathematical model, which the contracts of the crate speak of.

use vstd::prelude::*;
use crate::table::TextMap;
use crate::text::str_eq;

verus! {

/// The text held by an optional string.
pub open spec fn text_of(s: Option<String>) -> Option<Seq<char>> {
    match s {
        Some(t) => Some(t@),
        None => None,
    }
}

/// A copy of an optional string.
pub fn clone_text(s: &Option<String>) -> (r: Option<String>)
    ensures
        r == *s,
{
    match s {
        Some(t) => Some(t.clone()),
        None => None,
    }
}

// ---------------------------------------------------------------------
// Raw records
// ---------------------------------------------------------------------

/// The link between a local value of the IR and its debug record, from a
/// line such as
/// `call void @llvm.dbg.value(metadata %Tensor* %left, metadata !1323, metadata !DIExpression())`.
#[derive(Debug, PartialEq, Eq)]
pub struct LLVMLocalTypeVariableDebugInfo {
    /// In the example above: `%Tensor*`
    pub local_var_type: String,
    /// In the example above: `%left`
    pub local_var_name: String,
    /// In the example above: `!1323`
    pub location_tag: String,
}

/// The model of [`LLVMLocalTypeVariableDebugInfo`].
pub struct LinkModel {
    pub local_var_type: Seq<char>,
    pub local_var_name: Seq<char>,
    pub location_tag: Seq<char>,
}

impl View for LLVMLocalTypeVariableDebugInfo {
    type V = LinkModel;

    open spec fn view(&self) -> LinkModel {
        LinkModel {
            local_var_type: self.local_var_type@,
            local_var_name: self.local_var_name@,
            location_tag: self.location_tag@,
        }
    }
}

impl Clone for LLVMLocalTypeVariableDebugInfo {
    fn clone(&self) -> (r: Self)
        ensures
            r == *self,
    {
        LLVMLocalTypeVariableDebugInfo {
            local_var_type: self.local_var_type.clone(),
            local_var_name: self.local_var_name.clone(),
            location_tag: self.location_tag.clone(),
        }
    }
}

/// One debug record, from a line such as
/// `!1298 = !DIDerivedType(tag: DW_TAG_pointer_type, baseType: !6, size: 64, align: 64)`.
#[derive(Debug)]
pub struct LLVMDebugTypeInformation {
    /// In the example above: `!1298`
    pub location_tag: String,
    /// In the example above: `!DIDerivedType`
    pub variant: String,
    /// Each `key: value` of the record, such as `tag` -> `DW_TAG_pointer_type`
    pub parameters: TextMap<String>,
}

/// The model of [`LLVMDebugTypeInformation`].
pub struct RecordModel {
    pub location_tag: Seq<char>,
    pub variant: Seq<char>,
    pub parameters: Map<Seq<char>, Seq<char>>,
}

impl View for LLVMDebugTypeInformation {
    type V = RecordModel;

    open spec fn view(&self) -> RecordModel {
        RecordModel {
            location_tag: self.location_tag@,
            variant: self.variant@,
            parameters: self.parameters@,
        }
    }
}

/// The models of a list of records, in the same order.
pub open spec fn record_models(records: Seq<LLVMDebugTypeInformation>) -> Seq<RecordModel> {
    Seq::new(records.len(), |i: int| records[i]@)
}

impl Clone for LLVMDebugTypeInformation {
    fn clone(&self) -> (r: Self)
        ensures
            r@ == self@,
    {
        LLVMDebugTypeInformation {
            location_tag: self.location_tag.clone(),
            variant: self.variant.clone(),
            parameters: self.parameters.clone(),
        }
    }
}

/// A record that only lists other records, from a line such as
/// `!1488 = !{!1485, !1489}`.
#[derive(Clone, Debug, PartialEq, Eq)]
pub struct MultipleTagsTag {
    pub location_tag: String,
    pub tags: Vec<String>,
}

/// What a record describes.
#[derive(Clone, Copy, Debug, PartialEq, Eq, Structural)]
pub enum Variant {
    LocalVariable,
    DISubroutineType,
    DerivedType,
    DILocation,
    DISubrange,
    DILexicalBlockFile,
    BasicType,
    CompositeType,
    TemplateTypeParameter,
    Namespace,
    File,
    GlobalVariableExpression,
    Enumerator,
}

/// The structural tag of a derived or composite type.
#[derive(Clone, Copy, Debug, PartialEq, Eq, Structural)]
pub enum Tag {
    TagPointerType,
    TagStructureType,
    TagMember,
    TagVariantPart,
    TagArrayType,
}

/// The variant that a record's variant name stands for, if any.
pub open spec fn variant_of_text(s: Seq<char>) -> Option<Variant> {
    if s == "!DILocalVariable"@ {
        Some(Variant::LocalVariable)
    } else if s == "!DISubroutineType"@ {
        Some(Variant::DISubroutineType)
    } else if s == "!DIDerivedType"@ {
        Some(Variant::DerivedType)
    } else if s == "!DIBasicType"@ {
        Some(Variant::BasicType)
    } else if s == "!DISubrange"@ {
        Some(Variant::DISubrange)
    } else if s == "!DILexicalBlockFile"@ {
        Some(Variant::DILexicalBlockFile)
    } else if s == "!DILocation"@ {
        Some(Variant::DILocation)
    } else if s == "!DICompositeType"@ {
        Some(Variant::CompositeType)
    } else if s == "!DITemplateTypeParameter"@ {
        Some(Variant::TemplateTypeParameter)
    } else if s == "!DINamespace"@ {
        Some(Variant::Namespace)
    } else if s == "!DIFile"@ {
        Some(Variant::File)
    } else if s == "!DIGlobalVariableExpression"@ {
        Some(Variant::GlobalVariableExpression)
    } else if s == "!DIEnumerator"@ {
        Some(Variant::Enumerator)
    } else {
        None
    }
}

/// The structural tag that the value of a `tag` parameter stands for, if
/// any. A tag is read from its DWARF name, such as `DW_TAG_pointer_type`;
/// the names `DwTagPointerType`, `DwTagStructureType`, `DwTagMember` and
/// `DwTagVariantPart` stand for the same tags.
pub open spec fn tag_of_text(s: Seq<char>) -> Option<Tag> {
    if s == "DW_TAG_pointer_type"@ || s == "DwTagPointerType"@ {
        Some(Tag::TagPointerType)
    } else if s == "DW_TAG_structure_type"@ || s == "DwTagStructureType"@ {
        Some(Tag::TagStructureType)
    } else if s == "DW_TAG_member"@ || s == "DwTagMember"@ {
        Some(Tag::TagMember)
    } else if s == "DW_TAG_variant_part"@ || s == "DwTagVariantPart"@ {
        Some(Tag::TagVariantPart)
    } else if s == "DW_TAG_array_type"@ {
        Some(Tag::TagArrayType)
    } else {
        None
    }
}

impl Variant {
    /// Reads a variant name. A name that stands for no variant is an
    /// error.
    pub fn try_from(variant_str: &str) -> (r: Result<Variant, ()>)
        ensures
            match variant_of_text(variant_str@) {
                Some(v) => r == Ok::<Variant, ()>(v),
                None => r is Err,
            },
    {
        if str_eq(variant_str, "!DILocalVariable") {
            Ok(Variant::LocalVariable)
        } else if str_eq(variant_str, "!DISubroutineType") {
            Ok(Variant::DISubroutineType)
        } else if str_eq(variant_str, "!DIDerivedType") {
            Ok(Variant::DerivedType)
        } else if str_eq(variant_str, "!DIBasicType") {
            Ok(Variant::BasicType)
        } else if str_eq(variant_str, "!DISubrange") {
            Ok(Variant::DISubrange)
        } else if str_eq(variant_str, "!DILexicalBlockFile") {
            Ok(Variant::DILexicalBlockFile)
        } else if str_eq(variant_str, "!DILocation") {
            Ok(Variant::DILocation)
        } else if str_eq(variant_str, "!DICompositeType") {
            Ok(Variant::CompositeType)
        } else if str_eq(variant_str, "!DITemplateTypeParameter") {
            Ok(Variant::TemplateTypeParameter)
        } else if str_eq(variant_str, "!DINamespace") {
            Ok(Variant::Namespace)
        } else if str_eq(variant_str, "!DIFile") {
            Ok(Variant::File)
        } else if str_eq(variant_str, "!DIGlobalVariableExpression") {
            Ok(Variant::GlobalVariableExpression)
        } else if str_eq(variant_str, "!DIEnumerator") {
            Ok(Variant::Enumerator)
        } else {
            Err(())
        }
    }
}

impl Tag {
    /// Reads the value of a `tag` parameter. A value that stands for no
    /// structural tag is an error.
    pub fn try_from(variant_str: &str) -> (r: Result<Tag, ()>)
        ensures
            match tag_of_text(variant_str@) {
                Some(t) => r == Ok::<Tag, ()>(t),
                None => r is Err,
            },
    {
        if str_eq(variant_str, "DW_TAG_pointer_type") || str_eq(variant_str, "DwTagPointerType") {
            Ok(Tag::TagPointerType)
        } else if str_eq(variant_str, "DW_TAG_structure_type") || str_eq(
            variant_str,
            "DwTagStructureType",
        ) {
            Ok(Tag::TagStructureType)
        } else if str_eq(variant_str, "DW_TAG_member") || str_eq(variant_str, "DwTagMember") {
            Ok(Tag::TagMember)
        } else if str_eq(variant_str, "DW_TAG_variant_part") || str_eq(
            variant_str,
            "DwTagVariantPart",
        ) {
            Ok(Tag::TagVariantPart)
        } else if str_eq(variant_str, "DW_TAG_array_type") {
            Ok(Tag::TagArrayType)
        } else {
            Err(())
        }
    }
}

impl LLVMDebugTypeInformation {
    /// What the record describes, where its variant name is known.
    pub fn get_variant(&self) -> (r: Option<Variant>)
        ensures
            r == variant_of_text(self@.variant),
    {
        match Variant::try_from(self.variant.as_str()) {
            Ok(v) => Some(v),
            Err(_) => None,
        }
    }

    /// The structural tag of the record: absent where the record has no
    /// `tag` parameter, and where its value stands for no tag.
    pub fn get_tag(&self) -> (r: Option<Tag>)
        ensures
            r == if self@.parameters.contains_key("tag"@) {
                tag_of_text(self@.parameters["tag"@])
            } else {
                None
            },
    {
        match self.parameters.get("tag") {
            Some(e) => match Tag::try_from(e.as_str()) {
                Ok(t) => Some(t),
                Err(_) => None,
            },
            None => None,
        }
    }

    /// The `name` parameter of the record, if it has one.
    pub fn get_name(&self) -> (r: Option<String>)
        ensures
            text_of(r) == if self@.parameters.contains_key("name"@) {
                Some(self@.parameters["name"@])
            } else {
                None
            },
    {
        match self.parameters.get("name") {
            Some(e) => Some(e.clone()),
            None => None,
        }
    }
}

/// Each variant is read from its own name.
pub proof fn lemma_variant_names()
    ensures
        variant_of_text("!DILocalVariable"@) == Some(Variant::LocalVariable),
        variant_of_text("!DISubroutineType"@) == Some(Variant::DISubroutineType),
        variant_of_text("!DIDerivedType"@) == Some(Variant::DerivedType),
        variant_of_text("!DIBasicType"@) == Some(Variant::BasicType),
        variant_of_text("!DISubrange"@) == Some(Variant::DISubrange),
        variant_of_text("!DILexicalBlockFile"@) == Some(Variant::DILexicalBlockFile),
        variant_of_text("!DILocation"@) == Some(Variant::DILocation),
        variant_of_text("!DICompositeType"@) == Some(Variant::CompositeType),
        variant_of_text("!DITemplateTypeParameter"@) == Some(Variant::TemplateTypeParameter),
        variant_of_text("!DINamespace"@) == Some(Variant::Namespace),
        variant_of_text("!DIFile"@) == Some(Variant::File),
        variant_of_text("!DIGlobalVariableExpression"@) == Some(Variant::GlobalVariableExpression),
        variant_of_text("!DIEnumerator"@) == Some(Variant::Enumerator),
{
    reveal_strlit("!DILocalVariable");
    reveal_strlit("!DISubroutineType");
    reveal_strlit("!DIDerivedType");
    reveal_strlit("!DIBasicType");
    reveal_strlit("!DISubrange");
    reveal_strlit("!DILexicalBlockFile");
    reveal_strlit("!DILocation");
    reveal_strlit("!DICompositeType");
    reveal_strlit("!DITemplateTypeParameter");
    reveal_strlit("!DINamespace");
    reveal_strlit("!DIFile");
    reveal_strlit("!DIGlobalVariableExpression");
    reveal_strlit("!DIEnumerator");
    assert("!DILocalVariable"@.len() == 16);
    assert("!DISubroutineType"@.len() == 17);
    assert("!DIDerivedType"@.len() == 14);
    assert("!DIBasicType"@.len() == 12);
    assert("!DISubrange"@.len() == 11);
    assert("!DILexicalBlockFile"@.len() == 19);
    assert("!DILocation"@.len() == 11);
    assert("!DICompositeType"@.len() == 16);
    assert("!DITemplateTypeParameter"@.len() == 24);
    assert("!DINamespace"@.len() == 12);
    assert("!DIFile"@.len() == 7);
    assert("!DIGlobalVariableExpression"@.len() == 27);
    assert("!DIEnumerator"@.len() == 13);
    // Names of one length differ in some letter.
    assert("!DILocalVariable"@[3] != "!DICompositeType"@[3]);
    assert("!DIBasicType"@[3] != "!DINamespace"@[3]);
    assert("!DISubrange"@[3] != "!DILocation"@[3]);
}

/// Each structural tag is read from its DWARF name, and from its other
/// name where it has one.
pub proof fn lemma_tag_names()
    ensures
        tag_of_text("DW_TAG_pointer_type"@) == Some(Tag::TagPointerType),
        tag_of_text("DwTagPointerType"@) == Some(Tag::TagPointerType),
        tag_of_text("DW_TAG_structure_type"@) == Some(Tag::TagStructureType),
        tag_of_text("DwTagStructureType"@) == Some(Tag::TagStructureType),
        tag_of_text("DW_TAG_member"@) == Some(Tag::TagMember),
        tag_of_text("DwTagMember"@) == Some(Tag::TagMember),
        tag_of_text("DW_TAG_variant_part"@) == Some(Tag::TagVariantPart),
        tag_of_text("DwTagVariantPart"@) == Some(Tag::TagVariantPart),
        tag_of_text("DW_TAG_array_type"@) == Some(Tag::TagArrayType),
{
    reveal_strlit("DW_TAG_pointer_type");
    reveal_strlit("DwTagPointerType");
    reveal_strlit("DW_TAG_structure_type");
    reveal_strlit("DwTagStructureType");
    reveal_strlit("DW_TAG_member");
    reveal_strlit("DwTagMember");
    reveal_strlit("DW_TAG_variant_part");
    reveal_strlit("DwTagVariantPart");
    reveal_strlit("DW_TAG_array_type");
    assert("DW_TAG_pointer_type"@.len() == 19);
    assert("DwTagPointerType"@.len() == 16);
    assert("DW_TAG_structure_type"@.len() == 21);
    assert("DwTagStructureType"@.len() == 18);
    assert("DW_TAG_member"@.len() == 13);
    assert("DwTagMember"@.len() == 11);
    assert("DW_TAG_variant_part"@.len() == 19);
    assert("DwTagVariantPart"@.len() == 16);
    assert("DW_TAG_array_type"@.len() == 17);
    // Names of one length differ in some letter.
    assert("DW_TAG_pointer_type"@[7] != "DW_TAG_variant_part"@[7]);
    assert("DwTagPointerType"@[5] != "DwTagVariantPart"@[5]);
}

} // verus!
