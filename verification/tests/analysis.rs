use llvm_debug_ast::{
    local_variable_types, AnalysisError, Ast, BasicPointerType, BasicType,
    BasicTypeOrCompositeType, DIBasicType, FlattenError, LLVMIRMetadata, ResolveError, TypeAST,
};

const TEXT: &str = "define void @f(float* %b, i64 %n) {\n\
    call void @llvm.dbg.value(metadata float* %b, metadata !10, metadata !DIExpression()), !dbg !99\n\
    call void @llvm.dbg.value(metadata %Pair* %p, metadata !20, metadata !DIExpression()), !dbg !99\n\
    }\n\
    !2 = !DIFile(filename: \"lib.rs\", directory: \"/src\")\n\
    !10 = !DILocalVariable(name: \"b\", arg: 1, scope: !3, file: !2, line: 7, type: !11)\n\
    !11 = !DIDerivedType(tag: DW_TAG_pointer_type, name: \"*mut f32\", baseType: !12, size: 64, align: 64)\n\
    !12 = !DIBasicType(name: \"f32\", size: 32, encoding: DW_ATE_float)\n\
    !20 = !DILocalVariable(name: \"p\", scope: !3, file: !2, line: 8, type: !21)\n\
    !21 = !DICompositeType(tag: DW_TAG_structure_type, name: \"Pair\", file: !2, size: 64, align: 32, elements: !22, identifier: \"abc\")\n\
    !22 = !{!23, !24, !25}\n\
    !23 = !DIDerivedType(tag: DW_TAG_member, name: \"x\", scope: !21, file: !2, baseType: !12, size: 32, align: 32)\n\
    !24 = !DIEnumerator(name: \"A\", value: 0)\n\
    !25 = !DIDerivedType(tag: DW_TAG_member, name: \"y\", scope: !21, file: !2, baseType: !11, size: 64, align: 64)\n";

fn f32_type() -> DIBasicType {
    DIBasicType {
        encoding: "DW_ATE_float".to_string(),
        size: Some("32".to_string()),
        name: "\"f32\"".to_string(),
    }
}

#[test]
fn from_text_to_leaves() {
    let ir = LLVMIRMetadata::new(TEXT).unwrap();
    assert_eq!(ir.llvm_debug_type_information.len(), 9);
    let ast = Ast::build(&ir, 10).unwrap().unwrap();
    // The file is skipped, the enumerator is resolved only as an element.
    assert!(!ast.inner.contains_key("!2"));
    assert!(!ast.inner.contains_key("!24"));
    assert_eq!(ast.inner.get("!12"), Some(&TypeAST::DIBasicType(f32_type())));
    let infos = local_variable_types(&ir, &ast).unwrap();
    assert_eq!(infos.len(), 2);
    assert_eq!(infos[0].link.local_var_name, "%b");
    assert_eq!(infos[0].variable.name, Some("\"b\"".to_string()));
    assert_eq!(
        infos[0].basic_type,
        BasicTypeOrCompositeType::BasicPointerType(BasicPointerType { original: f32_type() })
    );
    assert_eq!(infos[1].link.local_var_name, "%p");
    assert_eq!(infos[1].link.location_tag, "!20");
    assert_eq!(
        infos[1].basic_type,
        BasicTypeOrCompositeType::Composite(
            "\"abc\"".to_string(),
            vec![
                BasicTypeOrCompositeType::BasicType(BasicType {
                    name_if_derived: Some("\"x\"".to_string()),
                    original: f32_type(),
                }),
                BasicTypeOrCompositeType::BasicPointerType(BasicPointerType {
                    original: f32_type(),
                }),
            ],
        )
    );
}

#[test]
fn too_small_a_depth_gives_nothing() {
    let ir = LLVMIRMetadata::new(TEXT).unwrap();
    // The deepest path holds five records: the variable `p`, its
    // structure, the member `y`, the pointer and the basic type.
    assert!(Ast::build(&ir, 0).is_none());
    assert!(Ast::build(&ir, 4).is_none());
    assert!(Ast::build(&ir, 5).unwrap().is_ok());
}

#[test]
fn the_depth_is_found_without_being_given() {
    let ir = LLVMIRMetadata::new(TEXT).unwrap();
    let ast = Ast::try_build(&ir).unwrap().unwrap();
    let by_depth = Ast::build(&ir, 5).unwrap().unwrap();
    assert_eq!(ast.inner.entries(), by_depth.inner.entries());
    assert_eq!(local_variable_types(&ir, &ast).unwrap().len(), 2);
    // A chain of all the records of a file: as deep as the records allow.
    let chain = "!1 = !DIDerivedType(tag: DW_TAG_member, baseType: !2, align: 8)\n\
                 !2 = !DIDerivedType(tag: DW_TAG_member, baseType: !3, align: 8)\n\
                 !3 = !DIBasicType(name: \"f32\", size: 32, encoding: DW_ATE_float)\n";
    let ir = LLVMIRMetadata::new(chain).unwrap();
    assert!(Ast::build(&ir, 2).is_none());
    let ast = Ast::try_build(&ir).unwrap().unwrap();
    assert!(ast.inner.contains_key("!1"));
    assert!(ast.inner.contains_key("!3"));
    let empty = LLVMIRMetadata::new("").unwrap();
    assert!(Ast::try_build(&empty).unwrap().unwrap().inner.entries().is_empty());
}

#[test]
fn a_circle_is_found_without_a_depth() {
    let text = "!1 = !DIDerivedType(tag: DW_TAG_member, baseType: !2, align: 8)\n\
                !2 = !DIDerivedType(tag: DW_TAG_member, baseType: !1, align: 8)\n";
    let ir = LLVMIRMetadata::new(text).unwrap();
    assert!(Ast::try_build(&ir).is_none());
    // A failure that comes before the circle is the outcome.
    let text = "!0 = !DIBasicType(name: \"f32\", size: 32)\n\
                !1 = !DIDerivedType(tag: DW_TAG_member, baseType: !2, align: 8)\n\
                !2 = !DIDerivedType(tag: DW_TAG_member, baseType: !1, align: 8)\n";
    let ir = LLVMIRMetadata::new(text).unwrap();
    assert_eq!(
        Ast::try_build(&ir).unwrap().err(),
        Some(ResolveError::MissingField("!0".to_string(), "encoding".to_string()))
    );
    // A circle among records that do not stand alone is never entered.
    let text = "!0 = !DIBasicType(name: \"f32\", size: 32, encoding: DW_ATE_float)\n\
                !9 = !DIFile(filename: \"lib.rs\", directory: \"/src\")\n";
    let ir = LLVMIRMetadata::new(text).unwrap();
    assert!(Ast::try_build(&ir).unwrap().is_ok());
}

#[test]
fn records_in_a_circle_give_nothing() {
    let text = "!1 = !DIDerivedType(tag: DW_TAG_member, baseType: !2, align: 8)\n\
                !2 = !DIDerivedType(tag: DW_TAG_member, baseType: !1, align: 8)\n";
    let ir = LLVMIRMetadata::new(text).unwrap();
    assert!(Ast::build(&ir, 3).is_none());
    assert!(Ast::build(&ir, 1000).is_none());
}

#[test]
fn the_first_failure_stops_the_resolution() {
    let text = "!1 = !DIBasicType(name: \"f32\", size: 32)\n\
                !2 = !DISubprogram(name: \"f\")\n";
    let ir = LLVMIRMetadata::new(text).unwrap();
    assert_eq!(
        Ast::build(&ir, 5).unwrap().err(),
        Some(ResolveError::MissingField("!1".to_string(), "encoding".to_string()))
    );
    let text = "!2 = !DISubprogram(name: \"f\")\n!1 = !DIBasicType(name: \"f32\", size: 32)\n";
    let ir = LLVMIRMetadata::new(text).unwrap();
    assert_eq!(
        Ast::build(&ir, 5).unwrap().err(),
        Some(ResolveError::UnknownVariant("!DISubprogram".to_string()))
    );
}

#[test]
fn a_tag_defined_twice_keeps_the_later_tree() {
    let text = "!1 = !DIBasicType(name: \"f32\", size: 32, encoding: DW_ATE_float)\n\
                !1 = !DIBasicType(name: \"f64\", size: 64, encoding: DW_ATE_float)\n";
    let ir = LLVMIRMetadata::new(text).unwrap();
    let ast = Ast::build(&ir, 5).unwrap().unwrap();
    assert_eq!(
        ast.inner.get("!1"),
        Some(&TypeAST::DIBasicType(DIBasicType {
            encoding: "DW_ATE_float".to_string(),
            size: Some("64".to_string()),
            name: "\"f64\"".to_string(),
        }))
    );
}

#[test]
fn links_without_a_local_variable_fail() {
    let text = "call void @llvm.dbg.value(metadata float* %b, metadata !10, metadata !DIExpression())\n\
                !12 = !DIBasicType(name: \"f32\", size: 32, encoding: DW_ATE_float)\n";
    let ir = LLVMIRMetadata::new(text).unwrap();
    let ast = Ast::build(&ir, 5).unwrap().unwrap();
    assert_eq!(
        local_variable_types(&ir, &ast).err(),
        Some(AnalysisError::NoDebugInfo("!10".to_string()))
    );
    let text = "call void @llvm.dbg.value(metadata float* %b, metadata !12, metadata !DIExpression())\n\
                !12 = !DIBasicType(name: \"f32\", size: 32, encoding: DW_ATE_float)\n";
    let ir = LLVMIRMetadata::new(text).unwrap();
    let ast = Ast::build(&ir, 5).unwrap().unwrap();
    assert_eq!(
        local_variable_types(&ir, &ast).err(),
        Some(AnalysisError::NotLocalVariable("!12".to_string()))
    );
}

#[test]
fn a_variable_of_a_subroutine_type_fails() {
    let text = "call void @llvm.dbg.value(metadata i8* %f, metadata !10, metadata !DIExpression())\n\
                !10 = !DILocalVariable(name: \"f\", scope: !3, file: !2, line: 7, type: !11)\n\
                !11 = !DIDerivedType(tag: DW_TAG_pointer_type, baseType: !12, size: 64, align: 64)\n\
                !12 = !DISubroutineType(types: !13)\n";
    let ir = LLVMIRMetadata::new(text).unwrap();
    let ast = Ast::build(&ir, 5).unwrap().unwrap();
    assert_eq!(
        local_variable_types(&ir, &ast).err(),
        Some(AnalysisError::Flatten(FlattenError::SubroutineType))
    );
}

#[test]
fn no_links_give_no_variables() {
    let ir = LLVMIRMetadata::new("").unwrap();
    let ast = Ast::build(&ir, 0).unwrap().unwrap();
    assert!(local_variable_types(&ir, &ast).unwrap().is_empty());
}
