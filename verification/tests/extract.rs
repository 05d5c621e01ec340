use llvm_debug_ast::file_parser::{
    links_from_captures, parameters_from_captures, records_from_captures,
    tag_table_from_captures, tags_entry_from_groups, tags_from_captures,
};
use llvm_debug_ast::{
    extract_llvm_multiple_tags, extract_llvm_multiple_tags_tag, extract_llvm_to_rust_metadata,
    extract_rust_metadata, get_all_params, ExtractError, LLVMIRMetadata,
    LLVMLocalTypeVariableDebugInfo, MultipleTagsTag,
};

fn strings(items: &[&str]) -> Vec<String> {
    items.iter().map(|s| s.to_string()).collect()
}

fn groups(items: &[Option<&str>]) -> Vec<Option<String>> {
    items.iter().map(|s| s.map(|t| t.to_string())).collect()
}

#[test]
fn tags_of_a_list_in_source_order() {
    let table = extract_llvm_multiple_tags_tag("!5 = !{!1, !2, !3}\n").unwrap();
    assert_eq!(table.get("!5"), Some(&strings(&["!1", "!2", "!3"])));
    assert_eq!(table.entries().len(), 1);
}

#[test]
fn tags_keep_the_order_of_the_text_not_of_the_numbers() {
    let table = extract_llvm_multiple_tags_tag("!1488 = !{!1489, !1485, !7}").unwrap();
    assert_eq!(table.get("!1488"), Some(&strings(&["!1489", "!1485", "!7"])));
}

#[test]
fn empty_braces_give_an_empty_list() {
    let table = extract_llvm_multiple_tags_tag("!5 = !{}\n").unwrap();
    assert!(table.contains_key("!5"));
    assert_eq!(table.get("!5"), Some(&Vec::<String>::new()));
}

#[test]
fn several_lists_in_one_text() {
    let text = "!4 = !{}\n!50 = !{!51, !52}\n!60 = !{!61}\n";
    let table = extract_llvm_multiple_tags_tag(text).unwrap();
    assert_eq!(table.get("!4"), Some(&Vec::<String>::new()));
    assert_eq!(table.get("!50"), Some(&strings(&["!51", "!52"])));
    assert_eq!(table.get("!60"), Some(&strings(&["!61"])));
    assert_eq!(table.get("!51"), None);
}

#[test]
fn a_list_defined_twice_keeps_the_later() {
    let text = "!50 = !{!51}\n!50 = !{!52, !53}\n";
    let table = extract_llvm_multiple_tags_tag(text).unwrap();
    assert_eq!(table.get("!50"), Some(&strings(&["!52", "!53"])));
}

#[test]
fn lines_that_are_no_lists_are_skipped() {
    let text = "!5 = !DIBasicType(name: \"f64\", size: 64, encoding: DW_ATE_float)\n\
                define void @f() {\n!6 = !{!5}\n";
    let table = extract_llvm_multiple_tags_tag(text).unwrap();
    assert_eq!(table.get("!5"), None);
    assert_eq!(table.get("!6"), Some(&strings(&["!5"])));
    assert_eq!(table.entries().len(), 1);
}

#[test]
fn text_without_lists_gives_an_empty_table() {
    let table = extract_llvm_multiple_tags_tag("").unwrap();
    assert!(table.entries().is_empty());
}

#[test]
fn tags_inside_a_list() {
    assert_eq!(extract_llvm_multiple_tags("!1485, !1489"), Ok(strings(&["!1485", "!1489"])));
    assert_eq!(extract_llvm_multiple_tags("!7"), Ok(strings(&["!7"])));
    assert_eq!(extract_llvm_multiple_tags("null"), Ok(Vec::new()));
    assert_eq!(extract_llvm_multiple_tags(""), Ok(Vec::new()));
}

#[test]
fn tags_from_hand_made_matches() {
    let matches = vec![groups(&[Some("!1"), Some("!1")]), groups(&[Some("!22"), Some("!22")])];
    assert_eq!(tags_from_captures(&matches), Ok(strings(&["!1", "!22"])));
    assert_eq!(tags_from_captures(&Vec::new()), Ok(Vec::new()));
}

#[test]
fn a_match_with_a_wrong_number_of_groups_is_refused() {
    let three = vec![groups(&[Some("!1"), Some("!1"), Some("x")])];
    assert_eq!(tags_from_captures(&three), Err(ExtractError::MalformedMatch));
    let one = vec![groups(&[Some("!1")])];
    assert_eq!(tags_from_captures(&one), Err(ExtractError::MalformedMatch));
    let second_bad = vec![groups(&[Some("!1"), Some("!1")]), groups(&[])];
    assert_eq!(tags_from_captures(&second_bad), Err(ExtractError::MalformedMatch));
}

#[test]
fn a_match_whose_group_took_no_part_is_refused() {
    let matches = vec![groups(&[Some("!1"), None])];
    assert_eq!(tags_from_captures(&matches), Err(ExtractError::MalformedMatch));
}

#[test]
fn list_record_from_groups() {
    let entry = tags_entry_from_groups(&groups(&[
        Some("!50 = !{!51, !52}"),
        Some("!50"),
        Some("!51, !52"),
    ]));
    assert_eq!(
        entry,
        Ok(MultipleTagsTag { location_tag: "!50".to_string(), tags: strings(&["!51", "!52"]) })
    );
    let empty = tags_entry_from_groups(&groups(&[Some("!4 = !{}"), Some("!4"), None]));
    assert_eq!(empty, Ok(MultipleTagsTag { location_tag: "!4".to_string(), tags: Vec::new() }));
}

#[test]
fn list_record_with_wrong_groups_is_refused() {
    assert_eq!(
        tags_entry_from_groups(&groups(&[Some("x"), Some("!4")])),
        Err(ExtractError::MalformedMatch)
    );
    assert_eq!(
        tags_entry_from_groups(&groups(&[Some("x"), None, Some("!4")])),
        Err(ExtractError::MalformedMatch)
    );
    assert_eq!(
        tags_entry_from_groups(&groups(&[Some("x"), Some("!4"), None, None])),
        Err(ExtractError::MalformedMatch)
    );
}

#[test]
fn table_from_hand_made_matches() {
    let matches = vec![
        groups(&[Some("!4 = !{}"), Some("!4"), None]),
        groups(&[Some("!5 = !{!1}"), Some("!5"), Some("!1")]),
        groups(&[Some("!4 = !{!9}"), Some("!4"), Some("!9")]),
    ];
    let table = tag_table_from_captures(&matches).unwrap();
    assert_eq!(table.get("!4"), Some(&strings(&["!9"])));
    assert_eq!(table.get("!5"), Some(&strings(&["!1"])));
    let bad = vec![groups(&[Some("!4 = !{}"), Some("!4"), None]), groups(&[Some("x")])];
    assert_eq!(tag_table_from_captures(&bad).err(), Some(ExtractError::MalformedMatch));
}

#[test]
fn link_of_a_debug_value_statement() {
    let text = "  call void @llvm.dbg.value(metadata %\"std::fmt::Formatter\"* %f, \
                metadata !214, metadata !DIExpression()), !dbg !217\n";
    let links = extract_llvm_to_rust_metadata(text).unwrap();
    assert_eq!(
        links,
        vec![LLVMLocalTypeVariableDebugInfo {
            local_var_type: "%\"std::fmt::Formatter\"*".to_string(),
            local_var_name: "%f".to_string(),
            location_tag: "!214".to_string(),
        }]
    );
}

#[test]
fn links_in_the_order_of_the_text() {
    let text = "call void @llvm.dbg.value(metadata float* %b, metadata !1178, metadata !DIExpression()) #31, !dbg !1184\n\
                %x = add i64 1, 2\n\
                call void @llvm.dbg.value(metadata %Tensor* %left, metadata !1323, metadata !DIExpression()), !dbg !9\n\
                call void @llvm.dbg.value(metadata i64 %a, metadata !12, metadata !DIExpression()), !dbg !9\n";
    let links = extract_llvm_to_rust_metadata(text).unwrap();
    assert_eq!(links.len(), 3);
    assert_eq!(links[0].local_var_type, "float*");
    assert_eq!(links[0].local_var_name, "%b");
    assert_eq!(links[0].location_tag, "!1178");
    assert_eq!(links[1].local_var_type, "%Tensor*");
    assert_eq!(links[1].local_var_name, "%left");
    assert_eq!(links[1].location_tag, "!1323");
    assert_eq!(links[2].location_tag, "!12");
}

#[test]
fn statements_of_another_shape_give_no_link() {
    let text = "call void @llvm.dbg.declare(metadata float* %b, metadata !1178, metadata !DIExpression())\n\
                call void @llvm.dbg.value(metadata float* %b, metadata !1178, metadata !DIExpression(DW_OP_deref))\n\
                call void @llvm.dbg.value(metadata float* %b)\n";
    assert_eq!(extract_llvm_to_rust_metadata(text), Ok(Vec::new()));
}

#[test]
fn links_from_hand_made_matches() {
    let matches = vec![groups(&[Some("whole"), Some("float*"), Some("%b"), Some("!1178")])];
    assert_eq!(
        links_from_captures(&matches),
        Ok(vec![LLVMLocalTypeVariableDebugInfo {
            local_var_type: "float*".to_string(),
            local_var_name: "%b".to_string(),
            location_tag: "!1178".to_string(),
        }])
    );
    let short = vec![groups(&[Some("whole"), Some("float*"), Some("%b")])];
    assert_eq!(links_from_captures(&short), Err(ExtractError::MalformedMatch));
    let absent = vec![groups(&[Some("whole"), Some("float*"), None, Some("!1")])];
    assert_eq!(links_from_captures(&absent), Err(ExtractError::MalformedMatch));
}

#[test]
fn parameters_of_a_record() {
    let params = get_all_params(
        "tag: DW_TAG_pointer_type, name: \"&mut alloc::vec::Vec<f64>\", baseType: !6, size: 64, align: 64, dwarfAddressSpace: 0",
    )
    .unwrap();
    assert_eq!(params.get("tag"), Some(&"DW_TAG_pointer_type".to_string()));
    assert_eq!(params.get("name"), Some(&"\"&mut alloc::vec::Vec<f64>\"".to_string()));
    assert_eq!(params.get("baseType"), Some(&"!6".to_string()));
    assert_eq!(params.get("size"), Some(&"64".to_string()));
    assert_eq!(params.get("align"), Some(&"64".to_string()));
    assert_eq!(params.get("dwarfAddressSpace"), Some(&"0".to_string()));
    assert_eq!(params.get("elements"), None);
    assert_eq!(params.entries().len(), 6);
}

#[test]
fn a_key_that_stands_twice_keeps_the_later_value() {
    let params = get_all_params("size: 32, align: 8, size: 64").unwrap();
    assert_eq!(params.get("size"), Some(&"64".to_string()));
    assert_eq!(params.get("align"), Some(&"8".to_string()));
}

#[test]
fn a_trailing_comma_is_tolerated() {
    let params = get_all_params("count: 3, lowerBound: 0,").unwrap();
    assert_eq!(params.get("count"), Some(&"3".to_string()));
    assert_eq!(params.get("lowerBound"), Some(&"0".to_string()));
}

#[test]
fn a_comma_inside_quotes_ends_the_value() {
    let params = get_all_params("name: \"RawVec<f64, Global>\", file: !8").unwrap();
    assert_eq!(params.get("name"), Some(&"\"RawVec<f64".to_string()));
    assert_eq!(params.get("file"), Some(&"!8".to_string()));
}

#[test]
fn text_without_parameters_gives_none() {
    assert!(get_all_params("").unwrap().entries().is_empty());
    assert!(get_all_params("no parameters here").unwrap().entries().is_empty());
}

#[test]
fn parameters_from_hand_made_matches() {
    let matches = vec![
        groups(&[Some("a: 1,"), Some("a"), Some("1")]),
        groups(&[Some("b: 2"), Some("b"), Some("2")]),
        groups(&[Some("a: 3"), Some("a"), Some("3")]),
    ];
    let params = parameters_from_captures(&matches).unwrap();
    assert_eq!(params.get("a"), Some(&"3".to_string()));
    assert_eq!(params.get("b"), Some(&"2".to_string()));
    let short = vec![groups(&[Some("a: 1,"), Some("a")])];
    assert_eq!(parameters_from_captures(&short).err(), Some(ExtractError::MalformedMatch));
    let absent = vec![groups(&[Some("a: 1,"), None, Some("1")])];
    assert_eq!(parameters_from_captures(&absent).err(), Some(ExtractError::MalformedMatch));
}

#[test]
fn record_of_a_line() {
    let text = "!1298 = !DIDerivedType(tag: DW_TAG_pointer_type, name: \"*const f64\", baseType: !6, size: 64, align: 64, dwarfAddressSpace: 0)\n";
    let records = extract_rust_metadata(text).unwrap();
    assert_eq!(records.len(), 1);
    assert_eq!(records[0].location_tag, "!1298");
    assert_eq!(records[0].variant, "!DIDerivedType");
    assert_eq!(records[0].parameters.get("tag"), Some(&"DW_TAG_pointer_type".to_string()));
    assert_eq!(records[0].parameters.get("name"), Some(&"\"*const f64\"".to_string()));
    assert_eq!(records[0].parameters.get("baseType"), Some(&"!6".to_string()));
    assert_eq!(records[0].parameters.get("dwarfAddressSpace"), Some(&"0".to_string()));
}

#[test]
fn records_in_the_order_of_the_text() {
    let text = "!6 = !DIBasicType(name: \"f64\", size: 64, encoding: DW_ATE_float)\n\
                !50 = !{!51, !52}\n\
                !7 = !DIEnumerator(name: \"A\", value: 0)\n\
                !8 = !DISubrange(count: 3, lowerBound: 0)\n";
    let records = extract_rust_metadata(text).unwrap();
    assert_eq!(records.len(), 3);
    assert_eq!(records[0].location_tag, "!6");
    assert_eq!(records[0].variant, "!DIBasicType");
    assert_eq!(records[0].parameters.get("encoding"), Some(&"DW_ATE_float".to_string()));
    assert_eq!(records[1].location_tag, "!7");
    assert_eq!(records[1].variant, "!DIEnumerator");
    assert_eq!(records[1].parameters.get("value"), Some(&"0".to_string()));
    assert_eq!(records[2].location_tag, "!8");
    assert_eq!(records[2].parameters.get("lowerBound"), Some(&"0".to_string()));
}

#[test]
fn records_from_hand_made_matches() {
    let matches = vec![groups(&[
        Some("!6 = !DIBasicType(name: \"f64\", size: 64)"),
        Some("!6"),
        Some("!DIBasicType"),
        Some("name: \"f64\", size: 64"),
    ])];
    let records = records_from_captures(&matches).unwrap();
    assert_eq!(records.len(), 1);
    assert_eq!(records[0].location_tag, "!6");
    assert_eq!(records[0].variant, "!DIBasicType");
    assert_eq!(records[0].parameters.get("name"), Some(&"\"f64\"".to_string()));
    assert_eq!(records[0].parameters.get("size"), Some(&"64".to_string()));
    let short = vec![groups(&[Some("x"), Some("!6"), Some("!DIBasicType")])];
    assert_eq!(records_from_captures(&short).err(), Some(ExtractError::MalformedMatch));
    let absent = vec![groups(&[Some("x"), Some("!6"), None, Some("a: 1")])];
    assert_eq!(records_from_captures(&absent).err(), Some(ExtractError::MalformedMatch));
}

#[test]
fn all_of_one_file() {
    let text = "define void @f(float* %b) {\n\
                call void @llvm.dbg.value(metadata float* %b, metadata !10, metadata !DIExpression()), !dbg !99\n\
                }\n\
                !10 = !DILocalVariable(name: \"b\", arg: 1, scope: !3, file: !2, line: 7, type: !11)\n\
                !11 = !DIDerivedType(tag: DW_TAG_pointer_type, name: \"*mut f32\", baseType: !12, size: 64, align: 64)\n\
                !12 = !DIBasicType(name: \"f32\", size: 32, encoding: DW_ATE_float)\n\
                !13 = !{!11, !12}\n\
                !14 = !{}\n";
    let ir = LLVMIRMetadata::new(text).unwrap();
    assert_eq!(ir.llvm_local_type_variable_debug_info.len(), 1);
    assert_eq!(ir.llvm_local_type_variable_debug_info[0].location_tag, "!10");
    assert_eq!(ir.llvm_debug_type_information.len(), 3);
    assert_eq!(ir.llvm_debug_type_information[2].location_tag, "!12");
    assert_eq!(ir.multiple_tags_tag.get("!13"), Some(&strings(&["!11", "!12"])));
    assert_eq!(ir.multiple_tags_tag.get("!14"), Some(&Vec::<String>::new()));
    assert_eq!(ir.find_record("!11").map(|r| r.variant), Some("!DIDerivedType".to_string()));
    assert!(ir.find_record("!13").is_none());
}
