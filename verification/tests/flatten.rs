use llvm_debug_ast::{
    composite_type_unroll_into_basic_types, derived_type_unroll_into_basic_types,
    local_var_basic_type, local_var_unroll_into_basic_types, single_leaf, BaseType,
    BasicPointerType, BasicType, BasicTypeOrCompositeType, CompositeTypeElements, DIBasicType,
    DICompositeType, DIDerivedType, DIEnumerator, DILocalVariable, DISubrange, DISubroutineType,
    FlattenError, LocalVariableTypes, Tag,
};

fn basic(name: &str) -> DIBasicType {
    DIBasicType {
        encoding: "DW_ATE_float".to_string(),
        size: Some("64".to_string()),
        name: name.to_string(),
    }
}

fn derived(tag: &str, name: Option<&str>, base: BaseType) -> DIDerivedType {
    DIDerivedType {
        tag: tag.to_string(),
        align: "64".to_string(),
        dwarf_address_space: None,
        size: None,
        name: name.map(|n| n.to_string()),
        base_type: Box::new(base),
    }
}

fn composite(identifier: Option<&str>, elements: Vec<CompositeTypeElements>) -> DICompositeType {
    DICompositeType {
        tag: "DW_TAG_structure_type".to_string(),
        identifier: identifier.map(|n| n.to_string()),
        elements,
        vtable_holder: None,
        flags: None,
        name: Some("\"S\"".to_string()),
        file: None,
        align: "64".to_string(),
    }
}

fn variable(ty: LocalVariableTypes) -> DILocalVariable {
    DILocalVariable {
        file: "!2".to_string(),
        name: Some("\"v\"".to_string()),
        arg: None,
        line: "7".to_string(),
        ty,
        scope: "!3".to_string(),
    }
}

fn pointer_leaf(name: &str) -> BasicTypeOrCompositeType {
    BasicTypeOrCompositeType::BasicPointerType(BasicPointerType { original: basic(name) })
}

fn basic_leaf(derived_name: Option<&str>, name: &str) -> BasicTypeOrCompositeType {
    BasicTypeOrCompositeType::BasicType(BasicType {
        name_if_derived: derived_name.map(|n| n.to_string()),
        original: basic(name),
    })
}

fn enumerator() -> CompositeTypeElements {
    CompositeTypeElements::DIEnumerator(DIEnumerator {
        name: "\"A\"".to_string(),
        value: "0".to_string(),
    })
}

fn subrange() -> CompositeTypeElements {
    CompositeTypeElements::DISubrange(DISubrange {
        count: "3".to_string(),
        lower_bound: "0".to_string(),
    })
}

fn subroutine() -> BaseType {
    BaseType::DISubroutineType(DISubroutineType { types: "!4".to_string() })
}

#[test]
fn pointer_to_basic_is_a_pointer_leaf() {
    let d = derived("DW_TAG_pointer_type", Some("\"*const f64\""), BaseType::DIBasicType(basic("f64")));
    let mut result = Vec::new();
    assert_eq!(derived_type_unroll_into_basic_types(&d, &mut result), Ok(()));
    assert_eq!(result, vec![pointer_leaf("f64")]);
}

#[test]
fn the_tag_is_read_as_the_structural_tag() {
    // Both names of the tag of pointers give a pointer leaf.
    let d = derived("DwTagPointerType", Some("\"p\""), BaseType::DIBasicType(basic("f64")));
    let mut result = Vec::new();
    assert_eq!(derived_type_unroll_into_basic_types(&d, &mut result), Ok(()));
    assert_eq!(result, vec![pointer_leaf("f64")]);
    assert_eq!(Tag::try_from(d.tag.as_str()), Ok(Tag::TagPointerType));
    // A tag that only looks alike is no pointer.
    for tag in ["DW_TAG_pointer_typ", "DW_TAG_pointer_type ", "dw_tag_pointer_type", ""] {
        let d = derived(tag, Some("\"p\""), BaseType::DIBasicType(basic("f64")));
        let mut result = Vec::new();
        assert_eq!(derived_type_unroll_into_basic_types(&d, &mut result), Ok(()));
        assert_eq!(result, vec![basic_leaf(Some("\"p\""), "f64")]);
    }
    // Another structural tag is no pointer either.
    for tag in ["DW_TAG_member", "DW_TAG_structure_type", "DW_TAG_array_type", "DwTagMember"] {
        let d = derived(tag, None, BaseType::DIBasicType(basic("f64")));
        let mut result = Vec::new();
        assert_eq!(derived_type_unroll_into_basic_types(&d, &mut result), Ok(()));
        assert_eq!(result, vec![basic_leaf(None, "f64")]);
    }
}

#[test]
fn renamed_basic_carries_the_name() {
    let d = derived("DW_TAG_typedef", Some("\"Real\""), BaseType::DIBasicType(basic("f64")));
    let mut result = Vec::new();
    assert_eq!(derived_type_unroll_into_basic_types(&d, &mut result), Ok(()));
    assert_eq!(result, vec![basic_leaf(Some("\"Real\""), "f64")]);
    let unnamed = derived("DW_TAG_member", None, BaseType::DIBasicType(basic("f64")));
    let mut result = Vec::new();
    assert_eq!(derived_type_unroll_into_basic_types(&unnamed, &mut result), Ok(()));
    assert_eq!(result, vec![basic_leaf(None, "f64")]);
}

#[test]
fn the_derived_type_directly_above_the_basic_type_decides() {
    let member_of_pointer = derived(
        "DW_TAG_member",
        Some("\"ptr\""),
        BaseType::DIDerivedType(derived(
            "DW_TAG_pointer_type",
            Some("\"*const f64\""),
            BaseType::DIBasicType(basic("f64")),
        )),
    );
    let mut result = Vec::new();
    assert_eq!(derived_type_unroll_into_basic_types(&member_of_pointer, &mut result), Ok(()));
    assert_eq!(result, vec![pointer_leaf("f64")]);
    let pointer_to_renamed = derived(
        "DW_TAG_pointer_type",
        Some("\"*const Real\""),
        BaseType::DIDerivedType(derived(
            "DW_TAG_typedef",
            Some("\"Real\""),
            BaseType::DIBasicType(basic("f64")),
        )),
    );
    let mut result = Vec::new();
    assert_eq!(derived_type_unroll_into_basic_types(&pointer_to_renamed, &mut result), Ok(()));
    assert_eq!(result, vec![basic_leaf(Some("\"Real\""), "f64")]);
}

#[test]
fn leaves_are_appended() {
    let d = derived("DW_TAG_pointer_type", None, BaseType::DIBasicType(basic("f64")));
    let mut result = vec![basic_leaf(None, "u8")];
    assert_eq!(derived_type_unroll_into_basic_types(&d, &mut result), Ok(()));
    assert_eq!(result, vec![basic_leaf(None, "u8"), pointer_leaf("f64")]);
    assert_eq!(
        composite_type_unroll_into_basic_types(&composite(None, Vec::new()), &mut result),
        Ok(())
    );
    assert_eq!(result.len(), 3);
    assert_eq!(result[2], BasicTypeOrCompositeType::Composite(String::new(), Vec::new()));
}

#[test]
fn empty_tree() {
    let c = composite(Some("\"70467b\""), Vec::new());
    let mut result = Vec::new();
    assert_eq!(composite_type_unroll_into_basic_types(&c, &mut result), Ok(()));
    assert_eq!(
        result,
        vec![BasicTypeOrCompositeType::Composite("\"70467b\"".to_string(), Vec::new())]
    );
}

#[test]
fn composite_of_two_members_in_order() {
    let c = composite(
        Some("\"abc\""),
        vec![
            CompositeTypeElements::DIDerivedType(derived(
                "DW_TAG_member",
                Some("\"x\""),
                BaseType::DIBasicType(basic("f64")),
            )),
            CompositeTypeElements::DIDerivedType(derived(
                "DW_TAG_pointer_type",
                Some("\"y\""),
                BaseType::DIBasicType(basic("usize")),
            )),
        ],
    );
    let mut result = Vec::new();
    assert_eq!(composite_type_unroll_into_basic_types(&c, &mut result), Ok(()));
    assert_eq!(
        result,
        vec![BasicTypeOrCompositeType::Composite(
            "\"abc\"".to_string(),
            vec![basic_leaf(Some("\"x\""), "f64"), pointer_leaf("usize")],
        )]
    );
}

#[test]
fn enumerators_and_subranges_are_dropped() {
    let member = |name: &str| {
        CompositeTypeElements::DIDerivedType(derived(
            "DW_TAG_member",
            Some(name),
            BaseType::DIBasicType(basic("f64")),
        ))
    };
    let c = composite(None, vec![member("\"a\""), enumerator(), member("\"b\"")]);
    let mut result = Vec::new();
    assert_eq!(composite_type_unroll_into_basic_types(&c, &mut result), Ok(()));
    assert_eq!(
        result,
        vec![BasicTypeOrCompositeType::Composite(
            String::new(),
            vec![basic_leaf(Some("\"a\""), "f64"), basic_leaf(Some("\"b\""), "f64")],
        )]
    );
    let only_dropped = composite(None, vec![subrange(), enumerator(), subrange()]);
    let mut result = Vec::new();
    assert_eq!(composite_type_unroll_into_basic_types(&only_dropped, &mut result), Ok(()));
    assert_eq!(result, vec![BasicTypeOrCompositeType::Composite(String::new(), Vec::new())]);
    // With or without the dropped elements the group is the same.
    let with = composite(None, vec![subrange(), member("\"a\""), enumerator()]);
    let without = composite(None, vec![member("\"a\"")]);
    let mut left = Vec::new();
    let mut right = Vec::new();
    assert_eq!(composite_type_unroll_into_basic_types(&with, &mut left), Ok(()));
    assert_eq!(composite_type_unroll_into_basic_types(&without, &mut right), Ok(()));
    assert_eq!(left, right);
}

#[test]
fn composites_nest() {
    let inner = composite(
        Some("\"inner\""),
        vec![CompositeTypeElements::DIDerivedType(derived(
            "DW_TAG_pointer_type",
            None,
            BaseType::DIBasicType(basic("f64")),
        ))],
    );
    let outer = composite(
        Some("\"outer\""),
        vec![
            CompositeTypeElements::DIDerivedType(derived(
                "DW_TAG_member",
                Some("\"buf\""),
                BaseType::DICompositeType(inner.clone()),
            )),
            CompositeTypeElements::DICompositeType(composite(None, Vec::new())),
            CompositeTypeElements::DIDerivedType(derived(
                "DW_TAG_member",
                Some("\"len\""),
                BaseType::DIBasicType(basic("usize")),
            )),
        ],
    );
    let mut result = Vec::new();
    assert_eq!(composite_type_unroll_into_basic_types(&outer, &mut result), Ok(()));
    assert_eq!(
        result,
        vec![BasicTypeOrCompositeType::Composite(
            "\"outer\"".to_string(),
            vec![
                BasicTypeOrCompositeType::Composite(
                    "\"inner\"".to_string(),
                    vec![pointer_leaf("f64")],
                ),
                BasicTypeOrCompositeType::Composite(String::new(), Vec::new()),
                basic_leaf(Some("\"len\""), "usize"),
            ],
        )]
    );
}

#[test]
fn a_subroutine_type_cannot_be_flattened() {
    let d = derived("DW_TAG_pointer_type", None, subroutine());
    let mut result = vec![pointer_leaf("f64")];
    assert_eq!(
        derived_type_unroll_into_basic_types(&d, &mut result),
        Err(FlattenError::SubroutineType)
    );
    assert_eq!(result, vec![pointer_leaf("f64")]);
    let c = composite(
        None,
        vec![
            CompositeTypeElements::DIDerivedType(derived(
                "DW_TAG_member",
                None,
                BaseType::DIBasicType(basic("f64")),
            )),
            CompositeTypeElements::DIDerivedType(d.clone()),
        ],
    );
    assert_eq!(
        composite_type_unroll_into_basic_types(&c, &mut result),
        Err(FlattenError::SubroutineType)
    );
    assert_eq!(result, vec![pointer_leaf("f64")]);
    let v = variable(LocalVariableTypes::DIDerivedType(derived(
        "DW_TAG_member",
        None,
        BaseType::DIDerivedType(d),
    )));
    assert_eq!(
        local_var_unroll_into_basic_types(&v, &mut result),
        Err(FlattenError::SubroutineType)
    );
    assert_eq!(result, vec![pointer_leaf("f64")]);
    assert_eq!(local_var_basic_type(&v), Err(FlattenError::SubroutineType));
}

#[test]
fn a_local_variable_gives_one_leaf() {
    let cases = vec![
        (variable(LocalVariableTypes::DIBasicType(basic("f64"))), basic_leaf(None, "f64")),
        (
            variable(LocalVariableTypes::DIDerivedType(derived(
                "DW_TAG_pointer_type",
                Some("\"&f64\""),
                BaseType::DIBasicType(basic("f64")),
            ))),
            pointer_leaf("f64"),
        ),
        (
            variable(LocalVariableTypes::DIDerivedType(derived(
                "DW_TAG_typedef",
                Some("\"Real\""),
                BaseType::DIBasicType(basic("f64")),
            ))),
            basic_leaf(Some("\"Real\""), "f64"),
        ),
        (
            variable(LocalVariableTypes::DICompositeType(composite(
                Some("\"id\""),
                vec![enumerator()],
            ))),
            BasicTypeOrCompositeType::Composite("\"id\"".to_string(), Vec::new()),
        ),
        (
            variable(LocalVariableTypes::DIDerivedType(derived(
                "DW_TAG_pointer_type",
                None,
                BaseType::DICompositeType(composite(
                    None,
                    vec![
                        CompositeTypeElements::DIDerivedType(derived(
                            "DW_TAG_member",
                            None,
                            BaseType::DIBasicType(basic("a")),
                        )),
                        CompositeTypeElements::DIDerivedType(derived(
                            "DW_TAG_member",
                            None,
                            BaseType::DIBasicType(basic("b")),
                        )),
                    ],
                )),
            ))),
            BasicTypeOrCompositeType::Composite(
                String::new(),
                vec![basic_leaf(None, "a"), basic_leaf(None, "b")],
            ),
        ),
    ];
    for (var, leaf) in cases {
        let mut result = Vec::new();
        assert_eq!(local_var_unroll_into_basic_types(&var, &mut result), Ok(()));
        assert_eq!(result.len(), 1);
        assert_eq!(result[0], leaf);
        assert_eq!(local_var_basic_type(&var), Ok(leaf));
    }
}

#[test]
fn one_leaf_is_asked_for() {
    assert_eq!(single_leaf(Vec::new()), Err(FlattenError::LeafCount(0)));
    assert_eq!(single_leaf(vec![pointer_leaf("f64")]), Ok(pointer_leaf("f64")));
    assert_eq!(
        single_leaf(vec![pointer_leaf("f64"), basic_leaf(None, "u8")]),
        Err(FlattenError::LeafCount(2))
    );
    // A list that was not empty before a variable was flattened into it
    // holds two leaves afterwards, and is refused.
    let mut result = vec![basic_leaf(None, "u8")];
    let v = variable(LocalVariableTypes::DIBasicType(basic("f64")));
    assert_eq!(local_var_unroll_into_basic_types(&v, &mut result), Ok(()));
    assert_eq!(single_leaf(result), Err(FlattenError::LeafCount(2)));
}

#[test]
fn copies_are_equal() {
    let leaf = BasicTypeOrCompositeType::Composite(
        "\"outer\"".to_string(),
        vec![pointer_leaf("f64"), basic_leaf(Some("\"n\""), "usize")],
    );
    assert_eq!(leaf.clone(), leaf);
    let v = variable(LocalVariableTypes::DIDerivedType(derived(
        "DW_TAG_member",
        Some("\"m\""),
        BaseType::DICompositeType(composite(Some("\"c\""), vec![enumerator(), subrange()])),
    )));
    assert_eq!(v.clone(), v);
}
