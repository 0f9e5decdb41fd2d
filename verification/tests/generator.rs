use effy::binding::{derive_new_free, derive_primitive, derive_string, derive_struct};
use effy::names::{
    alias_name, base_name, constructor_name, destructor_name, getter_name, push_mapped,
    setter_name,
};
use effy::schema::{classify, primitive_kind};
use effy::{
    derive_effy, Classification, DataShape, DeriveInput, FieldSchema, FieldShape, GenError,
    PathSegment, PrimitiveKind, TypeExpr,
};

fn path(segments: &[&str]) -> TypeExpr {
    TypeExpr::Path(
        segments
            .iter()
            .map(|s| PathSegment { ident: s.to_string(), has_arguments: false })
            .collect(),
    )
}

fn generic(segments: &[(&str, bool)]) -> TypeExpr {
    TypeExpr::Path(
        segments
            .iter()
            .map(|(s, has_arguments)| PathSegment {
                ident: s.to_string(),
                has_arguments: *has_arguments,
            })
            .collect(),
    )
}

fn named(name: &str, ty: TypeExpr) -> FieldSchema {
    FieldSchema { name: Some(name.to_string()), ty }
}

fn unnamed(ty: TypeExpr) -> FieldSchema {
    FieldSchema { name: None, ty }
}

fn structure(ident: &str, fields: Vec<FieldSchema>) -> DeriveInput {
    DeriveInput { ident: ident.to_string(), data: DataShape::Struct(fields) }
}

const KINDS: [(PrimitiveKind, &str); 13] = [
    (PrimitiveKind::U8, "u8"),
    (PrimitiveKind::U16, "u16"),
    (PrimitiveKind::U32, "u32"),
    (PrimitiveKind::U64, "u64"),
    (PrimitiveKind::U128, "u128"),
    (PrimitiveKind::I8, "i8"),
    (PrimitiveKind::I16, "i16"),
    (PrimitiveKind::I32, "i32"),
    (PrimitiveKind::I64, "i64"),
    (PrimitiveKind::I128, "i128"),
    (PrimitiveKind::F32, "f32"),
    (PrimitiveKind::F64, "f64"),
    (PrimitiveKind::Bool, "bool"),
];

#[test]
fn base_name_splits_on_uppercase() {
    assert_eq!(base_name("MyLongStructName"), "my_long_struct_name");
    assert_eq!(base_name("TestStruct"), "test_struct");
}

#[test]
fn base_name_is_total_and_deterministic() {
    assert_eq!(base_name(""), "");
    assert_eq!(base_name("lower"), "lower");
    assert_eq!(base_name("X"), "x");
    assert_eq!(base_name("ABC"), "a_b_c");
    assert_eq!(base_name("snake_Case9"), "snake__case9");
    assert_eq!(base_name("MyLongStructName"), base_name("MyLongStructName"));
}

#[test]
fn only_the_empty_identifier_has_an_empty_base_name() {
    assert!(base_name("").is_empty());
    for ident in ["a", "A", "_", "\u{130}", "\u{1f600}", "Z9"] {
        assert!(!base_name(ident).is_empty());
    }
}

#[test]
fn base_name_folds_case_beyond_ascii() {
    assert_eq!(base_name("\u{c9}cole"), "\u{e9}cole");
    assert_eq!(base_name("a\u{c9}"), "a_\u{e9}");
    assert_eq!(base_name("\u{394}\u{394}"), "\u{3b4}_\u{3b4}");
    // U+0130 lowercases to two characters.
    assert_eq!(base_name("A\u{130}"), "a_i\u{307}");
}

#[test]
fn push_mapped_appends_one_character() {
    let mut name = "ab".to_string();
    push_mapped(&mut name, false, true, &vec!['c']);
    assert_eq!(name, "ab_c");
    push_mapped(&mut name, true, true, &vec!['d']);
    assert_eq!(name, "ab_cd");
    push_mapped(&mut name, false, false, &vec!['i', '\u{307}']);
    assert_eq!(name, "ab_cdi\u{307}");
    push_mapped(&mut name, false, true, &vec![]);
    assert_eq!(name, "ab_cdi\u{307}_");
}

#[test]
fn function_names_follow_the_base_name() {
    assert_eq!(alias_name("my_struct"), "my_struct_t");
    assert_eq!(constructor_name("my_struct"), "my_struct_new");
    assert_eq!(destructor_name("my_struct"), "my_struct_free");
    assert_eq!(getter_name("my_struct", "field"), "my_struct_field");
    assert_eq!(setter_name("my_struct", "field"), "my_struct_set_field");
    assert_eq!(getter_name("", ""), "_");
    assert_eq!(setter_name("", ""), "_set_");
}

#[test]
fn every_primitive_is_classified_under_its_name() {
    for (kind, name) in KINDS {
        assert_eq!(kind.written_name(), name);
        assert_eq!(primitive_kind(name), Some(kind));
        assert_eq!(classify(&path(&[name])), Some(Classification::Primitive(kind)));
    }
    assert_eq!(primitive_kind("String"), None);
    assert_eq!(primitive_kind("U8"), None);
    assert_eq!(primitive_kind(""), None);
}

#[test]
fn text_is_recognized_by_the_last_segment() {
    assert_eq!(classify(&path(&["String"])), Some(Classification::Text));
    assert_eq!(classify(&path(&["std", "string", "String"])), Some(Classification::Text));
    assert_eq!(classify(&path(&["String", "Other"])), Some(Classification::Unsupported));
}

#[test]
fn other_named_types_are_unsupported() {
    assert_eq!(classify(&path(&["Vec"])), Some(Classification::Unsupported));
    assert_eq!(classify(&path(&["usize"])), Some(Classification::Unsupported));
    assert_eq!(classify(&path(&["isize"])), Some(Classification::Unsupported));
    assert_eq!(classify(&path(&["str"])), Some(Classification::Unsupported));
    assert_eq!(classify(&path(&["core", "primitive", "u8"])), Some(Classification::Unsupported));
}

#[test]
fn a_type_that_is_no_named_path_has_no_classification() {
    assert_eq!(classify(&TypeExpr::Other), None);
    assert_eq!(classify(&path(&[])), None);
}

#[test]
fn a_path_with_generic_arguments_has_no_classification() {
    assert_eq!(classify(&generic(&[("Vec", true)])), None);
    assert_eq!(classify(&generic(&[("u8", true)])), None);
    assert_eq!(classify(&generic(&[("String", true)])), None);
    assert_eq!(classify(&generic(&[("std", false), ("vec", false), ("Vec", true)])), None);
    assert_eq!(classify(&generic(&[("Outer", true), ("String", false)])), None);
    assert_eq!(
        classify(&generic(&[("std", false), ("string", false), ("String", false)])),
        Some(Classification::Text)
    );
}

#[test]
fn lifecycle_emits_constructor_and_destructor() {
    let lifecycle = derive_new_free("my_struct", "my_struct_t");
    assert_eq!(lifecycle.constructor.name, "my_struct_new");
    assert_eq!(lifecycle.constructor.handle, "my_struct_t");
    assert_eq!(lifecycle.destructor.name, "my_struct_free");
    assert_eq!(lifecycle.destructor.handle, "my_struct_t");
}

#[test]
fn primitive_accessors_carry_the_field_type() {
    let pair = derive_primitive("my_struct", "my_struct_t", "count", PrimitiveKind::I64);
    assert_eq!(pair.field, "count");
    assert_eq!(pair.shape, FieldShape::Primitive(PrimitiveKind::I64));
    assert_eq!(pair.getter.name, "my_struct_count");
    assert_eq!(pair.getter.handle, "my_struct_t");
    assert_eq!(pair.setter.name, "my_struct_set_count");
    assert_eq!(pair.setter.handle, "my_struct_t");
}

#[test]
fn text_accessors_have_the_text_shape() {
    let pair = derive_string("my_struct", "my_struct_t", "label");
    assert_eq!(pair.field, "label");
    assert_eq!(pair.shape, FieldShape::Text);
    assert_eq!(pair.getter.name, "my_struct_label");
    assert_eq!(pair.setter.name, "my_struct_set_label");
    assert_eq!(pair.setter.handle, "my_struct_t");
}

#[test]
fn unsupported_fields_are_skipped_and_recorded() {
    let fields = vec![
        named("a", path(&["u8"])),
        named("b", path(&["Vec"])),
        named("c", path(&["String"])),
        named("d", path(&["usize"])),
        named("e", path(&["bool"])),
    ];
    let plan = derive_struct("s", "s_t", &fields).unwrap();
    let emitted: Vec<(&str, FieldShape)> =
        plan.accessors.iter().map(|p| (p.field.as_str(), p.shape)).collect();
    assert_eq!(
        emitted,
        vec![
            ("a", FieldShape::Primitive(PrimitiveKind::U8)),
            ("c", FieldShape::Text),
            ("e", FieldShape::Primitive(PrimitiveKind::Bool)),
        ]
    );
    assert_eq!(plan.skipped, vec!["b".to_string(), "d".to_string()]);
    assert_eq!(plan.accessors.len() + plan.skipped.len(), fields.len());
}

#[test]
fn the_first_unreadable_field_aborts_generation() {
    let fields = vec![
        named("a", path(&["u8"])),
        named("b", path(&["Vec"])),
        named("c", TypeExpr::Other),
        named("d", TypeExpr::Other),
    ];
    assert_eq!(
        derive_struct("s", "s_t", &fields).err(),
        Some(GenError::UnexpectedFieldType { field: 2 })
    );
    assert_eq!(
        derive_effy(&structure("S", fields)).err(),
        Some(GenError::UnexpectedFieldType { field: 2 })
    );
    let empty_path = vec![named("a", path(&[]))];
    assert_eq!(
        derive_effy(&structure("S", empty_path)).err(),
        Some(GenError::UnexpectedFieldType { field: 0 })
    );
    let with_arguments = vec![named("a", path(&["u8"])), named("b", generic(&[("Vec", true)]))];
    assert_eq!(
        derive_effy(&structure("S", with_arguments)).err(),
        Some(GenError::UnexpectedFieldType { field: 1 })
    );
}

#[test]
fn a_getter_named_like_a_setter_aborts_generation() {
    let fields = vec![named("a", path(&["u8"])), named("set_a", path(&["u8"]))];
    assert_eq!(
        derive_struct("s", "s_t", &fields).err(),
        Some(GenError::NameCollision { field: 1 })
    );
    assert_eq!(
        derive_effy(&structure("S", fields)).err(),
        Some(GenError::NameCollision { field: 1 })
    );
    let reversed = vec![
        named("x", path(&["bool"])),
        named("set_a", path(&["String"])),
        named("y", path(&["Vec"])),
        named("a", path(&["u8"])),
    ];
    assert_eq!(
        derive_effy(&structure("S", reversed)).err(),
        Some(GenError::NameCollision { field: 3 })
    );
}

#[test]
fn a_field_named_like_a_lifecycle_function_aborts_generation() {
    let a_new = vec![named("new", path(&["u8"]))];
    assert_eq!(
        derive_effy(&structure("S", a_new)).err(),
        Some(GenError::NameCollision { field: 0 })
    );
    let a_free = vec![named("ok", path(&["u8"])), named("free", path(&["String"]))];
    assert_eq!(
        derive_effy(&structure("MyStruct", a_free)).err(),
        Some(GenError::NameCollision { field: 1 })
    );
    assert_eq!(
        derive_struct("s", "s_t", &vec![named("new", path(&["i64"]))]).err(),
        Some(GenError::NameCollision { field: 0 })
    );
}

#[test]
fn two_fields_of_one_name_abort_generation() {
    let fields = vec![named("a", path(&["u8"])), named("a", path(&["u16"]))];
    assert_eq!(
        derive_effy(&structure("S", fields)).err(),
        Some(GenError::NameCollision { field: 1 })
    );
}

#[test]
fn names_that_only_resemble_taken_ones_are_accepted() {
    let fields = vec![
        named("a", path(&["u8"])),
        named("set", path(&["u8"])),
        named("seta", path(&["u8"])),
        named("set_b", path(&["u8"])),
        named("new_", path(&["u8"])),
        named("freed", path(&["String"])),
        // Unsupported fields get no functions, so their names collide with none.
        named("new", path(&["Vec"])),
        named("set_a", path(&["usize"])),
    ];
    let binding = derive_effy(&structure("S", fields)).unwrap();
    assert_eq!(binding.accessors.len(), 6);
    assert_eq!(binding.skipped, vec!["new".to_string(), "set_a".to_string()]);
    let mut names = vec![
        binding.lifecycle.constructor.name.clone(),
        binding.lifecycle.destructor.name.clone(),
    ];
    for pair in &binding.accessors {
        names.push(pair.getter.name.clone());
        names.push(pair.setter.name.clone());
    }
    for i in 0..names.len() {
        for j in 0..i {
            assert_ne!(names[i], names[j]);
        }
    }
}

#[test]
fn a_field_without_a_name_aborts_generation() {
    let tuple = vec![unnamed(path(&["u8"])), unnamed(path(&["u8"]))];
    assert_eq!(
        derive_effy(&structure("Pair", tuple)).err(),
        Some(GenError::UnnamedField { field: 0 })
    );
    let unsupported = vec![named("a", path(&["u8"])), unnamed(path(&["Vec"]))];
    assert_eq!(
        derive_struct("s", "s_t", &unsupported).err(),
        Some(GenError::UnnamedField { field: 1 })
    );
}

#[test]
fn the_first_field_that_stops_generation_decides_the_error() {
    let type_first = vec![unnamed(TypeExpr::Other), unnamed(path(&["u8"]))];
    assert_eq!(
        derive_effy(&structure("S", type_first)).err(),
        Some(GenError::UnexpectedFieldType { field: 0 })
    );
    let name_first = vec![unnamed(path(&["u8"])), unnamed(TypeExpr::Other)];
    assert_eq!(
        derive_effy(&structure("S", name_first)).err(),
        Some(GenError::UnnamedField { field: 0 })
    );
    let collision_first = vec![
        named("new", path(&["u8"])),
        unnamed(path(&["u8"])),
        named("c", TypeExpr::Other),
    ];
    assert_eq!(
        derive_effy(&structure("S", collision_first)).err(),
        Some(GenError::NameCollision { field: 0 })
    );
    let type_before_collision = vec![named("c", TypeExpr::Other), named("new", path(&["u8"]))];
    assert_eq!(
        derive_effy(&structure("S", type_before_collision)).err(),
        Some(GenError::UnexpectedFieldType { field: 0 })
    );
}

#[test]
fn only_structures_are_bound() {
    let an_enum = DeriveInput { ident: "Choice".to_string(), data: DataShape::Enum };
    assert_eq!(derive_effy(&an_enum).err(), Some(GenError::NotAStruct));
    let a_union = DeriveInput { ident: "Overlay".to_string(), data: DataShape::Union };
    assert_eq!(derive_effy(&a_union).err(), Some(GenError::NotAStruct));
}

#[test]
fn a_binding_is_assembled_from_all_parts() {
    let input = structure(
        "MyLongStructName",
        vec![
            named("id", path(&["u32"])),
            named("tags", path(&["Vec"])),
            named("title", path(&["std", "string", "String"])),
        ],
    );
    let binding = derive_effy(&input).unwrap();
    assert_eq!(binding.ident, "MyLongStructName");
    assert_eq!(binding.name, "my_long_struct_name");
    assert_eq!(binding.alias, "my_long_struct_name_t");
    assert_eq!(binding.lifecycle.constructor.name, "my_long_struct_name_new");
    assert_eq!(binding.lifecycle.constructor.handle, "my_long_struct_name_t");
    assert_eq!(binding.lifecycle.destructor.name, "my_long_struct_name_free");
    assert_eq!(binding.accessors.len(), 2);
    assert_eq!(binding.accessors[0].getter.name, "my_long_struct_name_id");
    assert_eq!(binding.accessors[0].setter.name, "my_long_struct_name_set_id");
    assert_eq!(binding.accessors[0].shape, FieldShape::Primitive(PrimitiveKind::U32));
    assert_eq!(binding.accessors[1].getter.name, "my_long_struct_name_title");
    assert_eq!(binding.accessors[1].setter.name, "my_long_struct_name_set_title");
    assert_eq!(binding.accessors[1].getter.handle, "my_long_struct_name_t");
    assert_eq!(binding.accessors[1].shape, FieldShape::Text);
    assert_eq!(binding.skipped, vec!["tags".to_string()]);
}

#[test]
fn a_structure_without_fields_has_only_its_lifecycle() {
    let binding = derive_effy(&structure("Unit", vec![])).unwrap();
    assert_eq!(binding.lifecycle.constructor.name, "unit_new");
    assert_eq!(binding.lifecycle.destructor.name, "unit_free");
    assert!(binding.accessors.is_empty());
    assert!(binding.skipped.is_empty());
}

#[test]
fn function_names_of_a_binding_are_unique() {
    let input = structure(
        "Point",
        vec![
            named("x", path(&["i32"])),
            named("y", path(&["i32"])),
            named("label", path(&["String"])),
        ],
    );
    let binding = derive_effy(&input).unwrap();
    let mut names = vec![
        binding.lifecycle.constructor.name.clone(),
        binding.lifecycle.destructor.name.clone(),
    ];
    for pair in &binding.accessors {
        names.push(pair.getter.name.clone());
        names.push(pair.setter.name.clone());
    }
    assert_eq!(names.len(), 8);
    for i in 0..names.len() {
        for j in 0..i {
            assert_ne!(names[i], names[j]);
        }
    }
}
