use structinator::generate::{decimal_text, expand, expand_parsed, field_init, iter_convertable, GenerateError};
use structinator::syntax::{FieldDef, StructDef};

const POINT: &str = "struct Point { x: i32, y: i32 }";

fn point_impl() -> String {
    let mut s = String::new();
    s.push_str("impl SpecifyCreatableStruct for Point {\n");
    s.push_str("    type InnerIteratorType = Item;\n");
    s.push_str("    type Error = &'static str;\n");
    s.push_str("    fn create_struct(seed_iterator: &mut dyn Iterator<Item = NamedField<Self::InnerIteratorType>>) -> Result<Self, &'static str> {\n");
    s.push_str("        let mut value_storage: std::collections::HashMap<String, Self::InnerIteratorType> = std::collections::HashMap::with_capacity(2);\n");
    s.push_str("        let mut looper: usize = 0;\n");
    s.push_str("        while looper < 2 {\n");
    s.push_str("            let next_value_pair = if let Some(next) = seed_iterator.next() {\n");
    s.push_str("                next\n");
    s.push_str("            } else {\n");
    s.push_str("                return Err(\"The given iterator should contain enough values to fill the implementing structure\");\n");
    s.push_str("            };\n");
    s.push_str("            value_storage.insert(next_value_pair.name, next_value_pair.wrapped_value);\n");
    s.push_str("            looper += 1;\n");
    s.push_str("        }\n");
    s.push_str("        Ok(Point {\n");
    for name in ["x", "y"] {
        s.push_str(&format!(
            "            {}: <i32 as std::convert::TryFrom<Item>>::try_from(value_storage.remove(\"{}\").expect(\"The iterator passed to the create_struct function should yield values for every field in the base struct\")).expect(\"The variant of InnerIteratorType passed to TryFrom should always succeed in conversion, but it failed unexpectedly\"),\n",
            name, name
        ));
    }
    s.push_str("        })\n");
    s.push_str("    }\n");
    s.push_str("}\n");
    s
}

#[test]
fn point_expansion_is_definition_then_impl() {
    let out = iter_convertable("Item", POINT).unwrap();
    assert_eq!(out, format!("{}\n{}", POINT, point_impl()));
}

#[test]
fn field_types_are_read_from_definition() {
    let out = iter_convertable("Value", "pub struct Rec { pub name: String, count: u16 }").unwrap();
    assert!(out.contains("impl SpecifyCreatableStruct for Rec {"));
    assert!(out.contains("type InnerIteratorType = Value;"));
    assert!(out.contains("name: <String as std::convert::TryFrom<Value>>::try_from(value_storage.remove(\"name\")"));
    assert!(out.contains("count: <u16 as std::convert::TryFrom<Value>>::try_from(value_storage.remove(\"count\")"));
    assert!(out.contains("with_capacity(2)"));
    assert!(out.find("name: <").unwrap() < out.find("count: <").unwrap());
}

#[test]
fn argument_that_is_no_type_is_refused() {
    assert_eq!(iter_convertable("1 +", POINT), Err(GenerateError::NotAType));
    assert_eq!(iter_convertable("", POINT), Err(GenerateError::NotAType));
}

#[test]
fn item_that_is_no_struct_is_refused() {
    assert_eq!(iter_convertable("Item", "enum E { A, B }"), Err(GenerateError::NotAStruct));
    assert_eq!(iter_convertable("Item", "fn f() {}"), Err(GenerateError::NotAStruct));
}

#[test]
fn struct_without_named_fields_is_refused() {
    assert_eq!(iter_convertable("Item", "struct P(i32, i32);"), Err(GenerateError::UnnamedFields));
    assert_eq!(iter_convertable("Item", "struct U;"), Err(GenerateError::UnnamedFields));
}

#[test]
fn error_messages() {
    assert_eq!(
        GenerateError::NotAType.message(),
        "Pass in the name of the enum that contains the values to be assigned to this structure."
    );
    assert_eq!(
        GenerateError::NotAStruct.message(),
        "This attribute should only be attached to a struct definition"
    );
    assert_eq!(
        GenerateError::UnnamedFields.message(),
        "This library can only convert from iterator to structs with named fields"
    );
}

#[test]
fn expand_from_read_definition() {
    let def = StructDef {
        name: "Point".to_string(),
        fields: Some(vec![
            FieldDef { name: "x".to_string(), ty: "i32".to_string() },
            FieldDef { name: "y".to_string(), ty: "i32".to_string() },
        ]),
    };
    let out = expand("Item", POINT, &def).unwrap();
    assert_eq!(out, format!("{}\n{}", POINT, point_impl()));
    let tuple = StructDef { name: "P".to_string(), fields: None };
    assert_eq!(expand("Item", "struct P(i32);", &tuple), Err(GenerateError::UnnamedFields));
}

#[test]
fn empty_struct_gets_zero_capacity() {
    let out = iter_convertable("Item", "struct E {}").unwrap();
    assert!(out.contains("with_capacity(0)"));
    assert!(out.contains("while looper < 0 {"));
    assert!(out.contains("Ok(E {\n        })"));
}

#[test]
fn field_initialiser() {
    let f = FieldDef { name: "a".to_string(), ty: "u8".to_string() };
    let s = field_init("Src", &f);
    assert!(s.starts_with("            a: <u8 as std::convert::TryFrom<Src>>::try_from(value_storage.remove(\"a\")"));
    assert!(s.ends_with("),\n"));
}

#[test]
fn decimal_numbers() {
    assert_eq!(decimal_text(0), "0");
    assert_eq!(decimal_text(7), "7");
    assert_eq!(decimal_text(10), "10");
    assert_eq!(decimal_text(1203), "1203");
    assert_eq!(decimal_text(usize::MAX), usize::MAX.to_string());
}

#[test]
fn expand_parsed_decides_by_reading() {
    let def = StructDef {
        name: "Point".to_string(),
        fields: Some(vec![
            FieldDef { name: "x".to_string(), ty: "i32".to_string() },
            FieldDef { name: "y".to_string(), ty: "i32".to_string() },
        ]),
    };
    let parsed = Some(def);
    assert_eq!(expand_parsed("Item", false, POINT, &parsed), Err(GenerateError::NotAType));
    assert_eq!(expand_parsed("Item", true, "enum E {}", &None), Err(GenerateError::NotAStruct));
    assert_eq!(expand_parsed("Item", false, "enum E {}", &None), Err(GenerateError::NotAType));
    let unnamed = Some(StructDef { name: "P".to_string(), fields: None });
    assert_eq!(expand_parsed("Item", true, "struct P(i32);", &unnamed), Err(GenerateError::UnnamedFields));
    assert_eq!(
        expand_parsed("Item", true, POINT, &parsed).unwrap(),
        format!("{}\n{}", POINT, point_impl())
    );
}
