use docql::schema::{EnumValue, Field, FullType, InputValue, Kind, RootTypeRef, Schema, TypeRef};
use docql::search_index::{SearchIndex, SearchIndexItem};
use serde_json::Value;

fn s(v: &str) -> Value {
    Value::String(v.to_string())
}

fn named(kind: Kind, name: &str) -> TypeRef {
    TypeRef { kind, name: Some(name.to_string()), of_type: None }
}

fn full_type(kind: Kind, name: &str) -> FullType {
    FullType {
        kind,
        name: name.to_string(),
        description: None,
        fields: None,
        input_fields: None,
        interfaces: None,
        enum_values: None,
        possible_types: None,
    }
}

fn schema(types: Vec<FullType>) -> Schema {
    Schema {
        query_type: RootTypeRef { name: "Query".to_string() },
        mutation_type: RootTypeRef { name: "Mutation".to_string() },
        types,
    }
}

fn enum_value(name: &str) -> EnumValue {
    EnumValue { name: name.to_string(), description: None, is_deprecated: false, deprecation_reason: None }
}

#[test]
fn test_serialize_with_parent() {
    let item = SearchIndexItem {
        index: vec!["superadmin".to_string(), "super_admin".to_string()],
        name: "SUPER_ADMIN".to_string(),
        kind: "enumitem".to_string(),
        parent_name: Some("AccountType".to_string()),
        parent_kind: Some("enum".to_string()),
    };

    let value: Value = serde_json::from_str(&item.to_json()).unwrap();
    assert_eq!(
        value,
        Value::Array(vec![
            Value::Array(vec![s("superadmin"), s("super_admin")]),
            s("SUPER_ADMIN"),
            s("enumitem"),
            s("AccountType"),
            s("enum"),
        ])
    );
}

#[test]
fn test_serialize_without_parent() {
    let item = SearchIndexItem {
        index: vec!["accounttype".to_string()],
        name: "AccountType".to_string(),
        kind: "enum".to_string(),
        parent_name: None,
        parent_kind: None,
    };

    let value: Value = serde_json::from_str(&item.to_json()).unwrap();
    assert_eq!(value, Value::Array(vec![Value::Array(vec![s("accounttype")]), s("AccountType"), s("enum")]));
}

#[test]
fn serialize_exact_text() {
    let item = SearchIndexItem {
        index: vec!["a\"b".to_string()],
        name: "A\"B".to_string(),
        kind: "field".to_string(),
        parent_name: Some("P".to_string()),
        parent_kind: Some("object".to_string()),
    };
    assert_eq!(item.to_json(), r#"[["a\"b"],"A\"B","field","P","object"]"#);
}

#[test]
fn serialize_one_parent_part_gives_three_elements() {
    let item = SearchIndexItem {
        index: vec![],
        name: "X".to_string(),
        kind: "field".to_string(),
        parent_name: Some("P".to_string()),
        parent_kind: None,
    };
    assert_eq!(item.to_json(), r#"[[],"X","field"]"#);
}

#[test]
fn enum_value_has_two_lookup_keys() {
    let mut account = full_type(Kind::Enum, "AccountType");
    account.enum_values = Some(vec![enum_value("SUPER_ADMIN")]);
    let index = SearchIndex::build(&schema(vec![account]));
    assert_eq!(index.0.len(), 2);
    let item = &index.0[1];
    assert_eq!(item.index, vec!["super_admin".to_string(), "superadmin".to_string()]);
    assert_eq!(item.name, "SUPER_ADMIN");
    assert_eq!(item.kind, "enum_value");
    assert_eq!(item.parent_name.as_deref(), Some("AccountType"));
    assert_eq!(item.parent_kind.as_deref(), Some("enum"));
    let value: Value = serde_json::from_str(&item.to_json()).unwrap();
    assert_eq!(value.as_array().unwrap().len(), 5);
    let top: Value = serde_json::from_str(&index.0[0].to_json()).unwrap();
    assert_eq!(top, Value::Array(vec![Value::Array(vec![s("accounttype")]), s("AccountType"), s("enum")]));
}

#[test]
fn build_keeps_declaration_order_and_skips_wrappers() {
    let mut user = full_type(Kind::Object, "User");
    user.fields = Some(vec![
        Field {
            name: "firstName".to_string(),
            description: None,
            args: vec![],
            typ: named(Kind::Scalar, "String"),
            is_deprecated: false,
            deprecation_reason: None,
        },
        Field {
            name: "Id".to_string(),
            description: None,
            args: vec![],
            typ: named(Kind::Scalar, "ID"),
            is_deprecated: false,
            deprecation_reason: None,
        },
    ]);
    let mut input = full_type(Kind::InputObject, "NewUser");
    input.input_fields = Some(vec![InputValue {
        name: "EMAIL".to_string(),
        description: None,
        typ: named(Kind::Scalar, "String"),
        default_value: None,
    }]);
    let index = SearchIndex::build(&schema(vec![
        user,
        full_type(Kind::List, "ignored"),
        full_type(Kind::NonNull, "ignored2"),
        input,
        full_type(Kind::Scalar, "DateTime"),
    ]));
    let rows: Vec<(Vec<String>, String, String, Option<String>, Option<String>)> = index
        .0
        .iter()
        .map(|i| (i.index.clone(), i.name.clone(), i.kind.clone(), i.parent_name.clone(), i.parent_kind.clone()))
        .collect();
    let some = |v: &str| Some(v.to_string());
    assert_eq!(
        rows,
        vec![
            (vec!["user".to_string()], "User".to_string(), "object".to_string(), None, None),
            (vec!["firstname".to_string()], "firstName".to_string(), "field".to_string(), some("User"), some("object")),
            (vec!["id".to_string()], "Id".to_string(), "field".to_string(), some("User"), some("object")),
            (vec!["newuser".to_string()], "NewUser".to_string(), "input_object".to_string(), None, None),
            (vec!["email".to_string()], "EMAIL".to_string(), "input_field".to_string(), some("NewUser"), some("input_object")),
            (vec!["datetime".to_string()], "DateTime".to_string(), "scalar".to_string(), None, None),
        ]
    );
}

#[test]
fn index_to_json_is_array_of_entries() {
    let mut account = full_type(Kind::Enum, "AccountType");
    account.enum_values = Some(vec![enum_value("A_B")]);
    let index = SearchIndex::build(&schema(vec![account, full_type(Kind::Union, "U")]));
    assert_eq!(
        index.to_json(),
        r#"[[["accounttype"],"AccountType","enum"],[["a_b","ab"],"A_B","enum_value","AccountType","enum"],[["u"],"U","union"]]"#
    );
}

#[test]
fn empty_schema_gives_empty_index() {
    let index = SearchIndex::build(&schema(vec![]));
    assert!(index.0.is_empty());
    assert_eq!(index.to_json(), "[]");
}
