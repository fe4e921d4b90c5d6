use docql::schema::{Field, FullType, InputValue, Kind, RootTypeRef, Schema, TypeRef};
use docql::uses::TypeUse;

fn named(kind: Kind, name: &str) -> TypeRef {
    TypeRef { kind, name: Some(name.to_string()), of_type: None }
}

fn wrap(kind: Kind, inner: TypeRef) -> TypeRef {
    TypeRef { kind, name: None, of_type: Some(Box::new(inner)) }
}

fn field(name: &str, typ: TypeRef, args: Vec<InputValue>) -> Field {
    Field { name: name.to_string(), description: None, args, typ, is_deprecated: false, deprecation_reason: None }
}

fn input(name: &str, typ: TypeRef) -> InputValue {
    InputValue { name: name.to_string(), description: None, typ, default_value: None }
}

fn full_type(kind: Kind, name: &str) -> FullType {
    FullType {
        kind,
        name: name.to_string(),
        description: None,
        fields: None,
        input_fields: None,
        interfaces: None,
        enum_values: None,
        possible_types: None,
    }
}

fn schema(types: Vec<FullType>) -> Schema {
    Schema {
        query_type: RootTypeRef { name: "Query".to_string() },
        mutation_type: RootTypeRef { name: "Mutation".to_string() },
        types,
    }
}

fn describe(uses: &[TypeUse]) -> Vec<(u8, String, String)> {
    uses.iter()
        .map(|u| {
            let tag = match u {
                TypeUse::Field { .. } => 0,
                TypeUse::InputField { .. } => 1,
                TypeUse::PossibleType { .. } => 2,
            };
            (tag, u.typ().name.clone(), u.member_name().to_string())
        })
        .collect()
}

fn user_and_post() -> Vec<FullType> {
    let mut user = full_type(Kind::Object, "User");
    user.fields = Some(vec![
        field("id", wrap(Kind::NonNull, named(Kind::Scalar, "ID")), vec![]),
        field(
            "posts",
            wrap(Kind::NonNull, wrap(Kind::List, wrap(Kind::NonNull, named(Kind::Object, "Post")))),
            vec![],
        ),
    ]);
    let mut post = full_type(Kind::Object, "Post");
    post.fields = Some(vec![field("author", wrap(Kind::NonNull, named(Kind::Object, "User")), vec![])]);
    vec![user, post]
}

#[test]
fn user_and_post_reference_each_other() {
    let s = schema(user_and_post());
    let user_uses = s.find_uses(&s.types[0]);
    assert_eq!(describe(&user_uses), vec![(0, "Post".to_string(), "author".to_string())]);
    let post_uses = s.find_uses(&s.types[1]);
    assert_eq!(describe(&post_uses), vec![(0, "User".to_string(), "posts".to_string())]);
}

#[test]
fn uses_are_ordered_by_variant_type_and_member() {
    let target = full_type(Kind::Object, "T");
    let mut zeta = full_type(Kind::Object, "Zeta");
    zeta.fields = Some(vec![field("b", named(Kind::Object, "T"), vec![]), field("a", named(Kind::Object, "T"), vec![])]);
    let mut alpha_input = full_type(Kind::InputObject, "AlphaInput");
    alpha_input.input_fields = Some(vec![input("t", named(Kind::Object, "T"))]);
    let mut union = full_type(Kind::Union, "Any");
    union.possible_types = Some(vec![named(Kind::Object, "T"), named(Kind::Object, "Other"), named(Kind::Object, "T")]);
    let mut alpha = full_type(Kind::Object, "Alpha");
    alpha.fields = Some(vec![field("x", named(Kind::Object, "T"), vec![])]);
    let s = schema(vec![union, zeta, alpha_input, target, alpha]);
    let uses = s.find_uses(&s.types[3]);
    assert_eq!(
        describe(&uses),
        vec![
            (0, "Alpha".to_string(), "x".to_string()),
            (0, "Zeta".to_string(), "a".to_string()),
            (0, "Zeta".to_string(), "b".to_string()),
            (1, "AlphaInput".to_string(), "t".to_string()),
            (2, "Any".to_string(), "".to_string()),
            (2, "Any".to_string(), "".to_string()),
        ]
    );
}

#[test]
fn one_use_per_field_however_many_arguments_match() {
    let mut query = full_type(Kind::Object, "Query");
    query.fields = Some(vec![field(
        "search",
        named(Kind::Scalar, "String"),
        vec![input("first", named(Kind::InputObject, "Filter")), input("second", wrap(Kind::List, named(Kind::InputObject, "Filter")))],
    )]);
    let s = schema(vec![query, full_type(Kind::InputObject, "Filter")]);
    let uses = s.find_uses(&s.types[1]);
    assert_eq!(describe(&uses), vec![(0, "Query".to_string(), "search".to_string())]);
}

#[test]
fn result_and_argument_match_gives_one_use() {
    let mut query = full_type(Kind::Object, "Query");
    query.fields = Some(vec![field("echo", named(Kind::Scalar, "X"), vec![input("x", named(Kind::Scalar, "X"))])]);
    let s = schema(vec![query, full_type(Kind::Scalar, "X")]);
    assert_eq!(s.find_uses(&s.types[1]).len(), 1);
}

#[test]
fn order_of_types_does_not_change_uses() {
    let a = schema(user_and_post());
    let mut reversed = user_and_post();
    reversed.reverse();
    let b = schema(reversed);
    assert_eq!(describe(&a.find_uses(&a.types[0])), describe(&b.find_uses(&b.types[1])));
    assert_eq!(describe(&a.find_uses(&a.types[1])), describe(&b.find_uses(&b.types[0])));
}

#[test]
fn wrapped_references_match_only_their_name() {
    let s = schema(vec![]);
    let x = full_type(Kind::Object, "X");
    assert!(s.is_use(&x, &wrap(Kind::List, wrap(Kind::NonNull, named(Kind::Object, "X")))));
    assert!(!s.is_use(&x, &wrap(Kind::List, wrap(Kind::List, named(Kind::Object, "Y")))));
    let bare = TypeRef { kind: Kind::NonNull, name: None, of_type: None };
    assert!(!s.is_use(&x, &bare));
}

#[test]
fn unused_type_has_no_uses() {
    let s = schema(user_and_post());
    let lonely = full_type(Kind::Scalar, "Lonely");
    assert!(s.find_uses(&lonely).is_empty());
}

#[test]
fn find_type_returns_first_match() {
    let mut first = full_type(Kind::Object, "Dup");
    first.description = Some("first".to_string());
    let mut second = full_type(Kind::Object, "Dup");
    second.description = Some("second".to_string());
    let s = schema(vec![full_type(Kind::Scalar, "Other"), first, second]);
    let found = s._find_type(&named(Kind::Object, "Dup")).unwrap();
    assert_eq!(found.description.as_deref(), Some("first"));
    assert!(s._find_type(&named(Kind::Object, "Missing")).is_none());
    assert!(s._find_type(&wrap(Kind::List, named(Kind::Object, "Dup"))).is_none());
}

#[test]
fn equal_keys_keep_schema_order() {
    let mut first = full_type(Kind::Object, "Dup");
    first.description = Some("first".to_string());
    first.fields = Some(vec![
        field("x", named(Kind::Scalar, "T"), vec![]),
        field("x", wrap(Kind::List, named(Kind::Scalar, "T")), vec![]),
    ]);
    let mut second = full_type(Kind::Object, "Dup");
    second.description = Some("second".to_string());
    second.fields = Some(vec![field("x", named(Kind::Scalar, "T"), vec![])]);
    let s = schema(vec![second, full_type(Kind::Scalar, "T"), first]);
    let uses = s.find_uses(&s.types[1]);
    let seen: Vec<(Option<String>, String)> = uses
        .iter()
        .map(|u| match u {
            TypeUse::Field { typ, field } => (typ.description.clone(), kind_name(&field.typ)),
            _ => panic!("only field uses here"),
        })
        .collect();
    assert_eq!(
        seen,
        vec![
            (Some("second".to_string()), "Scalar".to_string()),
            (Some("first".to_string()), "Scalar".to_string()),
            (Some("first".to_string()), "List".to_string()),
        ]
    );
}

#[test]
fn targets_of_one_name_share_uses() {
    let s = schema(user_and_post());
    let stand_in = full_type(Kind::Scalar, "User");
    assert_eq!(describe(&s.find_uses(&stand_in)), describe(&s.find_uses(&s.types[0])));
}

fn kind_name(t: &TypeRef) -> String {
    format!("{:?}", t.kind)
}
