use docql::date::Date;
use docql::render::{PageContext, Renderer, TypeRefRenderer};
use docql::schema::{Field, FullType, Kind, RootTypeRef, Schema, TypeRef};

fn named(kind: Kind, name: &str) -> TypeRef {
    TypeRef { kind, name: Some(name.to_string()), of_type: None }
}

fn wrap(kind: Kind, inner: TypeRef) -> TypeRef {
    TypeRef { kind, name: None, of_type: Some(Box::new(inner)) }
}

fn full_type(kind: Kind, name: &str) -> FullType {
    FullType {
        kind,
        name: name.to_string(),
        description: None,
        fields: None,
        input_fields: None,
        interfaces: None,
        enum_values: None,
        possible_types: None,
    }
}

fn schema(types: Vec<FullType>) -> Schema {
    Schema {
        query_type: RootTypeRef { name: "Query".to_string() },
        mutation_type: RootTypeRef { name: "Mutation".to_string() },
        types,
    }
}

#[test]
fn named_reference_renders_as_link() {
    let s = schema(vec![]);
    let r = TypeRefRenderer::new(&s);
    assert_eq!(
        r.type_ref_to_html(&named(Kind::Object, "User")),
        r#"<a class="object" href="object.User.html">User</a>"#
    );
}

#[test]
fn wrappers_render_as_brackets_and_bang() {
    let s = schema(vec![]);
    let r = TypeRefRenderer::new(&s);
    let t = wrap(Kind::NonNull, wrap(Kind::List, wrap(Kind::NonNull, named(Kind::Scalar, "ID"))));
    assert_eq!(r.type_ref_to_html(&t), r#"[<a class="scalar" href="scalar.ID.html">ID</a>!]!"#);
}

#[test]
fn missing_inner_reference_renders_placeholder() {
    let s = schema(vec![]);
    let r = TypeRefRenderer::new(&s);
    assert_eq!(r.type_ref_to_html(&TypeRef { kind: Kind::NonNull, name: None, of_type: None }), "?!");
    assert_eq!(r.type_ref_to_html(&TypeRef { kind: Kind::List, name: None, of_type: None }), "[?]");
    let mut out = String::from("x");
    r.render_type_ref(&wrap(Kind::List, named(Kind::Enum, "E")), &mut out);
    assert_eq!(out, r#"x[<a class="enum" href="enum.E.html">E</a>]"#);
}

#[test]
fn every_kind_has_its_prefix() {
    let expected = [
        (Kind::NonNull, "non_null"),
        (Kind::List, "list"),
        (Kind::Object, "object"),
        (Kind::InputObject, "input_object"),
        (Kind::Union, "union"),
        (Kind::Enum, "enum"),
        (Kind::Scalar, "scalar"),
        (Kind::Interface, "interface"),
    ];
    for (kind, prefix) in expected {
        assert_eq!(kind.prefix(), prefix);
    }
}

#[test]
fn pages_and_files_follow_the_kind() {
    let mut user = full_type(Kind::Object, "User");
    user.fields = Some(vec![Field {
        name: "friend".to_string(),
        description: None,
        args: vec![],
        typ: named(Kind::Object, "User"),
        is_deprecated: false,
        deprecation_reason: None,
    }]);
    let s = schema(vec![
        user,
        full_type(Kind::InputObject, "In"),
        full_type(Kind::Scalar, "Sc"),
        full_type(Kind::Enum, "En"),
        full_type(Kind::Interface, "If"),
        full_type(Kind::Union, "Un"),
        full_type(Kind::List, "Li"),
        full_type(Kind::NonNull, "Nn"),
    ]);
    let date = Date::new(2020, 9, 4).unwrap();
    let renderer = Renderer::new("My API".to_string(), date, &s);
    let expected = [
        Some(("object", "object.User.html")),
        Some(("input_object", "input_object.In.html")),
        Some(("scalar", "scalar.Sc.html")),
        Some(("enum", "enum.En.html")),
        Some(("interface", "interface.If.html")),
        Some(("union", "union.Un.html")),
        None,
        None,
    ];
    for (t, want) in s.types.iter().zip(expected) {
        let page = renderer.render_type(t);
        let file = renderer.file_name(t);
        match want {
            Some((template, file_name)) => {
                let page = page.unwrap();
                assert_eq!(page.template, template);
                assert_eq!(page.title, t.name);
                assert_eq!(file.unwrap(), file_name);
            }
            None => {
                assert!(page.is_none());
                assert!(file.is_none());
            }
        }
    }
    let page = renderer.render_object(&s.types[0]);
    match page.context {
        PageContext::Object(c) => {
            assert_eq!(c.schema_name, "My API");
            assert_eq!(c.object.name, "User");
            assert_eq!(c.uses.len(), 1);
            assert_eq!(c.uses[0].member_name(), "friend");
        }
        _ => panic!("an object page has an object context"),
    }
}

#[test]
fn index_page_shows_root_types() {
    let s = schema(vec![]);
    let renderer = Renderer::new("GraphQL Schema".to_string(), Date::new(2021, 1, 31).unwrap(), &s);
    let page = renderer.render_index();
    assert_eq!(page.template, "index");
    assert_eq!(page.title, "GraphQL Schema");
    match page.context {
        PageContext::Index(c) => {
            assert_eq!(c.query_type, "Query");
            assert_eq!(c.mutation_type, "Mutation");
            assert_eq!(c.schema_name, "GraphQL Schema");
        }
        _ => panic!("the index page has the index context"),
    }
}

#[test]
fn layout_carries_both_date_forms() {
    let s = schema(vec![]);
    let renderer = Renderer::new("S".to_string(), Date::parse("2020-09-04").unwrap(), &s);
    let layout = renderer.layout("Title", "<p>body</p>");
    assert_eq!(layout.title, "Title");
    assert_eq!(layout.content, "<p>body</p>");
    assert_eq!(layout.date_iso, "2020-09-04");
    assert_eq!(layout.date_human, "4 Sep 2020");
}

#[test]
fn planning_twice_gives_the_same_pages() {
    let s = schema(vec![full_type(Kind::Enum, "E"), full_type(Kind::Scalar, "S")]);
    let date = Date::parse("2022-02-28").unwrap();
    let a = Renderer::new("N".to_string(), date, &s);
    let b = Renderer::new("N".to_string(), date, &s);
    for t in &s.types {
        let pa = a.render_type(t).unwrap();
        let pb = b.render_type(t).unwrap();
        assert_eq!(pa.template, pb.template);
        assert_eq!(pa.title, pb.title);
        assert_eq!(a.file_name(t), b.file_name(t));
    }
    let la = a.layout("t", "c");
    let lb = b.layout("t", "c");
    assert_eq!(la.date_iso, lb.date_iso);
    assert_eq!(la.date_human, lb.date_human);
}
