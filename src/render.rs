//! What each page of the documentation shows: the template it is rendered
//! with, its title, its context, and the layout around it.
use vstd::prelude::*;
use crate::date::{date_text, Date, ISO_PATTERN, LONG_PATTERN};
use crate::schema::{FullType, Kind, Schema, TypeRef};
use crate::uses::{keys_of, lemma_uses_determined, located_uses, sorted_uses, use_at, TypeUse};

verus! {

/// Every non-wrapper reference along the wrapper chain carries a name.
pub open spec fn has_names(t: TypeRef) -> bool
    decreases t,
{
    if t.kind.is_wrapper() {
        match t.of_type {
            Some(inner) => has_names(*inner),
            None => true,
        }
    } else {
        t.name is Some
    }
}

/// Whether every non-wrapper reference along the wrapper chain of `t`
/// carries a name, which rendering it as links needs.
pub fn has_names_exec(t: &TypeRef) -> (r: bool)
    ensures
        r == has_names(*t),
    decreases t,
{
    match t.kind {
        Kind::List | Kind::NonNull => match &t.of_type {
            Some(inner) => has_names_exec(inner),
            None => true,
        },
        _ => t.name.is_some(),
    }
}

/// A link to the document of a named type.
pub open spec fn link_html(prefix: Seq<char>, name: Seq<char>) -> Seq<char> {
    "<a class=\""@ + prefix + "\" href=\""@ + prefix + "."@ + name + ".html\">"@ + name + "</a>"@
}

/// A List renders as `[inner]`, a NonNull as `inner!`, a wrapper without an
/// inner reference as `?` in place of it, and a named reference as a link.
pub open spec fn type_ref_html(t: TypeRef) -> Seq<char>
    decreases t,
{
    let inner = match t.of_type {
        Some(b) => type_ref_html(*b),
        None => "?"@,
    };
    match t.kind {
        Kind::List => "["@ + inner + "]"@,
        Kind::NonNull => inner + "!"@,
        _ => link_html(t.kind.prefix_spec(), t.name->0@),
    }
}

/// Renders type references as links to the documents of the types.
pub struct TypeRefRenderer<'a> {
    _schema: &'a Schema,
}

impl<'a> TypeRefRenderer<'a> {
    /// The schema whose types the links point to.
    pub closed spec fn schema(&self) -> &'a Schema {
        self._schema
    }

    /// A renderer for the type references of `schema`.
    pub fn new(schema: &'a Schema) -> (r: Self)
        ensures
            r.schema() == schema,
    {
        Self { _schema: schema }
    }

    /// Appends the HTML of `type_ref` to `out`.
    pub fn render_type_ref(&self, type_ref: &TypeRef, out: &mut String)
        requires
            has_names(*type_ref),
        ensures
            final(out)@ == old(out)@ + type_ref_html(*type_ref),
        decreases type_ref,
    {
        match type_ref.kind {
            Kind::List => {
                out.append("[");
                match &type_ref.of_type {
                    Some(of_type) => self.render_type_ref(of_type, out),
                    None => out.append("?"),
                }
                out.append("]");
            },
            Kind::NonNull => {
                match &type_ref.of_type {
                    Some(of_type) => self.render_type_ref(of_type, out),
                    None => out.append("?"),
                }
                out.append("!");
            },
            _ => {
                let prefix = type_ref.kind.prefix();
                let name = match &type_ref.name {
                    Some(n) => n.as_str(),
                    None => "",
                };
                out.append("<a class=\"");
                out.append(prefix);
                out.append("\" href=\"");
                out.append(prefix);
                out.append(".");
                out.append(name);
                out.append(".html\">");
                out.append(name);
                out.append("</a>");
            },
        }
        proof {
            assert(final(out)@ =~= old(out)@ + type_ref_html(*type_ref));
        }
    }

    /// The HTML of `type_ref`.
    pub fn type_ref_to_html(&self, type_ref: &TypeRef) -> (r: String)
        requires
            has_names(*type_ref),
        ensures
            r@ == type_ref_html(*type_ref),
    {
        let mut out = String::new();
        self.render_type_ref(type_ref, &mut out);
        proof {
            assert(out@ =~= type_ref_html(*type_ref));
        }
        out
    }
}

/// The context of the index page.
#[derive(Debug)]
pub struct IndexContext<'a> {
    pub schema_name: &'a str,
    pub query_type: &'a str,
    pub mutation_type: &'a str,
}

impl<'a> IndexContext<'a> {
    /// The context of the index of `schema`.
    pub fn new(schema_name: &'a str, schema: &'a Schema) -> (r: Self)
        ensures
            r.schema_name == schema_name,
            r.query_type@ == schema.query_type.name@,
            r.mutation_type@ == schema.mutation_type.name@,
    {
        Self {
            schema_name,
            query_type: schema.query_type.name.as_str(),
            mutation_type: schema.mutation_type.name.as_str(),
        }
    }
}

/// The context of the page of an object type.
#[derive(Debug)]
pub struct ObjectContext<'a> {
    pub schema_name: &'a str,
    pub object: &'a FullType,
    pub uses: Vec<TypeUse<'a>>,
}

impl<'a> ObjectContext<'a> {
    /// The context of the page of `object`, with its uses.
    pub fn new(schema_name: &'a str, object: &'a FullType, uses: Vec<TypeUse<'a>>) -> (r: Self)
        ensures
            r.schema_name == schema_name,
            r.object == object,
            r.uses == uses,
    {
        Self { schema_name, object, uses }
    }
}

/// The context of the page of an input object type.
#[derive(Debug)]
pub struct InputObjectContext<'a> {
    pub schema_name: &'a str,
    pub input_object: &'a FullType,
    pub uses: Vec<TypeUse<'a>>,
}

impl<'a> InputObjectContext<'a> {
    /// The context of the page of `input_object`, with its uses.
    pub fn new(schema_name: &'a str, input_object: &'a FullType, uses: Vec<TypeUse<'a>>) -> (r:
        Self)
        ensures
            r.schema_name == schema_name,
            r.input_object == input_object,
            r.uses == uses,
    {
        Self { schema_name, input_object, uses }
    }
}

/// The context of the page of a scalar type.
#[derive(Debug)]
pub struct ScalarContext<'a> {
    pub schema_name: &'a str,
    pub scalar: &'a FullType,
    pub uses: Vec<TypeUse<'a>>,
}

impl<'a> ScalarContext<'a> {
    /// The context of the page of `scalar`, with its uses.
    pub fn new(schema_name: &'a str, scalar: &'a FullType, uses: Vec<TypeUse<'a>>) -> (r: Self)
        ensures
            r.schema_name == schema_name,
            r.scalar == scalar,
            r.uses == uses,
    {
        Self { schema_name, scalar, uses }
    }
}

/// The context of the page of an enum type.
#[derive(Debug)]
pub struct EnumContext<'a> {
    pub schema_name: &'a str,
    pub enum_type: &'a FullType,
    pub uses: Vec<TypeUse<'a>>,
}

impl<'a> EnumContext<'a> {
    /// The context of the page of `enum_type`, with its uses.
    pub fn new(schema_name: &'a str, enum_type: &'a FullType, uses: Vec<TypeUse<'a>>) -> (r: Self)
        ensures
            r.schema_name == schema_name,
            r.enum_type == enum_type,
            r.uses == uses,
    {
        Self { schema_name, enum_type, uses }
    }
}

/// The context of the page of an interface type.
#[derive(Debug)]
pub struct InterfaceContext<'a> {
    pub schema_name: &'a str,
    pub interface: &'a FullType,
    pub uses: Vec<TypeUse<'a>>,
}

impl<'a> InterfaceContext<'a> {
    /// The context of the page of `interface`, with its uses.
    pub fn new(schema_name: &'a str, interface: &'a FullType, uses: Vec<TypeUse<'a>>) -> (r: Self)
        ensures
            r.schema_name == schema_name,
            r.interface == interface,
            r.uses == uses,
    {
        Self { schema_name, interface, uses }
    }
}

/// The context of the page of a union type.
#[derive(Debug)]
pub struct UnionContext<'a> {
    pub schema_name: &'a str,
    pub union: &'a FullType,
    pub uses: Vec<TypeUse<'a>>,
}

impl<'a> UnionContext<'a> {
    /// The context of the page of `union`, with its uses.
    pub fn new(schema_name: &'a str, union: &'a FullType, uses: Vec<TypeUse<'a>>) -> (r: Self)
        ensures
            r.schema_name == schema_name,
            r.union == union,
            r.uses == uses,
    {
        Self { schema_name, union, uses }
    }
}

/// The context a page's template is rendered with.
#[derive(Debug)]
pub enum PageContext<'a> {
    Index(IndexContext<'a>),
    Object(ObjectContext<'a>),
    InputObject(InputObjectContext<'a>),
    Scalar(ScalarContext<'a>),
    Enum(EnumContext<'a>),
    Interface(InterfaceContext<'a>),
    Union(UnionContext<'a>),
}

impl<'a> PageContext<'a> {
    /// The type a type page documents, and its uses.
    pub open spec fn documented(self) -> Option<(FullType, Seq<TypeUse<'a>>)> {
        match self {
            PageContext::Index(_) => None,
            PageContext::Object(c) => Some((*c.object, c.uses@)),
            PageContext::InputObject(c) => Some((*c.input_object, c.uses@)),
            PageContext::Scalar(c) => Some((*c.scalar, c.uses@)),
            PageContext::Enum(c) => Some((*c.enum_type, c.uses@)),
            PageContext::Interface(c) => Some((*c.interface, c.uses@)),
            PageContext::Union(c) => Some((*c.union, c.uses@)),
        }
    }

    /// The kind of type whose template renders this context.
    pub open spec fn kind_of(self) -> Option<Kind> {
        match self {
            PageContext::Index(_) => None,
            PageContext::Object(_) => Some(Kind::Object),
            PageContext::InputObject(_) => Some(Kind::InputObject),
            PageContext::Scalar(_) => Some(Kind::Scalar),
            PageContext::Enum(_) => Some(Kind::Enum),
            PageContext::Interface(_) => Some(Kind::Interface),
            PageContext::Union(_) => Some(Kind::Union),
        }
    }

    /// The schema name the context carries.
    pub open spec fn schema_name_of(self) -> Seq<char> {
        match self {
            PageContext::Index(c) => c.schema_name@,
            PageContext::Object(c) => c.schema_name@,
            PageContext::InputObject(c) => c.schema_name@,
            PageContext::Scalar(c) => c.schema_name@,
            PageContext::Enum(c) => c.schema_name@,
            PageContext::Interface(c) => c.schema_name@,
            PageContext::Union(c) => c.schema_name@,
        }
    }
}

/// One document to render: the template, the page title, and the context.
#[derive(Debug)]
pub struct Page<'a> {
    pub template: &'static str,
    pub title: &'a str,
    pub context: PageContext<'a>,
}

/// What the layout around every page is rendered with.
#[derive(Debug)]
pub struct LayoutContext<'a> {
    pub title: &'a str,
    pub content: &'a str,
    pub date_iso: String,
    pub date_human: String,
}

/// The name of the document of a type: its kind prefix, a dot, its name and
/// `.html`.
pub open spec fn file_name_spec(t: FullType) -> Seq<char> {
    t.kind.prefix_spec() + "."@ + t.name@ + ".html"@
}

/// Plans the documents of a schema.
pub struct Renderer<'a> {
    schema_name: String,
    date: Date,
    schema: &'a Schema,
}

impl<'a> Renderer<'a> {
    /// The name of the schema, shown on every page.
    pub closed spec fn schema_name_spec(&self) -> Seq<char> {
        self.schema_name@
    }

    /// The date of the run.
    pub closed spec fn date_spec(&self) -> Date {
        self.date
    }

    /// The schema documented.
    pub closed spec fn schema_spec(&self) -> &'a Schema {
        self.schema
    }

    /// `p` is the page of `full_type`, rendered with `template`, with the
    /// uses of the type in this renderer's schema.
    pub open spec fn is_type_page(&self, p: Page, full_type: FullType, template: Seq<char>) -> bool {
        &&& p.template@ == template
        &&& p.title@ == full_type.name@
        &&& p.context.schema_name_of() == self.schema_name_spec()
        &&& p.context.documented() matches Some((t, uses)) && t == full_type
            && self.are_uses_of(uses, full_type)
    }

    /// `uses` are the uses of `full_type` in this renderer's schema, as
    /// `find_uses` returns them.
    pub open spec fn are_uses_of(&self, uses: Seq<TypeUse>, full_type: FullType) -> bool {
        let types = self.schema_spec().types@;
        let sites = located_uses(types, full_type.name@);
        &&& keys_of(uses) == sorted_uses(types, full_type.name@)
        &&& uses.len() == sites.len()
        &&& forall|k: int| 0 <= k < uses.len() ==> use_at(#[trigger] uses[k], types, sites[k])
    }

    /// A renderer of the documents of `schema`, under `schema_name`, dated
    /// `date`.
    pub fn new(schema_name: String, date: Date, schema: &'a Schema) -> (r: Self)
        ensures
            r.schema_name_spec() == schema_name@,
            r.date_spec() == date,
            r.schema_spec() == schema,
    {
        Self { schema_name, date, schema }
    }

    /// The index page: titled with the schema name, showing the root types.
    pub fn render_index<'b>(&'b self) -> (r: Page<'b>)
        ensures
            r.template@ == "index"@,
            r.title@ == self.schema_name_spec(),
            r.context matches PageContext::Index(c) && c.schema_name@ == self.schema_name_spec()
                && c.query_type@ == self.schema_spec().query_type.name@ && c.mutation_type@
                == self.schema_spec().mutation_type.name@,
    {
        Page {
            template: "index",
            title: self.schema_name.as_str(),
            context: PageContext::Index(IndexContext::new(self.schema_name.as_str(), self.schema)),
        }
    }

    /// The page of an object type, with its uses.
    pub fn render_object<'b>(&'b self, object: &'b FullType) -> (r: Page<'b>)
        ensures
            self.is_type_page(r, *object, "object"@),
            r.context is Object,
    {
        let uses = self.schema.find_uses(object);
        Page {
            template: "object",
            title: object.name.as_str(),
            context: PageContext::Object(ObjectContext::new(self.schema_name.as_str(), object, uses)),
        }
    }

    /// The page of an input object type, with its uses.
    pub fn render_input_object<'b>(&'b self, input_object: &'b FullType) -> (r: Page<'b>)
        ensures
            self.is_type_page(r, *input_object, "input_object"@),
            r.context is InputObject,
    {
        let uses = self.schema.find_uses(input_object);
        Page {
            template: "input_object",
            title: input_object.name.as_str(),
            context: PageContext::InputObject(
                InputObjectContext::new(self.schema_name.as_str(), input_object, uses),
            ),
        }
    }

    /// The page of a scalar type, with its uses.
    pub fn render_scalar<'b>(&'b self, scalar: &'b FullType) -> (r: Page<'b>)
        ensures
            self.is_type_page(r, *scalar, "scalar"@),
            r.context is Scalar,
    {
        let uses = self.schema.find_uses(scalar);
        Page {
            template: "scalar",
            title: scalar.name.as_str(),
            context: PageContext::Scalar(ScalarContext::new(self.schema_name.as_str(), scalar, uses)),
        }
    }

    /// The page of an enum type, with its uses.
    pub fn render_enum<'b>(&'b self, enum_type: &'b FullType) -> (r: Page<'b>)
        ensures
            self.is_type_page(r, *enum_type, "enum"@),
            r.context is Enum,
    {
        let uses = self.schema.find_uses(enum_type);
        Page {
            template: "enum",
            title: enum_type.name.as_str(),
            context: PageContext::Enum(EnumContext::new(self.schema_name.as_str(), enum_type, uses)),
        }
    }

    /// The page of an interface type, with its uses.
    pub fn render_interface<'b>(&'b self, interface: &'b FullType) -> (r: Page<'b>)
        ensures
            self.is_type_page(r, *interface, "interface"@),
            r.context is Interface,
    {
        let uses = self.schema.find_uses(interface);
        Page {
            template: "interface",
            title: interface.name.as_str(),
            context: PageContext::Interface(
                InterfaceContext::new(self.schema_name.as_str(), interface, uses),
            ),
        }
    }

    /// The page of a union type, with its uses.
    pub fn render_union<'b>(&'b self, union: &'b FullType) -> (r: Page<'b>)
        ensures
            self.is_type_page(r, *union, "union"@),
            r.context is Union,
    {
        let uses = self.schema.find_uses(union);
        Page {
            template: "union",
            title: union.name.as_str(),
            context: PageContext::Union(UnionContext::new(self.schema_name.as_str(), union, uses)),
        }
    }

    /// The page of a type, chosen by its kind: none for List and NonNull;
    /// for every other kind the template named by the kind's prefix.
    pub fn render_type<'b>(&'b self, full_type: &'b FullType) -> (r: Option<Page<'b>>)
        ensures
            r is None <==> full_type.kind.is_wrapper(),
            r matches Some(p) ==> self.is_type_page(p, *full_type, full_type.kind.prefix_spec())
                && p.context.kind_of() == Some(full_type.kind),
    {
        match full_type.kind {
            Kind::Object => Some(self.render_object(full_type)),
            Kind::InputObject => Some(self.render_input_object(full_type)),
            Kind::Scalar => Some(self.render_scalar(full_type)),
            Kind::Enum => Some(self.render_enum(full_type)),
            Kind::Interface => Some(self.render_interface(full_type)),
            Kind::Union => Some(self.render_union(full_type)),
            Kind::List => None,
            Kind::NonNull => None,
        }
    }

    /// The file name of the document of a type; none for List and NonNull.
    pub fn file_name(&self, full_type: &FullType) -> (r: Option<String>)
        ensures
            r is None <==> full_type.kind.is_wrapper(),
            r matches Some(n) ==> n@ == file_name_spec(*full_type),
    {
        if full_type.kind == Kind::List || full_type.kind == Kind::NonNull {
            return None;
        }
        let mut name = String::new();
        name.append(full_type.kind.prefix());
        name.append(".");
        name.append(full_type.name.as_str());
        name.append(".html");
        proof {
            assert(name@ =~= file_name_spec(*full_type));
        }
        Some(name)
    }

    /// The context of the layout around a page: its title and content, and
    /// the run's date in ISO 8601 and in long form.
    pub fn layout<'b>(&self, title: &'b str, content: &'b str) -> (r: LayoutContext<'b>)
        ensures
            r.title == title,
            r.content == content,
            r.date_iso@ == date_text(
                ISO_PATTERN@,
                self.date_spec().year_spec(),
                self.date_spec().month_spec(),
                self.date_spec().day_spec(),
            ),
            r.date_human@ == date_text(
                LONG_PATTERN@,
                self.date_spec().year_spec(),
                self.date_spec().month_spec(),
                self.date_spec().day_spec(),
            ),
    {
        LayoutContext { title, content, date_iso: self.date.iso(), date_human: self.date.human() }
    }
}

/// `t` is a wrapper of the given kind around some reference.
pub open spec fn wraps(t: TypeRef, kind: Kind) -> bool {
    t.kind == kind && t.name is None && t.of_type is Some
}

/// The reference a wrapper wraps.
pub open spec fn inner(t: TypeRef) -> TypeRef {
    *t.of_type->0
}

/// `t` is a reference to the type named `n`.
pub open spec fn names_type(t: TypeRef, n: Seq<char>) -> bool {
    !t.kind.is_wrapper() && t.name is Some && t.name->0@ == n
}

/// A reference `[X!]` names the type X; a reference `[[Y]]` does not name a
/// type X other than Y; a NonNull with no inner reference names no type and
/// renders as the placeholder `?` followed by `!`.
pub proof fn lemma_wrapper_unwrapping(
    list_non_null: TypeRef,
    list_list: TypeRef,
    bare: TypeRef,
    x: Seq<char>,
    y: Seq<char>,
)
    requires
        wraps(list_non_null, Kind::List),
        wraps(inner(list_non_null), Kind::NonNull),
        names_type(inner(inner(list_non_null)), x),
        wraps(list_list, Kind::List),
        wraps(inner(list_list), Kind::List),
        names_type(inner(inner(list_list)), y),
        x != y,
        bare.kind == Kind::NonNull,
        bare.name is None,
        bare.of_type is None,
    ensures
        crate::schema::refers_to(list_non_null, x),
        !crate::schema::refers_to(list_list, x),
        forall|target: Seq<char>| !crate::schema::refers_to(bare, target),
        type_ref_html(bare) == "?!"@,
{
    assert(crate::schema::refers_to(inner(inner(list_non_null)), x));
    assert(crate::schema::refers_to(inner(list_non_null), x));
    assert(!crate::schema::refers_to(inner(inner(list_list)), x));
    assert(!crate::schema::refers_to(inner(list_list), x));
    reveal_strlit("?!");
    reveal_strlit("?");
    reveal_strlit("!");
    assert(type_ref_html(bare) =~= "?!"@);
}

/// Each of the six kinds that are not wrappers has a prefix of its own, so
/// its own template and its own file names; List and NonNull have no page
/// and no file.
pub proof fn lemma_kind_prefixes_distinct(k1: Kind, k2: Kind)
    requires
        !k1.is_wrapper(),
        !k2.is_wrapper(),
        k1 != k2,
    ensures
        k1.prefix_spec() != k2.prefix_spec(),
{
    reveal_strlit("object");
    reveal_strlit("input_object");
    reveal_strlit("union");
    reveal_strlit("enum");
    reveal_strlit("scalar");
    reveal_strlit("interface");
    let first = k1.prefix_spec();
    let second = k2.prefix_spec();
    if first == second {
        assert(first.len() == second.len());
        assert(first[0] == second[0]);
        assert(first[1] == second[1]);
    }
}

/// Planning the same type twice, with renderers of the same schema name,
/// date and schema, gives the same template, title, schema name, documented
/// type, the same uses (the same referencing types and fields, in the same
/// order) and the same layout dates.
pub proof fn lemma_page_plan_repeatable(
    r1: Renderer,
    r2: Renderer,
    t: FullType,
    first: Page,
    second: Page,
)
    requires
        r1.schema_name_spec() == r2.schema_name_spec(),
        r1.date_spec() == r2.date_spec(),
        r1.schema_spec() == r2.schema_spec(),
        r1.is_type_page(first, t, t.kind.prefix_spec()),
        r2.is_type_page(second, t, t.kind.prefix_spec()),
    ensures
        first.template@ == second.template@,
        first.title@ == second.title@,
        first.context.schema_name_of() == second.context.schema_name_of(),
        first.context.documented() matches Some((ta, ua)) && second.context.documented() matches Some(
            (tb, ub),
        ) && ta == tb && ua == ub,
        date_text(
            ISO_PATTERN@,
            r1.date_spec().year_spec(),
            r1.date_spec().month_spec(),
            r1.date_spec().day_spec(),
        ) == date_text(
            ISO_PATTERN@,
            r2.date_spec().year_spec(),
            r2.date_spec().month_spec(),
            r2.date_spec().day_spec(),
        ),
        date_text(
            LONG_PATTERN@,
            r1.date_spec().year_spec(),
            r1.date_spec().month_spec(),
            r1.date_spec().day_spec(),
        ) == date_text(
            LONG_PATTERN@,
            r2.date_spec().year_spec(),
            r2.date_spec().month_spec(),
            r2.date_spec().day_spec(),
        ),
{
    let (ta, ua) = first.context.documented()->0;
    let (tb, ub) = second.context.documented()->0;
    let sites = located_uses(r1.schema_spec().types@, t.name@);
    lemma_uses_determined(r1.schema_spec().types@, sites, ua, ub);
}

} // verus!
