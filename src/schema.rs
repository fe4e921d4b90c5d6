use vstd::prelude::*;

verus! {

/// The category of a GraphQL type, or of a wrapper around a type reference.
#[derive(Debug, Clone, Copy, PartialEq, Eq, Structural)]
pub enum Kind {
    NonNull,
    List,
    Object,
    InputObject,
    Union,
    Enum,
    Scalar,
    Interface,
}

impl Kind {
    /// List and NonNull only wrap another reference.
    pub open spec fn is_wrapper(self) -> bool {
        self == Kind::List || self == Kind::NonNull
    }

    /// The file-name prefix of the kind.
    pub open spec fn prefix_spec(self) -> Seq<char> {
        match self {
            Kind::NonNull => "non_null"@,
            Kind::List => "list"@,
            Kind::Object => "object"@,
            Kind::InputObject => "input_object"@,
            Kind::Union => "union"@,
            Kind::Enum => "enum"@,
            Kind::Scalar => "scalar"@,
            Kind::Interface => "interface"@,
        }
    }

    /// The URL-safe prefix of the file names of documents of this kind.
    pub fn prefix(&self) -> (r: &'static str)
        ensures
            r@ == self.prefix_spec(),
    {
        match self {
            Kind::NonNull => "non_null",
            Kind::List => "list",
            Kind::Object => "object",
            Kind::InputObject => "input_object",
            Kind::Union => "union",
            Kind::Enum => "enum",
            Kind::Scalar => "scalar",
            Kind::Interface => "interface",
        }
    }
}

/// The root of an introspection response.
#[derive(Debug)]
pub struct GraphQLResponse {
    pub data: Data,
}

#[derive(Debug)]
/// The data of an introspection response.
pub struct Data {
    pub schema: Schema,
}

#[derive(Debug)]
/// A whole schema: the names of its root types and all its types, in
/// declaration order.
pub struct Schema {
    pub query_type: RootTypeRef,
    pub mutation_type: RootTypeRef,
    pub types: Vec<FullType>,
}

#[derive(Debug)]
/// The name of a root operation type.
pub struct RootTypeRef {
    pub name: String,
}

/// A possibly wrapped reference to a named type.
#[derive(Debug)]
pub struct TypeRef {
    pub kind: Kind,
    pub name: Option<String>,
    pub of_type: Option<Box<TypeRef>>,
}

#[derive(Debug)]
/// The definition of one named type. Which lists are present depends on
/// its kind.
pub struct FullType {
    pub kind: Kind,
    pub name: String,
    pub description: Option<String>,
    pub fields: Option<Vec<Field>>,
    pub input_fields: Option<Vec<InputValue>>,
    pub interfaces: Option<Vec<TypeRef>>,
    pub enum_values: Option<Vec<EnumValue>>,
    pub possible_types: Option<Vec<TypeRef>>,
}

#[derive(Debug)]
/// A field of an object or interface type.
pub struct Field {
    pub name: String,
    pub description: Option<String>,
    pub args: Vec<InputValue>,
    pub typ: TypeRef,
    pub is_deprecated: bool,
    pub deprecation_reason: Option<String>,
}

#[derive(Debug)]
/// An argument, or an input field of an input object type.
pub struct InputValue {
    pub name: String,
    pub description: Option<String>,
    pub typ: TypeRef,
    pub default_value: Option<String>,
}

#[derive(Debug)]
/// A value of an enum type.
pub struct EnumValue {
    pub name: String,
    pub description: Option<String>,
    pub is_deprecated: bool,
    pub deprecation_reason: Option<String>,
}

/// A reference names `target` when it carries that name itself, or when it is
/// a List or NonNull wrapper whose inner reference names it.
pub open spec fn refers_to(t: TypeRef, target: Seq<char>) -> bool
    decreases t,
{
    ||| (t.name is Some && t.name->0@ == target)
    ||| match t.of_type {
        Some(inner) => t.kind.is_wrapper() && refers_to(*inner, target),
        None => false,
    }
}

impl Schema {
    /// The first type, in declaration order, whose name is the name that
    /// `type_ref` carries; `None` for a reference without a name.
    pub fn _find_type(&self, type_ref: &TypeRef) -> (r: Option<&FullType>)
        ensures
            match type_ref.name {
                None => r is None,
                Some(n) => match r {
                    None => forall|i: int|
                        0 <= i < self.types@.len() ==> self.types@[i].name@ != n@,
                    Some(t) => exists|i: int|
                        0 <= i < self.types@.len() && self.types@[i] == *t && t.name@ == n@
                            && forall|j: int| 0 <= j < i ==> self.types@[j].name@ != n@,
                },
            },
    {
        let type_ref_name = match &type_ref.name {
            Some(n) => n,
            None => return None,
        };
        let mut i: usize = 0;
        while i < self.types.len()
            invariant
                i <= self.types@.len(),
                type_ref.name == Some(*type_ref_name),
                forall|j: int| 0 <= j < i ==> self.types@[j].name@ != type_ref_name@,
            decreases self.types@.len() - i,
        {
            let typ = &self.types[i];
            if typ.name.eq(type_ref_name) {
                return Some(typ);
            }
            i = i + 1;
        }
        None
    }

    /// Whether `type_ref`, after stripping List and NonNull wrappers, names
    /// `full_type`.
    pub fn is_use(&self, full_type: &FullType, type_ref: &TypeRef) -> (r: bool)
        ensures
            r == refers_to(*type_ref, full_type.name@),
        decreases type_ref,
    {
        if let Some(n) = &type_ref.name {
            if n.eq(&full_type.name) {
                return true;
            }
        }
        match &type_ref.of_type {
            Some(of_type) => match type_ref.kind {
                Kind::NonNull | Kind::List => self.is_use(full_type, of_type),
                _ => false,
            },
            None => false,
        }
    }
}

} // verus!
