//! A flat index of every searchable name in a schema, for a client-side
//! search widget.
use vstd::prelude::*;
use crate::schema::{EnumValue, Field, FullType, InputValue, Kind, Schema};

verus! {

/// What `str::to_lowercase` returns for a string.
pub uninterp spec fn lower_of(s: Seq<char>) -> Seq<char>;

/// What `serde_json::to_string` returns for a string: the string as a JSON
/// string literal.
pub uninterp spec fn json_text_of(s: Seq<char>) -> Seq<char>;

/// Relies on std's `str::to_lowercase`: its result depends on the characters
/// alone.
#[verifier::external_body]
fn lowercase(s: &str) -> (r: String)
    ensures
        r@ == lower_of(s@),
{
    s.to_lowercase()
}

/// The characters of `s` but its underscores.
pub open spec fn without_underscores(s: Seq<char>) -> Seq<char> {
    s.filter(|c: char| c != '_')
}

/// Relies on std's `str::replace`: every match of the pattern `"_"`, that is
/// every underscore, is replaced by the empty string.
#[verifier::external_body]
fn strip_underscores(s: &str) -> (r: String)
    ensures
        r@ == without_underscores(s@),
{
    s.replace("_", "")
}

/// Relies on `serde_json::to_string` on a `str`: the string encoded as a JSON
/// string literal. Serialising a string does not fail.
#[verifier::external_body]
fn json_string(s: &str) -> (r: String)
    ensures
        r@ == json_text_of(s@),
{
    serde_json::to_string(s).unwrap_or_default()
}

/// One searchable entry: its lowercase lookup keys, the name shown, a kind
/// tag, and the name and kind tag of the type that holds it (absent for a
/// type itself).
#[derive(Debug)]
pub struct SearchIndexItem {
    pub index: Vec<String>,
    pub name: String,
    pub kind: String,
    pub parent_name: Option<String>,
    pub parent_kind: Option<String>,
}

/// An entry as plain values.
pub struct ItemView {
    pub keys: Seq<Seq<char>>,
    pub name: Seq<char>,
    pub kind: Seq<char>,
    pub parent_name: Option<Seq<char>>,
    pub parent_kind: Option<Seq<char>>,
}

/// The characters of an optional string.
pub open spec fn opt_view(o: Option<String>) -> Option<Seq<char>> {
    match o {
        Some(s) => Some(s@),
        None => None,
    }
}

impl View for SearchIndexItem {
    type V = ItemView;

    open spec fn view(&self) -> ItemView {
        ItemView {
            keys: self.index@.map_values(|s: String| s@),
            name: self.name@,
            kind: self.kind@,
            parent_name: opt_view(self.parent_name),
            parent_kind: opt_view(self.parent_kind),
        }
    }
}

/// The whole index.
#[derive(Debug)]
pub struct SearchIndex(pub Vec<SearchIndexItem>);

/// The entries as plain values, in the same order.
pub open spec fn views_of(items: Seq<SearchIndexItem>) -> Seq<ItemView> {
    items.map_values(|i: SearchIndexItem| i@)
}

/// An entry of a member of a type.
pub open spec fn child_item(
    keys: Seq<Seq<char>>,
    name: Seq<char>,
    kind: Seq<char>,
    parent_name: Seq<char>,
    parent_kind: Seq<char>,
) -> ItemView {
    ItemView { keys, name, kind, parent_name: Some(parent_name), parent_kind: Some(parent_kind) }
}

/// The entry of a field: its lowercase name is its key.
pub open spec fn field_item(f: Field, pname: Seq<char>, pkind: Seq<char>) -> ItemView {
    child_item(seq![lower_of(f.name@)], f.name@, "field"@, pname, pkind)
}

/// The entry of an enum value: keyed by its lowercase name, with and
/// without underscores.
pub open spec fn enum_value_item(v: EnumValue, pname: Seq<char>, pkind: Seq<char>) -> ItemView {
    child_item(
        seq![lower_of(v.name@), without_underscores(lower_of(v.name@))],
        v.name@,
        "enum_value"@,
        pname,
        pkind,
    )
}

/// The entry of an input field: its lowercase name is its key.
pub open spec fn input_field_item(v: InputValue, pname: Seq<char>, pkind: Seq<char>) -> ItemView {
    child_item(seq![lower_of(v.name@)], v.name@, "input_field"@, pname, pkind)
}

/// The entries of one type: none for a wrapper kind; else the type itself,
/// then its fields, its enum values and its input fields, in declaration
/// order.
pub open spec fn type_items(t: FullType) -> Seq<ItemView> {
    if t.kind.is_wrapper() {
        Seq::empty()
    } else {
        let k = t.kind.prefix_spec();
        let n = t.name@;
        seq![ItemView { keys: seq![lower_of(n)], name: n, kind: k, parent_name: None, parent_kind: None }]
            + match t.fields {
            Some(fs) => fs@.map_values(|f: Field| field_item(f, n, k)),
            None => Seq::empty(),
        } + match t.enum_values {
            Some(vs) => vs@.map_values(|v: EnumValue| enum_value_item(v, n, k)),
            None => Seq::empty(),
        } + match t.input_fields {
            Some(ifs) => ifs@.map_values(|v: InputValue| input_field_item(v, n, k)),
            None => Seq::empty(),
        }
    }
}

/// The entries of a list of types, type after type.
pub open spec fn index_items(types: Seq<FullType>) -> Seq<ItemView>
    decreases types.len(),
{
    if types.len() == 0 {
        Seq::empty()
    } else {
        index_items(types.drop_last()) + type_items(types.last())
    }
}

proof fn lemma_views_push(items: Seq<SearchIndexItem>, i: SearchIndexItem)
    ensures
        views_of(items.push(i)) == views_of(items).push(i@),
{
    assert(views_of(items.push(i)) =~= views_of(items).push(i@));
}

/// The JSON texts `elems` separated by commas.
pub open spec fn joined(elems: Seq<Seq<char>>) -> Seq<char>
    decreases elems.len(),
{
    if elems.len() == 0 {
        Seq::empty()
    } else if elems.len() == 1 {
        elems[0]
    } else {
        joined(elems.drop_last()) + ","@ + elems.last()
    }
}

/// A JSON array of the given element texts.
pub open spec fn json_array(elems: Seq<Seq<char>>) -> Seq<char> {
    "["@ + joined(elems) + "]"@
}

/// The elements of an entry's JSON array: the lookup keys, the name and the
/// kind, then the parent's name and kind where the entry has both.
pub open spec fn json_elements(v: ItemView) -> Seq<Seq<char>> {
    seq![
        json_array(v.keys.map_values(|k: Seq<char>| json_text_of(k))),
        json_text_of(v.name),
        json_text_of(v.kind),
    ] + match (v.parent_name, v.parent_kind) {
        (Some(pn), Some(pk)) => seq![json_text_of(pn), json_text_of(pk)],
        _ => Seq::empty(),
    }
}

/// Frames element texts as a JSON array.
fn json_array_of(parts: &Vec<String>) -> (r: String)
    ensures
        r@ == json_array(parts@.map_values(|p: String| p@)),
{
    let ghost views = parts@.map_values(|p: String| p@);
    let mut out = String::new();
    out.append("[");
    let mut i: usize = 0;
    while i < parts.len()
        invariant
            i <= parts@.len(),
            views == parts@.map_values(|p: String| p@),
            out@ == "["@ + joined(views.take(i as int)),
        decreases parts@.len() - i,
    {
        if i > 0 {
            out.append(",");
        }
        out.append(parts[i].as_str());
        proof {
            assert(views.take(i + 1).drop_last() =~= views.take(i as int));
            if i == 0 {
                assert(views.take(0) =~= Seq::<Seq<char>>::empty());
                assert("["@ + joined(views.take(i as int)) + parts@[i as int]@ =~= "["@ + joined(views.take(i + 1)));
            } else {
                assert("["@ + joined(views.take(i as int)) + ","@ + parts@[i as int]@ =~= "["@ + joined(views.take(i + 1)));
            }
        }
        i = i + 1;
    }
    proof {
        assert(views.take(parts@.len() as int) =~= views);
    }
    out.append("]");
    out
}

/// The entry of a type itself is a JSON array of three elements (keys,
/// name, kind); the entry of each of its fields, enum values and input
/// fields is one of five (keys, name, kind, parent name, parent kind), whose
/// parent is the type.
pub proof fn lemma_entry_shapes(t: FullType, i: int)
    requires
        0 <= i < type_items(t).len(),
    ensures
        i == 0 ==> json_elements(type_items(t)[i]).len() == 3,
        i > 0 ==> json_elements(type_items(t)[i]).len() == 5 && type_items(t)[i].parent_name
            == Some(t.name@) && type_items(t)[i].parent_kind == Some(t.kind.prefix_spec()),
{
}

impl SearchIndexItem {
    /// The entry as a compact JSON array: `[keys, name, kind]`, followed by
    /// the parent's name and kind where the entry has both.
    pub fn to_json(&self) -> (r: String)
        ensures
            r@ == json_array(json_elements(self@)),
    {
        let mut keys: Vec<String> = Vec::new();
        let mut i: usize = 0;
        while i < self.index.len()
            invariant
                i <= self.index@.len(),
                keys@.map_values(|p: String| p@) == self.index@.take(i as int).map_values(
                    |s: String| json_text_of(s@),
                ),
            decreases self.index@.len() - i,
        {
            let k = json_string(self.index[i].as_str());
            proof {
                assert(keys@.push(k).map_values(|p: String| p@) =~= keys@.map_values(|p: String| p@).push(k@));
                assert(self.index@.take(i + 1).map_values(|s: String| json_text_of(s@))
                    =~= self.index@.take(i as int).map_values(|s: String| json_text_of(s@)).push(k@));
            }
            keys.push(k);
            i = i + 1;
        }
        proof {
            assert(self.index@.take(self.index@.len() as int) =~= self.index@);
            assert(self.index@.map_values(|s: String| json_text_of(s@)) =~= self@.keys.map_values(
                |k: Seq<char>| json_text_of(k),
            ));
        }
        let mut parts: Vec<String> = Vec::new();
        parts.push(json_array_of(&keys));
        parts.push(json_string(self.name.as_str()));
        parts.push(json_string(self.kind.as_str()));
        match (&self.parent_name, &self.parent_kind) {
            (Some(parent_name), Some(parent_kind)) => {
                parts.push(json_string(parent_name.as_str()));
                parts.push(json_string(parent_kind.as_str()));
            },
            _ => {},
        }
        proof {
            assert(parts@.map_values(|p: String| p@) =~= json_elements(self@));
        }
        json_array_of(&parts)
    }
}

impl SearchIndex {
    /// The index as a JSON array of the entries' arrays.
    pub fn to_json(&self) -> (r: String)
        ensures
            r@ == json_array(self.0@.map_values(|i: SearchIndexItem| json_array(json_elements(i@)))),
    {
        let mut parts: Vec<String> = Vec::new();
        let mut i: usize = 0;
        while i < self.0.len()
            invariant
                i <= self.0@.len(),
                parts@.map_values(|p: String| p@) == self.0@.take(i as int).map_values(
                    |i: SearchIndexItem| json_array(json_elements(i@)),
                ),
            decreases self.0@.len() - i,
        {
            let t = self.0[i].to_json();
            proof {
                assert(parts@.push(t).map_values(|p: String| p@) =~= parts@.map_values(|p: String| p@).push(t@));
                assert(self.0@.take(i + 1).map_values(|i: SearchIndexItem| json_array(json_elements(i@)))
                    =~= self.0@.take(i as int).map_values(
                    |i: SearchIndexItem| json_array(json_elements(i@)),
                ).push(t@));
            }
            parts.push(t);
            i = i + 1;
        }
        proof {
            assert(self.0@.take(self.0@.len() as int) =~= self.0@);
        }
        json_array_of(&parts)
    }

    /// The index of every non-wrapper type of the schema, in declaration
    /// order.
    pub fn build(schema: &Schema) -> (r: Self)
        ensures
            views_of(r.0@) == index_items(schema.types@),
    {
        let mut items: Vec<SearchIndexItem> = Vec::new();
        let mut i: usize = 0;
        while i < schema.types.len()
            invariant
                i <= schema.types@.len(),
                views_of(items@) == index_items(schema.types@.take(i as int)),
            decreases schema.types@.len() - i,
        {
            proof {
                assert(schema.types@.take(i + 1).drop_last() =~= schema.types@.take(i as int));
            }
            Self::build_type(&schema.types[i], &mut items);
            i = i + 1;
        }
        proof {
            assert(schema.types@.take(schema.types@.len() as int) =~= schema.types@);
        }
        SearchIndex(items)
    }

    fn build_type(typ: &FullType, items: &mut Vec<SearchIndexItem>)
        ensures
            views_of(final(items)@) == views_of(old(items)@) + type_items(*typ),
    {
        let name = &typ.name;
        let kind = match typ.kind {
            Kind::List | Kind::NonNull => {
                proof {
                    assert(views_of(items@) + type_items(*typ) =~= views_of(items@));
                }
                return ;
            },
            _ => typ.kind.prefix(),
        };
        let ghost start = views_of(items@);
        let item = SearchIndexItem {
            index: vec![lowercase(name.as_str())],
            name: name.clone(),
            kind: kind.to_owned(),
            parent_name: None,
            parent_kind: None,
        };
        proof {
            lemma_views_push(items@, item);
            assert(item@.keys =~= seq![lower_of(name@)]);
        }
        items.push(item);
        let ghost after_top = views_of(items@);
        if let Some(fields) = &typ.fields {
            let mut j: usize = 0;
            while j < fields.len()
                invariant
                    j <= fields@.len(),
                    kind@ == typ.kind.prefix_spec(),
                    views_of(items@) == after_top + fields@.take(j as int).map_values(
                        |f: Field| field_item(f, name@, kind@),
                    ),
                decreases fields@.len() - j,
            {
                Self::build_field(&fields[j], name.as_str(), kind, items);
                proof {
                    assert(fields@.take(j + 1).map_values(|f: Field| field_item(f, name@, kind@))
                        =~= fields@.take(j as int).map_values(
                        |f: Field| field_item(f, name@, kind@),
                    ).push(field_item(fields@[j as int], name@, kind@)));
                }
                j = j + 1;
            }
            proof {
                assert(fields@.take(fields@.len() as int) =~= fields@);
            }
        }
        let ghost after_fields = views_of(items@);
        if let Some(enum_values) = &typ.enum_values {
            let mut j: usize = 0;
            while j < enum_values.len()
                invariant
                    j <= enum_values@.len(),
                    views_of(items@) == after_fields + enum_values@.take(j as int).map_values(
                        |v: EnumValue| enum_value_item(v, name@, kind@),
                    ),
                decreases enum_values@.len() - j,
            {
                Self::build_enum_value(&enum_values[j], name.as_str(), kind, items);
                proof {
                    assert(enum_values@.take(j + 1).map_values(
                        |v: EnumValue| enum_value_item(v, name@, kind@),
                    ) =~= enum_values@.take(j as int).map_values(
                        |v: EnumValue| enum_value_item(v, name@, kind@),
                    ).push(enum_value_item(enum_values@[j as int], name@, kind@)));
                }
                j = j + 1;
            }
            proof {
                assert(enum_values@.take(enum_values@.len() as int) =~= enum_values@);
            }
        }
        let ghost after_values = views_of(items@);
        if let Some(input_fields) = &typ.input_fields {
            let mut j: usize = 0;
            while j < input_fields.len()
                invariant
                    j <= input_fields@.len(),
                    views_of(items@) == after_values + input_fields@.take(j as int).map_values(
                        |v: InputValue| input_field_item(v, name@, kind@),
                    ),
                decreases input_fields@.len() - j,
            {
                Self::build_input_field(&input_fields[j], name.as_str(), kind, items);
                proof {
                    assert(input_fields@.take(j + 1).map_values(
                        |v: InputValue| input_field_item(v, name@, kind@),
                    ) =~= input_fields@.take(j as int).map_values(
                        |v: InputValue| input_field_item(v, name@, kind@),
                    ).push(input_field_item(input_fields@[j as int], name@, kind@)));
                }
                j = j + 1;
            }
            proof {
                assert(input_fields@.take(input_fields@.len() as int) =~= input_fields@);
            }
        }
        proof {
            assert(views_of(items@) =~= start + type_items(*typ));
        }
    }

    fn build_enum_value(
        enum_value: &EnumValue,
        parent_name: &str,
        parent_kind: &str,
        items: &mut Vec<SearchIndexItem>,
    )
        ensures
            views_of(final(items)@) == views_of(old(items)@).push(
                enum_value_item(*enum_value, parent_name@, parent_kind@),
            ),
    {
        let lower = lowercase(enum_value.name.as_str());
        let squashed = strip_underscores(lower.as_str());
        let item = SearchIndexItem {
            index: vec![lower, squashed],
            name: enum_value.name.clone(),
            kind: "enum_value".to_owned(),
            parent_name: Some(parent_name.to_owned()),
            parent_kind: Some(parent_kind.to_owned()),
        };
        proof {
            lemma_views_push(items@, item);
            assert(item@.keys =~= seq![
                lower_of(enum_value.name@),
                without_underscores(lower_of(enum_value.name@)),
            ]);
        }
        items.push(item);
    }

    fn build_input_field(
        input_field: &InputValue,
        parent_name: &str,
        parent_kind: &str,
        items: &mut Vec<SearchIndexItem>,
    )
        ensures
            views_of(final(items)@) == views_of(old(items)@).push(
                input_field_item(*input_field, parent_name@, parent_kind@),
            ),
    {
        let item = SearchIndexItem {
            index: vec![lowercase(input_field.name.as_str())],
            name: input_field.name.clone(),
            kind: "input_field".to_owned(),
            parent_name: Some(parent_name.to_owned()),
            parent_kind: Some(parent_kind.to_owned()),
        };
        proof {
            lemma_views_push(items@, item);
            assert(item@.keys =~= seq![lower_of(input_field.name@)]);
        }
        items.push(item);
    }

    fn build_field(
        field: &Field,
        parent_name: &str,
        parent_kind: &str,
        items: &mut Vec<SearchIndexItem>,
    )
        ensures
            views_of(final(items)@) == views_of(old(items)@).push(
                field_item(*field, parent_name@, parent_kind@),
            ),
    {
        let item = SearchIndexItem {
            index: vec![lowercase(field.name.as_str())],
            name: field.name.clone(),
            kind: "field".to_owned(),
            parent_name: Some(parent_name.to_owned()),
            parent_kind: Some(parent_kind.to_owned()),
        };
        proof {
            lemma_views_push(items@, item);
            assert(item@.keys =~= seq![lower_of(field.name@)]);
        }
        items.push(item);
    }
}

} // verus!
