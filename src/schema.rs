use vstd::prelude::*;

use crate::json::{
    has_key, lemma_lookup_step, lookup, opt_text, string_items, string_member, take_strings, text_is, texts,
    contains_key, JsonValue,
};

verus! {

broadcast use vstd::string::group_string_axioms;

/// The canonical description of the arguments that a tool takes.
pub struct MCPToolInputSchema {
    /// The schema's type; a usable schema says `"object"`.
    pub schema_type: String,
    /// Each parameter's name with its schema fragment.
    pub properties: Vec<(String, JsonValue)>,
    /// The names of the parameters a call must give; never an empty list.
    pub required: Option<Vec<String>>,
    pub description: Option<String>,
    pub title: Option<String>,
    /// Every other member of the source schema, in document order.
    pub additional_properties: Vec<(String, JsonValue)>,
}

/// One capability that a connected server offers.
pub struct MCPTool {
    pub name: String,
    pub description: String,
    pub input_schema: MCPToolInputSchema,
}

/// Why a tool's schema cannot be handed to a consumer.
pub enum ValidationError {
    /// The schema's type is not `"object"`.
    InvalidSchemaType { tool: String, found: String },
    /// A required parameter is missing from the properties.
    UndefinedRequired { tool: String, field: String },
}

/// The members of a schema that the normalizer reads itself.
pub open spec fn is_schema_keyword(k: Seq<char>) -> bool {
    k == "type"@ || k == "properties"@ || k == "required"@ || k == "description"@ || k
        == "title"@
}

/// The members of `entries` that are not schema keywords, in order.
pub open spec fn unknown_members(entries: Seq<(String, JsonValue)>) -> Seq<(String, JsonValue)>
    decreases entries.len(),
{
    if entries.len() == 0 {
        Seq::empty()
    } else {
        let rest = unknown_members(entries.drop_last());
        if is_schema_keyword(entries.last().0@) {
            rest
        } else {
            rest.push(entries.last())
        }
    }
}

/// The schema type read from a schema object: its `type` string, else `"object"`.
pub open spec fn type_of(entries: Seq<(String, JsonValue)>) -> Seq<char> {
    match string_member(entries, "type"@) {
        Some(s) => s,
        None => "object"@,
    }
}

/// The properties read from a schema object: its `properties` object, else none.
pub open spec fn properties_of(entries: Seq<(String, JsonValue)>) -> Seq<(String, JsonValue)> {
    match lookup(entries, "properties"@) {
        Some(JsonValue::Object(m)) => m@,
        _ => Seq::empty(),
    }
}

/// The required names read from a schema object: the strings of its `required`
/// array, when there is at least one.
pub open spec fn required_of(entries: Seq<(String, JsonValue)>) -> Option<Seq<Seq<char>>> {
    match lookup(entries, "required"@) {
        Some(JsonValue::Array(items)) => if string_items(items@).len() > 0 {
            Some(string_items(items@))
        } else {
            None
        },
        _ => None,
    }
}

impl MCPToolInputSchema {
    /// The required names as texts.
    pub open spec fn required_names(&self) -> Option<Seq<Seq<char>>> {
        match self.required {
            Some(v) => Some(texts(v@)),
            None => None,
        }
    }

    /// The empty object schema.
    pub open spec fn is_empty_object(&self) -> bool {
        &&& self.schema_type@ == "object"@
        &&& self.properties@.len() == 0
        &&& self.required is None
        &&& self.description is None
        &&& self.title is None
        &&& self.additional_properties@.len() == 0
    }

    /// This schema is what the normalizer makes of the schema object `entries`.
    pub open spec fn normalizes(&self, entries: Seq<(String, JsonValue)>) -> bool {
        &&& self.schema_type@ == type_of(entries)
        &&& self.properties@ == properties_of(entries)
        &&& self.required_names() == required_of(entries)
        &&& opt_text(self.description) == string_member(entries, "description"@)
        &&& opt_text(self.title) == string_member(entries, "title"@)
        &&& self.additional_properties@ == unknown_members(entries)
    }

    /// Every required name is the name of a property.
    pub open spec fn required_within_properties(&self) -> bool {
        match self.required_names() {
            Some(names) => forall|i: int|
                0 <= i < names.len() ==> has_key(self.properties@, #[trigger] names[i]),
            None => true,
        }
    }

    /// The schema can be handed to a consumer that expects an object schema.
    pub open spec fn is_valid(&self) -> bool {
        self.schema_type@ == "object"@ && self.required_within_properties()
    }

    /// The schema survives being written out and read back: a required list is
    /// never empty, and no extra member bears the name of a schema keyword.
    pub open spec fn round_trips(&self) -> bool {
        &&& (self.required matches Some(v) ==> v@.len() > 0)
        &&& forall|i: int|
            0 <= i < self.additional_properties@.len() ==> !is_schema_keyword(
                (#[trigger] self.additional_properties@[i]).0@,
            )
    }

    /// `m` is the wire form of this schema: members for the keywords, then the
    /// extra members in order.
    pub open spec fn is_wire_form(&self, m: Seq<(String, JsonValue)>) -> bool {
        let k = m.len() - self.additional_properties@.len();
        let h = m.subrange(0, k);
        &&& 0 <= k
        &&& m.subrange(k, m.len() as int) == self.additional_properties@
        &&& forall|i: int| 0 <= i < h.len() ==> is_schema_keyword((#[trigger] h[i]).0@)
        &&& lookup(h, "type"@) == Some(JsonValue::String(self.schema_type))
        &&& lookup(h, "properties"@) == Some(JsonValue::Object(self.properties))
        &&& match self.required {
            Some(v) => lookup(h, "required"@) matches Some(JsonValue::Array(a)) && string_items(a@)
                == texts(v@),
            None => lookup(h, "required"@) is None,
        }
        &&& match self.description {
            Some(d) => lookup(h, "description"@) == Some(JsonValue::String(d)),
            None => lookup(h, "description"@) is None,
        }
        &&& match self.title {
            Some(t) => lookup(h, "title"@) == Some(JsonValue::String(t)),
            None => lookup(h, "title"@) is None,
        }
    }

    /// The empty object schema.
    pub fn empty_object() -> (r: Self)
        ensures
            r.is_empty_object(),
    {
        MCPToolInputSchema {
            schema_type: String::from_str("object"),
            properties: Vec::new(),
            required: None,
            description: None,
            title: None,
            additional_properties: Vec::new(),
        }
    }
}

impl Default for MCPToolInputSchema {
    fn default() -> (r: Self)
        ensures
            r.is_empty_object(),
    {
        MCPToolInputSchema::empty_object()
    }
}

/// Turns a tool's raw JSON schema into its canonical form. Known members are read
/// where they have the expected kind, every other member is kept as it is, and
/// anything but an object gives the empty object schema.
pub fn convert_input_schema(schema: JsonValue) -> (r: MCPToolInputSchema)
    ensures
        match schema {
            JsonValue::Object(entries) => r.normalizes(entries@),
            _ => r.is_empty_object(),
        },
{
    match schema {
        JsonValue::Object(entries) => convert_schema_object(entries),
        _ => MCPToolInputSchema::empty_object(),
    }
}

proof fn lemma_keywords_distinct()
    ensures
        "type"@ != "properties"@,
        "type"@ != "required"@,
        "type"@ != "description"@,
        "type"@ != "title"@,
        "properties"@ != "required"@,
        "properties"@ != "description"@,
        "properties"@ != "title"@,
        "required"@ != "description"@,
        "required"@ != "title"@,
        "description"@ != "title"@,
{
    reveal_strlit("type");
    reveal_strlit("properties");
    reveal_strlit("required");
    reveal_strlit("description");
    reveal_strlit("title");
    assert("required"@[0] != "properties"@[0]);
    assert("type"@[1] != "title"@[1]);
}

fn convert_schema_object(entries: Vec<(String, JsonValue)>) -> (r: MCPToolInputSchema)
    ensures
        r.normalizes(entries@),
{
    let ghost orig = entries@;
    let n: usize = entries.len();
    let mut rest = entries;
    let mut type_v: Option<JsonValue> = None;
    let mut props_v: Option<JsonValue> = None;
    let mut req_v: Option<JsonValue> = None;
    let mut desc_v: Option<JsonValue> = None;
    let mut title_v: Option<JsonValue> = None;
    let mut extra: Vec<(String, JsonValue)> = Vec::new();
    let mut i: usize = 0;
    while rest.len() > 0
        invariant
            orig.len() == n,
            i + rest@.len() == n,
            rest@ == orig.subrange(i as int, n as int),
            type_v == lookup(orig.subrange(0, i as int), "type"@),
            props_v == lookup(orig.subrange(0, i as int), "properties"@),
            req_v == lookup(orig.subrange(0, i as int), "required"@),
            desc_v == lookup(orig.subrange(0, i as int), "description"@),
            title_v == lookup(orig.subrange(0, i as int), "title"@),
            extra@ == unknown_members(orig.subrange(0, i as int)),
        decreases rest.len(),
    {
        let (k, v) = rest.remove(0);
        proof {
            assert(orig.subrange(0, i + 1).drop_last() =~= orig.subrange(0, i as int));
            assert(orig[i as int] == (k, v));
            lemma_lookup_step(orig, i as int, "type"@);
            lemma_lookup_step(orig, i as int, "properties"@);
            lemma_lookup_step(orig, i as int, "required"@);
            lemma_lookup_step(orig, i as int, "description"@);
            lemma_lookup_step(orig, i as int, "title"@);
            lemma_keywords_distinct();
        }
        if text_is(&k, "type") {
            if type_v.is_none() {
                type_v = Some(v);
            }
        } else if text_is(&k, "properties") {
            if props_v.is_none() {
                props_v = Some(v);
            }
        } else if text_is(&k, "required") {
            if req_v.is_none() {
                req_v = Some(v);
            }
        } else if text_is(&k, "description") {
            if desc_v.is_none() {
                desc_v = Some(v);
            }
        } else if text_is(&k, "title") {
            if title_v.is_none() {
                title_v = Some(v);
            }
        } else {
            extra.push((k, v));
        }
        i = i + 1;
    }
    assert(orig.subrange(0, n as int) =~= orig);
    let mut r = MCPToolInputSchema::empty_object();
    r.additional_properties = extra;
    match type_v {
        Some(JsonValue::String(s)) => {
            r.schema_type = s;
        },
        _ => {},
    }
    match props_v {
        Some(JsonValue::Object(m)) => {
            r.properties = m;
        },
        _ => {},
    }
    match req_v {
        Some(JsonValue::Array(items)) => {
            let names = take_strings(items);
            if names.len() > 0 {
                r.required = Some(names);
            }
        },
        _ => {},
    }
    match desc_v {
        Some(JsonValue::String(s)) => {
            r.description = Some(s);
        },
        _ => {},
    }
    match title_v {
        Some(JsonValue::String(s)) => {
            r.title = Some(s);
        },
        _ => {},
    }
    assert(r.schema_type@ == type_of(orig));
    assert(r.properties@ == properties_of(orig));
    assert(r.required_names() == required_of(orig));
    assert(opt_text(r.description) == string_member(orig, "description"@));
    assert(opt_text(r.title) == string_member(orig, "title"@));
    assert(r.additional_properties@ == unknown_members(orig));
    r
}

/// A lookup in `h + t` for a key that `t` does not hold is a lookup in `h`.
proof fn lemma_lookup_in_head(h: Seq<(String, JsonValue)>, t: Seq<(String, JsonValue)>, key: Seq<char>)
    requires
        forall|i: int| 0 <= i < t.len() ==> (#[trigger] t[i]).0@ != key,
    ensures
        lookup(h + t, key) == lookup(h, key),
    decreases t.len(),
{
    if t.len() == 0 {
        assert(h + t =~= h);
    } else {
        assert((h + t).drop_last() =~= h + t.drop_last());
        lemma_lookup_in_head(h, t.drop_last(), key);
    }
}

/// Keyword members are read by the normalizer; the others are kept.
proof fn lemma_unknown_members_split(h: Seq<(String, JsonValue)>, t: Seq<(String, JsonValue)>)
    requires
        forall|i: int| 0 <= i < h.len() ==> is_schema_keyword((#[trigger] h[i]).0@),
        forall|i: int| 0 <= i < t.len() ==> !is_schema_keyword((#[trigger] t[i]).0@),
    ensures
        unknown_members(h + t) == t,
    decreases h.len() + t.len(),
{
    if t.len() == 0 {
        assert(h + t =~= h);
        if h.len() > 0 {
            lemma_unknown_members_split(h.drop_last(), t);
            assert(h.drop_last() + t =~= h.drop_last());
        }
    } else {
        assert((h + t).drop_last() =~= h + t.drop_last());
        lemma_unknown_members_split(h, t.drop_last());
        assert(t.drop_last().push(t.last()) =~= t);
    }
}

/// Writing a schema out in its wire form and normalizing that form gives the
/// same schema back, member for member, when the schema round-trips.
pub proof fn lemma_schema_round_trip(
    s: MCPToolInputSchema,
    wire: Seq<(String, JsonValue)>,
    r: MCPToolInputSchema,
)
    requires
        s.round_trips(),
        s.is_wire_form(wire),
        r.normalizes(wire),
    ensures
        r.schema_type@ == s.schema_type@,
        r.properties@ == s.properties@,
        r.required_names() == s.required_names(),
        opt_text(r.description) == opt_text(s.description),
        opt_text(r.title) == opt_text(s.title),
        r.additional_properties@ == s.additional_properties@,
{
    let k = wire.len() - s.additional_properties@.len();
    let h = wire.subrange(0, k);
    let t = s.additional_properties@;
    assert(wire =~= h + t);
    lemma_keywords_distinct();
    reveal_strlit("type");
    reveal_strlit("properties");
    reveal_strlit("required");
    reveal_strlit("description");
    reveal_strlit("title");
    lemma_lookup_in_head(h, t, "type"@);
    lemma_lookup_in_head(h, t, "properties"@);
    lemma_lookup_in_head(h, t, "required"@);
    lemma_lookup_in_head(h, t, "description"@);
    lemma_lookup_in_head(h, t, "title"@);
    lemma_unknown_members_split(h, t);
    match s.required {
        Some(v) => {
            assert(texts(v@).len() == v@.len());
        },
        None => {},
    }
}

proof fn lemma_lookup_push(s: Seq<(String, JsonValue)>, e: (String, JsonValue))
    ensures
        forall|key: Seq<char>|
            #[trigger] lookup(s.push(e), key) == match lookup(s, key) {
                Some(v) => Some(v),
                None => if e.0@ == key {
                    Some(e.1)
                } else {
                    None
                },
            },
{
    assert(s.push(e).drop_last() =~= s);
}

/// The wire form of a schema: `type`, `properties`, the optional members that
/// are present, then the extra members.
pub fn schema_to_json(s: MCPToolInputSchema) -> (r: JsonValue)
    ensures
        r matches JsonValue::Object(m) && s.is_wire_form(m@),
{
    let ghost s0 = s;
    let mut head: Vec<(String, JsonValue)> = Vec::new();
    let MCPToolInputSchema { schema_type, properties, required, description, title, additional_properties } = s;
    let mut extra = additional_properties;
    proof {
        lemma_keywords_distinct();
    }
    let ghost h0 = head@;
    head.push((String::from_str("type"), JsonValue::String(schema_type)));
    proof { lemma_lookup_push(h0, head@.last()); }
    let ghost h1 = head@;
    head.push((String::from_str("properties"), JsonValue::Object(properties)));
    proof { lemma_lookup_push(h1, head@.last()); }
    let ghost h2 = head@;
    match required {
        Some(v) => {
            let items = strings_to_values(v);
            head.push((String::from_str("required"), JsonValue::Array(items)));
            proof { lemma_lookup_push(h2, head@.last()); }
        },
        None => {},
    }
    let ghost h3 = head@;
    match description {
        Some(d) => {
            head.push((String::from_str("description"), JsonValue::String(d)));
            proof { lemma_lookup_push(h3, head@.last()); }
        },
        None => {},
    }
    let ghost h4 = head@;
    match title {
        Some(t) => {
            head.push((String::from_str("title"), JsonValue::String(t)));
            proof { lemma_lookup_push(h4, head@.last()); }
        },
        None => {},
    }
    let ghost h = head@;
    assert(forall|i: int| 0 <= i < h.len() ==> is_schema_keyword((#[trigger] h[i]).0@));
    assert(lookup(h, "type"@) == Some(JsonValue::String(s0.schema_type)));
    assert(lookup(h, "properties"@) == Some(JsonValue::Object(s0.properties)));
    head.append(&mut extra);
    assert(head@.subrange(0, h.len() as int) =~= h);
    assert(head@.subrange(h.len() as int, head@.len() as int) =~= s0.additional_properties@);
    JsonValue::Object(head)
}

fn strings_to_values(v: Vec<String>) -> (r: Vec<JsonValue>)
    ensures
        string_items(r@) == texts(v@),
{
    let ghost orig = v@;
    let n: usize = v.len();
    let mut rest = v;
    let mut out: Vec<JsonValue> = Vec::new();
    let mut i: usize = 0;
    while rest.len() > 0
        invariant
            orig.len() == n,
            i + rest@.len() == n,
            rest@ == orig.subrange(i as int, n as int),
            string_items(out@) == texts(orig.subrange(0, i as int)),
        decreases rest.len(),
    {
        let x = rest.remove(0);
        let ghost before = out@;
        out.push(JsonValue::String(x));
        assert(out@.drop_last() =~= before);
        assert(texts(orig.subrange(0, i + 1)) =~= texts(orig.subrange(0, i as int)).push(orig[i as int]@));
        i = i + 1;
    }
    assert(orig.subrange(0, n as int) =~= orig);
    out
}

} // verus!
