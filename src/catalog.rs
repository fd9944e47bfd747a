use vstd::prelude::*;

use crate::json::{contains_key, has_key, joined, text_is, texts, JsonValue};
use crate::manager::{MCPServerManager, McpError};
use crate::schema::{convert_input_schema, MCPTool, MCPToolInputSchema, ValidationError};

verus! {

broadcast use vstd::string::group_string_axioms;

/// A tool as a server lists it, before its schema is normalized.
pub struct ListedTool {
    pub name: String,
    pub description: Option<String>,
    pub input_schema: JsonValue,
}

/// The listing of one server: its name and what listing its tools gave.
pub type ServerListing = (String, Result<Vec<MCPTool>, McpError>);

/// Each tool that the successful listings hold, with the prefix its name gets:
/// the server's name and `sep`. Failed listings contribute nothing.
pub open spec fn gathered(outcomes: Seq<ServerListing>, sep: Seq<char>) -> Seq<(Seq<char>, MCPTool)>
    decreases outcomes.len(),
{
    if outcomes.len() == 0 {
        Seq::empty()
    } else {
        let last = outcomes.last();
        gathered(outcomes.drop_last(), sep) + match last.1 {
            Ok(ts) => ts@.map_values(|t: MCPTool| (last.0@ + sep, t)),
            Err(_) => Seq::empty(),
        }
    }
}

/// `r` is `t` with `prefix` put before its name.
pub open spec fn renamed(r: MCPTool, t: MCPTool, prefix: Seq<char>) -> bool {
    &&& r.name@ == prefix + t.name@
    &&& r.description == t.description
    &&& r.input_schema == t.input_schema
}

/// The tools of `tools` whose schema is valid, in order.
pub open spec fn valid_only(tools: Seq<MCPTool>) -> Seq<MCPTool>
    decreases tools.len(),
{
    if tools.len() == 0 {
        Seq::empty()
    } else {
        let rest = valid_only(tools.drop_last());
        if tools.last().input_schema.is_valid() {
            rest.push(tools.last())
        } else {
            rest
        }
    }
}

/// The first required name of `schema` that is not a property.
pub open spec fn first_undefined(schema: MCPToolInputSchema, j: int) -> bool {
    match schema.required_names() {
        Some(names) => 0 <= j < names.len() && !has_key(schema.properties@, names[j]) && forall|
            k: int,
        | 0 <= k < j ==> has_key(schema.properties@, #[trigger] names[k]),
        None => false,
    }
}

/// A listed tool in canonical form; a missing description becomes empty.
pub fn tool_from_listing(tool: ListedTool) -> (r: MCPTool)
    ensures
        r.name == tool.name,
        r.description@ == match tool.description {
            Some(d) => d@,
            None => Seq::empty(),
        },
        match tool.input_schema {
            JsonValue::Object(entries) => r.input_schema.normalizes(entries@),
            _ => r.input_schema.is_empty_object(),
        },
{
    let description = match tool.description {
        Some(d) => d,
        None => String::new(),
    };
    MCPTool {
        name: tool.name,
        description,
        input_schema: convert_input_schema(tool.input_schema),
    }
}

/// Collects the tools of every successful listing, in order, naming each
/// `<server><sep><tool>`; a server whose listing failed is skipped.
pub fn aggregate_tools(outcomes: Vec<ServerListing>, sep: &str) -> (r: Vec<MCPTool>)
    ensures
        r@.len() == gathered(outcomes@, sep@).len(),
        forall|i: int|
            0 <= i < r@.len() ==> renamed(
                #[trigger] r@[i],
                gathered(outcomes@, sep@)[i].1,
                gathered(outcomes@, sep@)[i].0,
            ),
{
    let ghost orig = outcomes@;
    let n: usize = outcomes.len();
    let mut rest = outcomes;
    let mut out: Vec<MCPTool> = Vec::new();
    let mut i: usize = 0;
    while rest.len() > 0
        invariant
            orig.len() == n,
            i + rest@.len() == n,
            rest@ == orig.subrange(i as int, n as int),
            out@.len() == gathered(orig.subrange(0, i as int), sep@).len(),
            forall|k: int|
                0 <= k < out@.len() ==> renamed(
                    #[trigger] out@[k],
                    gathered(orig.subrange(0, i as int), sep@)[k].1,
                    gathered(orig.subrange(0, i as int), sep@)[k].0,
                ),
        decreases rest.len(),
    {
        let (server, listing) = rest.remove(0);
        let ghost g0 = gathered(orig.subrange(0, i as int), sep@);
        proof {
            assert(orig.subrange(0, i + 1).drop_last() =~= orig.subrange(0, i as int));
        }
        match listing {
            Ok(tools) => {
                let ghost ts = tools@;
                let ghost g1 = gathered(orig.subrange(0, i + 1), sep@);
                assert(g1 =~= g0 + ts.map_values(|t: MCPTool| (server@ + sep@, t)));
                let prefix = joined(server.as_str(), sep);
                let mut tools = tools;
                let mut k: usize = 0;
                let tn: usize = tools.len();
                while tools.len() > 0
                    invariant
                        tn == ts.len(),
                        k + tools@.len() == tn,
                        tools@ == ts.subrange(k as int, tn as int),
                        prefix@ == server@ + sep@,
                        g1 == g0 + ts.map_values(|t: MCPTool| (server@ + sep@, t)),
                        out@.len() == g0.len() + k,
                        forall|q: int|
                            0 <= q < out@.len() ==> renamed(#[trigger] out@[q], g1[q].1, g1[q].0),
                    decreases tools.len(),
                {
                    let mut t = tools.remove(0);
                    let ghost t0 = t;
                    t.name = joined(prefix.as_str(), t.name.as_str());
                    out.push(t);
                    assert(g1[g0.len() + k] == (server@ + sep@, t0));
                    k = k + 1;
                }
            },
            Err(_) => {
                assert(gathered(orig.subrange(0, i + 1), sep@) =~= g0);
            },
        }
        i = i + 1;
    }
    assert(orig.subrange(0, n as int) =~= orig);
    out
}

/// When one of two servers fails to list its tools, the collection holds exactly
/// the other server's tools, in either order of the two; it is not empty when
/// that server has tools.
pub proof fn lemma_failed_listing_is_skipped(
    ok_server: String,
    tools: Vec<MCPTool>,
    failed_server: String,
    error: McpError,
    sep: Seq<char>,
)
    ensures
        gathered(seq![(ok_server, Ok(tools)), (failed_server, Err(error))], sep) == tools@.map_values(
            |t: MCPTool| (ok_server@ + sep, t),
        ),
        gathered(seq![(failed_server, Err(error)), (ok_server, Ok(tools))], sep) == tools@.map_values(
            |t: MCPTool| (ok_server@ + sep, t),
        ),
        tools@.len() > 0 ==> gathered(
            seq![(ok_server, Ok(tools)), (failed_server, Err(error))],
            sep,
        ).len() > 0,
{
    let a: ServerListing = (ok_server, Ok(tools));
    let b: ServerListing = (failed_server, Err(error));
    let m = tools@.map_values(|t: MCPTool| (ok_server@ + sep, t));
    let s1 = seq![a, b];
    let s2 = seq![b, a];
    assert(s1.drop_last() =~= seq![a]);
    assert(seq![a].drop_last() =~= Seq::<ServerListing>::empty());
    assert(s2.drop_last() =~= seq![b]);
    assert(seq![b].drop_last() =~= Seq::<ServerListing>::empty());
    assert(gathered(Seq::<ServerListing>::empty(), sep) == Seq::<(Seq<char>, MCPTool)>::empty());
    assert(seq![a].last() == a);
    assert(seq![b].last() == b);
    assert(gathered(seq![a], sep) =~= m);
    assert(gathered(seq![b], sep) =~= Seq::<(Seq<char>, MCPTool)>::empty());
    assert(gathered(s1, sep) =~= m);
    assert(gathered(s2, sep) =~= m);
}

/// Every tool that validation lets through has an object schema whose required
/// names are all properties.
pub proof fn lemma_validated_tools_are_well_formed(tools: Seq<MCPTool>)
    ensures
        forall|i: int|
            0 <= i < valid_only(tools).len() ==> (#[trigger] valid_only(tools)[i]).input_schema.schema_type@
                == "object"@ && valid_only(tools)[i].input_schema.required_within_properties(),
    decreases tools.len(),
{
    if tools.len() > 0 {
        lemma_validated_tools_are_well_formed(tools.drop_last());
    }
}

impl<C> MCPServerManager<C> {
    /// Checks that a tool's schema is an object schema whose required names are
    /// all properties.
    pub fn validate_tool_schema(tool: &MCPTool) -> (r: Result<(), ValidationError>)
        ensures
            r is Ok <==> tool.input_schema.is_valid(),
            match r {
                Ok(_) => true,
                Err(ValidationError::InvalidSchemaType { tool: t, found }) => t@ == tool.name@
                    && found@ == tool.input_schema.schema_type@ && tool.input_schema.schema_type@
                    != "object"@,
                Err(ValidationError::UndefinedRequired { tool: t, field }) => t@ == tool.name@
                    && tool.input_schema.schema_type@ == "object"@ && exists|j: int|
                    first_undefined(tool.input_schema, j) && tool.input_schema.required_names()->0[j]
                        == field@,
            },
    {
        if !text_is(&tool.input_schema.schema_type, "object") {
            return Err(
                ValidationError::InvalidSchemaType {
                    tool: tool.name.clone(),
                    found: tool.input_schema.schema_type.clone(),
                },
            );
        }
        match &tool.input_schema.required {
            Some(required) => {
                let ghost names = texts(required@);
                let mut j: usize = 0;
                while j < required.len()
                    invariant
                        j <= required@.len(),
                        tool.input_schema.required == Some(*required),
                        tool.input_schema.schema_type@ == "object"@,
                        names == texts(required@),
                        forall|k: int| 0 <= k < j ==> has_key(tool.input_schema.properties@, #[trigger] names[k]),
                    decreases required@.len() - j,
                {
                    if !contains_key(&tool.input_schema.properties, &required[j]) {
                        assert(first_undefined(tool.input_schema, j as int));
                        let field = required[j].clone();
                        assert(tool.input_schema.required_names()->0[j as int] == field@);
                        return Err(
                            ValidationError::UndefinedRequired { tool: tool.name.clone(), field },
                        );
                    }
                    j = j + 1;
                }
                Ok(())
            },
            None => Ok(()),
        }
    }

    /// The tools of a listing whose schemas are valid; the others are dropped.
    pub fn get_validated_tools(tools: Vec<MCPTool>) -> (r: Vec<MCPTool>)
        ensures
            r@ == valid_only(tools@),
    {
        let ghost orig = tools@;
        let n: usize = tools.len();
        let mut rest = tools;
        let mut out: Vec<MCPTool> = Vec::new();
        let mut i: usize = 0;
        while rest.len() > 0
            invariant
                orig.len() == n,
                i + rest@.len() == n,
                rest@ == orig.subrange(i as int, n as int),
                out@ == valid_only(orig.subrange(0, i as int)),
            decreases rest.len(),
        {
            let t = rest.remove(0);
            proof {
                assert(orig.subrange(0, i + 1).drop_last() =~= orig.subrange(0, i as int));
            }
            if Self::validate_tool_schema(&t).is_ok() {
                out.push(t);
            }
            i = i + 1;
        }
        assert(orig.subrange(0, n as int) =~= orig);
        out
    }

    /// The tools of a server's listing in canonical form, or the failure that the
    /// server reported.
    pub fn convert_tool_listing(listing: Result<Vec<ListedTool>, String>) -> (r: Result<
        Vec<MCPTool>,
        McpError,
    >)
        ensures
            match listing {
                Ok(ts) => r matches Ok(v) && v@.len() == ts@.len() && forall|i: int|
                    0 <= i < ts@.len() ==> (#[trigger] v@[i]).name == ts@[i].name && v@[i].description@
                        == (match ts@[i].description {
                        Some(d) => d@,
                        None => Seq::empty(),
                    }) && match ts@[i].input_schema {
                        JsonValue::Object(entries) => v@[i].input_schema.normalizes(entries@),
                        _ => v@[i].input_schema.is_empty_object(),
                    },
                Err(e) => r matches Err(McpError::Remote(m)) && m == e,
            },
    {
        match listing {
            Ok(tools) => {
                let ghost orig = tools@;
                let n: usize = tools.len();
                let mut rest = tools;
                let mut out: Vec<MCPTool> = Vec::new();
                let mut i: usize = 0;
                while rest.len() > 0
                    invariant
                        orig.len() == n,
                        i + rest@.len() == n,
                        rest@ == orig.subrange(i as int, n as int),
                        out@.len() == i,
                        forall|k: int|
                            0 <= k < i ==> (#[trigger] out@[k]).name == orig[k].name && out@[k].description@
                                == (match orig[k].description {
                                Some(d) => d@,
                                None => Seq::empty(),
                            }) && match orig[k].input_schema {
                                JsonValue::Object(entries) => out@[k].input_schema.normalizes(entries@),
                                _ => out@[k].input_schema.is_empty_object(),
                            },
                    decreases rest.len(),
                {
                    let t = rest.remove(0);
                    out.push(tool_from_listing(t));
                    i = i + 1;
                }
                Ok(out)
            },
            Err(e) => Err(McpError::Remote(e)),
        }
    }

    /// The tools of every connected server, named `<server>:<tool>`; servers
    /// whose listing failed are skipped.
    pub fn list_all_tools(outcomes: Vec<ServerListing>) -> (r: Vec<MCPTool>)
        ensures
            r@.len() == gathered(outcomes@, ":"@).len(),
            forall|i: int|
                0 <= i < r@.len() ==> renamed(
                    #[trigger] r@[i],
                    gathered(outcomes@, ":"@)[i].1,
                    gathered(outcomes@, ":"@)[i].0,
                ),
    {
        aggregate_tools(outcomes, ":")
    }

    /// The tools gathered from the servers of a configuration document, named
    /// `<server>__<tool>`; servers that could not be started or listed are skipped.
    pub fn collect_config_tools(outcomes: Vec<ServerListing>) -> (r: Vec<MCPTool>)
        ensures
            r@.len() == gathered(outcomes@, "__"@).len(),
            forall|i: int|
                0 <= i < r@.len() ==> renamed(
                    #[trigger] r@[i],
                    gathered(outcomes@, "__"@)[i].1,
                    gathered(outcomes@, "__"@)[i].0,
                ),
    {
        aggregate_tools(outcomes, "__")
    }
}

} // verus!
