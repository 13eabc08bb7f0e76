//! The client-side tool catalog: the thirteen tool definitions the bridge
//! announces to the orchestration layer, with their JSON parameter
//! schemas. Each definition is pinned to its exact shape.

use vstd::prelude::*;
use vstd::string::StringExecFns;
use crate::json::{lemma_arr_view_is, lemma_obj_view_is, JsonValue, JsonView};

verus! {

broadcast use vstd::seq::group_seq_axioms, vstd::std_specs::vec::group_vec_axioms;

/// One catalog entry: type, name, description, and parameter schema.
pub open spec fn spec_client_tool(
    name: Seq<char>,
    description: Seq<char>,
    parameters: JsonView,
) -> JsonView {
    JsonView::Obj(
        seq![
            ("type"@, JsonView::Str("client_side"@)),
            ("name"@, JsonView::Str(name)),
            ("description"@, JsonView::Str(description)),
            ("parameters"@, parameters),
        ],
    )
}

/// An object schema that takes no arguments.
pub open spec fn spec_schema_empty() -> JsonView {
    JsonView::Obj(
        seq![
            ("type"@, JsonView::Str("object"@)),
            ("properties"@, JsonView::Obj(Seq::<(Seq<char>, JsonView)>::empty())),
            ("additionalProperties"@, JsonView::Bool(false)),
        ],
    )
}

/// A property of JSON type `number`.
pub open spec fn spec_prop_number() -> JsonView {
    JsonView::Obj(seq![("type"@, JsonView::Str("number"@))])
}

/// A property of JSON type `integer`.
pub open spec fn spec_prop_integer() -> JsonView {
    JsonView::Obj(seq![("type"@, JsonView::Str("integer"@))])
}

/// A property of JSON type `string` with a description.
pub open spec fn spec_prop_string(description: Seq<char>) -> JsonView {
    JsonView::Obj(
        seq![("type"@, JsonView::Str("string"@)), ("description"@, JsonView::Str(description))],
    )
}

/// An object schema with one required string property.
pub open spec fn spec_schema_one_string(name: Seq<char>, description: Seq<char>) -> JsonView {
    JsonView::Obj(
        seq![
            ("type"@, JsonView::Str("object"@)),
            ("properties"@, JsonView::Obj(seq![(name, spec_prop_string(description))])),
            ("required"@, JsonView::Arr(seq![JsonView::Str(name)])),
            ("additionalProperties"@, JsonView::Bool(false)),
        ],
    )
}

/// An object schema with required numeric `x` and `y` coordinates.
pub open spec fn spec_schema_xy() -> JsonView {
    JsonView::Obj(
        seq![
            ("type"@, JsonView::Str("object"@)),
            (
                "properties"@,
                JsonView::Obj(seq![("x"@, spec_prop_number()), ("y"@, spec_prop_number())]),
            ),
            ("required"@, JsonView::Arr(seq![JsonView::Str("x"@), JsonView::Str("y"@)])),
            ("additionalProperties"@, JsonView::Bool(false)),
        ],
    )
}

/// The scroll schema: coordinates plus an integer delta.
pub open spec fn spec_schema_scroll() -> JsonView {
    JsonView::Obj(
        seq![
            ("type"@, JsonView::Str("object"@)),
            (
                "properties"@,
                JsonView::Obj(
                    seq![
                        ("x"@, spec_prop_number()),
                        ("y"@, spec_prop_number()),
                        ("dy"@, spec_prop_integer()),
                    ],
                ),
            ),
            (
                "required"@,
                JsonView::Arr(
                    seq![JsonView::Str("x"@), JsonView::Str("y"@), JsonView::Str("dy"@)],
                ),
            ),
            ("additionalProperties"@, JsonView::Bool(false)),
        ],
    )
}

/// The drag schema: two pairs of required coordinates.
pub open spec fn spec_schema_drag() -> JsonView {
    JsonView::Obj(
        seq![
            ("type"@, JsonView::Str("object"@)),
            (
                "properties"@,
                JsonView::Obj(
                    seq![
                        ("x1"@, spec_prop_number()),
                        ("y1"@, spec_prop_number()),
                        ("x2"@, spec_prop_number()),
                        ("y2"@, spec_prop_number()),
                    ],
                ),
            ),
            (
                "required"@,
                JsonView::Arr(
                    seq![
                        JsonView::Str("x1"@),
                        JsonView::Str("y1"@),
                        JsonView::Str("x2"@),
                        JsonView::Str("y2"@),
                    ],
                ),
            ),
            ("additionalProperties"@, JsonView::Bool(false)),
        ],
    )
}

/// The screenshot schema: an optional output path.
pub open spec fn spec_schema_screenshot() -> JsonView {
    JsonView::Obj(
        seq![
            ("type"@, JsonView::Str("object"@)),
            (
                "properties"@,
                JsonView::Obj(seq![("path"@, spec_prop_string("Output path (optional)"@))]),
            ),
            ("additionalProperties"@, JsonView::Bool(false)),
        ],
    )
}

/// The whole catalog, in announcement order.
pub open spec fn spec_tool_catalog() -> Seq<JsonView> {
    seq![
        spec_client_tool("seq_ping"@, "Health check seqd runtime"@, spec_schema_empty()),
        spec_client_tool(
            "seq_app_state"@,
            "Get frontmost/previous app snapshot"@,
            spec_schema_empty(),
        ),
        spec_client_tool("seq_perf"@, "Get seqd performance snapshot"@, spec_schema_empty()),
        spec_client_tool(
            "seq_open_app"@,
            "Open application by name"@,
            spec_schema_one_string("name"@, "App name (e.g. Safari)"@),
        ),
        spec_client_tool(
            "seq_open_app_toggle"@,
            "Toggle to app by name"@,
            spec_schema_one_string("name"@, "App name (e.g. Safari)"@),
        ),
        spec_client_tool(
            "seq_run_macro"@,
            "Run seq macro by name"@,
            spec_schema_one_string("name"@, "Macro name"@),
        ),
        spec_client_tool("seq_click"@, "Click at screen coordinates"@, spec_schema_xy()),
        spec_client_tool(
            "seq_right_click"@,
            "Right click at screen coordinates"@,
            spec_schema_xy(),
        ),
        spec_client_tool(
            "seq_double_click"@,
            "Double click at screen coordinates"@,
            spec_schema_xy(),
        ),
        spec_client_tool("seq_move"@, "Move pointer to coordinates"@, spec_schema_xy()),
        spec_client_tool("seq_scroll"@, "Scroll at coordinates by delta"@, spec_schema_scroll()),
        spec_client_tool("seq_drag"@, "Drag from one coordinate to another"@, spec_schema_drag()),
        spec_client_tool(
            "seq_screenshot"@,
            "Capture screenshot to optional path"@,
            spec_schema_screenshot(),
        ),
    ]
}

/// One catalog entry for a tool.
pub fn client_tool(name: &str, description: &str, parameters: JsonValue) -> (r: JsonValue)
    ensures
        r@ == spec_client_tool(name@, description@, parameters@),
{
    let ghost gparams = parameters@;
    let mut pairs: Vec<(String, JsonValue)> = Vec::new();
    pairs.push((String::from_str("type"), JsonValue::of_str("client_side")));
    pairs.push((String::from_str("name"), JsonValue::of_str(name)));
    pairs.push((String::from_str("description"), JsonValue::of_str(description)));
    pairs.push((String::from_str("parameters"), parameters));
    let ghost gp = pairs@;
    let r = JsonValue::Obj(pairs);
    proof {
        lemma_obj_view_is(gp, spec_client_tool(name@, description@, gparams)->Obj_0);
        assert(r@ == JsonView::Obj(crate::json::pair_views(gp)));
        assert(r@ == spec_client_tool(name@, description@, gparams));
    }
    r
}

fn schema_empty() -> (r: JsonValue)
    ensures
        r@ == spec_schema_empty(),
{
    let props: Vec<(String, JsonValue)> = Vec::new();
    let ghost gprops = props@;
    let props_obj = JsonValue::Obj(props);
    proof {
        lemma_obj_view_is(gprops, Seq::<(Seq<char>, JsonView)>::empty());
        assert(props_obj@ == JsonView::Obj(crate::json::pair_views(gprops)));
    }
    let mut pairs: Vec<(String, JsonValue)> = Vec::new();
    pairs.push((String::from_str("type"), JsonValue::of_str("object")));
    pairs.push((String::from_str("properties"), props_obj));
    pairs.push((String::from_str("additionalProperties"), JsonValue::Bool(false)));
    let ghost gp = pairs@;
    let r = JsonValue::Obj(pairs);
    proof {
        lemma_obj_view_is(gp, spec_schema_empty()->Obj_0);
        assert(r@ == JsonView::Obj(crate::json::pair_views(gp)));
        assert(r@ == spec_schema_empty());
    }
    r
}

fn prop_number() -> (r: JsonValue)
    ensures
        r@ == spec_prop_number(),
{
    let mut pairs: Vec<(String, JsonValue)> = Vec::new();
    pairs.push((String::from_str("type"), JsonValue::of_str("number")));
    let ghost gp = pairs@;
    let r = JsonValue::Obj(pairs);
    proof {
        lemma_obj_view_is(gp, spec_prop_number()->Obj_0);
        assert(r@ == JsonView::Obj(crate::json::pair_views(gp)));
        assert(r@ == spec_prop_number());
    }
    r
}

fn prop_integer() -> (r: JsonValue)
    ensures
        r@ == spec_prop_integer(),
{
    let mut pairs: Vec<(String, JsonValue)> = Vec::new();
    pairs.push((String::from_str("type"), JsonValue::of_str("integer")));
    let ghost gp = pairs@;
    let r = JsonValue::Obj(pairs);
    proof {
        lemma_obj_view_is(gp, spec_prop_integer()->Obj_0);
        assert(r@ == JsonView::Obj(crate::json::pair_views(gp)));
        assert(r@ == spec_prop_integer());
    }
    r
}

fn prop_string(description: &str) -> (r: JsonValue)
    ensures
        r@ == spec_prop_string(description@),
{
    let mut pairs: Vec<(String, JsonValue)> = Vec::new();
    pairs.push((String::from_str("type"), JsonValue::of_str("string")));
    pairs.push((String::from_str("description"), JsonValue::of_str(description)));
    let ghost gp = pairs@;
    let r = JsonValue::Obj(pairs);
    proof {
        lemma_obj_view_is(gp, spec_prop_string(description@)->Obj_0);
        assert(r@ == JsonView::Obj(crate::json::pair_views(gp)));
        assert(r@ == spec_prop_string(description@));
    }
    r
}

fn schema_one_string(name: &str, description: &str) -> (r: JsonValue)
    ensures
        r@ == spec_schema_one_string(name@, description@),
{
    let mut props: Vec<(String, JsonValue)> = Vec::new();
    props.push((String::from_str(name), prop_string(description)));
    let ghost gprops = props@;
    let props_obj = JsonValue::Obj(props);
    proof {
        lemma_obj_view_is(gprops, seq![(name@, spec_prop_string(description@))]);
        assert(props_obj@ == JsonView::Obj(crate::json::pair_views(gprops)));
    }
    let mut req: Vec<JsonValue> = Vec::new();
    req.push(JsonValue::of_str(name));
    let ghost greq = req@;
    let req_arr = JsonValue::Arr(req);
    proof {
        lemma_arr_view_is(greq, seq![JsonView::Str(name@)]);
        assert(req_arr@ == JsonView::Arr(crate::json::seq_views(greq)));
    }
    let mut pairs: Vec<(String, JsonValue)> = Vec::new();
    pairs.push((String::from_str("type"), JsonValue::of_str("object")));
    pairs.push((String::from_str("properties"), props_obj));
    pairs.push((String::from_str("required"), req_arr));
    pairs.push((String::from_str("additionalProperties"), JsonValue::Bool(false)));
    let ghost gp = pairs@;
    let r = JsonValue::Obj(pairs);
    proof {
        lemma_obj_view_is(gp, spec_schema_one_string(name@, description@)->Obj_0);
        assert(r@ == JsonView::Obj(crate::json::pair_views(gp)));
        assert(r@ == spec_schema_one_string(name@, description@));
    }
    r
}

fn schema_xy() -> (r: JsonValue)
    ensures
        r@ == spec_schema_xy(),
{
    let mut props: Vec<(String, JsonValue)> = Vec::new();
    props.push((String::from_str("x"), prop_number()));
    props.push((String::from_str("y"), prop_number()));
    let ghost gprops = props@;
    let props_obj = JsonValue::Obj(props);
    proof {
        lemma_obj_view_is(gprops, seq![("x"@, spec_prop_number()), ("y"@, spec_prop_number())]);
        assert(props_obj@ == JsonView::Obj(crate::json::pair_views(gprops)));
    }
    let mut req: Vec<JsonValue> = Vec::new();
    req.push(JsonValue::of_str("x"));
    req.push(JsonValue::of_str("y"));
    let ghost greq = req@;
    let req_arr = JsonValue::Arr(req);
    proof {
        lemma_arr_view_is(greq, seq![JsonView::Str("x"@), JsonView::Str("y"@)]);
        assert(req_arr@ == JsonView::Arr(crate::json::seq_views(greq)));
    }
    let mut pairs: Vec<(String, JsonValue)> = Vec::new();
    pairs.push((String::from_str("type"), JsonValue::of_str("object")));
    pairs.push((String::from_str("properties"), props_obj));
    pairs.push((String::from_str("required"), req_arr));
    pairs.push((String::from_str("additionalProperties"), JsonValue::Bool(false)));
    let ghost gp = pairs@;
    let r = JsonValue::Obj(pairs);
    proof {
        lemma_obj_view_is(gp, spec_schema_xy()->Obj_0);
        assert(r@ == JsonView::Obj(crate::json::pair_views(gp)));
        assert(r@ == spec_schema_xy());
    }
    r
}

fn schema_scroll() -> (r: JsonValue)
    ensures
        r@ == spec_schema_scroll(),
{
    let mut props: Vec<(String, JsonValue)> = Vec::new();
    props.push((String::from_str("x"), prop_number()));
    props.push((String::from_str("y"), prop_number()));
    props.push((String::from_str("dy"), prop_integer()));
    let ghost gprops = props@;
    let props_obj = JsonValue::Obj(props);
    proof {
        lemma_obj_view_is(gprops, seq![
                ("x"@, spec_prop_number()),
                ("y"@, spec_prop_number()),
                ("dy"@, spec_prop_integer()),
            ]);
        assert(props_obj@ == JsonView::Obj(crate::json::pair_views(gprops)));
    }
    let mut req: Vec<JsonValue> = Vec::new();
    req.push(JsonValue::of_str("x"));
    req.push(JsonValue::of_str("y"));
    req.push(JsonValue::of_str("dy"));
    let ghost greq = req@;
    let req_arr = JsonValue::Arr(req);
    proof {
        lemma_arr_view_is(greq, seq![JsonView::Str("x"@), JsonView::Str("y"@), JsonView::Str("dy"@)]);
        assert(req_arr@ == JsonView::Arr(crate::json::seq_views(greq)));
    }
    let mut pairs: Vec<(String, JsonValue)> = Vec::new();
    pairs.push((String::from_str("type"), JsonValue::of_str("object")));
    pairs.push((String::from_str("properties"), props_obj));
    pairs.push((String::from_str("required"), req_arr));
    pairs.push((String::from_str("additionalProperties"), JsonValue::Bool(false)));
    let ghost gp = pairs@;
    let r = JsonValue::Obj(pairs);
    proof {
        lemma_obj_view_is(gp, spec_schema_scroll()->Obj_0);
        assert(r@ == JsonView::Obj(crate::json::pair_views(gp)));
        assert(r@ == spec_schema_scroll());
    }
    r
}

fn schema_drag() -> (r: JsonValue)
    ensures
        r@ == spec_schema_drag(),
{
    let mut props: Vec<(String, JsonValue)> = Vec::new();
    props.push((String::from_str("x1"), prop_number()));
    props.push((String::from_str("y1"), prop_number()));
    props.push((String::from_str("x2"), prop_number()));
    props.push((String::from_str("y2"), prop_number()));
    let ghost gprops = props@;
    let props_obj = JsonValue::Obj(props);
    proof {
        lemma_obj_view_is(gprops, seq![
                ("x1"@, spec_prop_number()),
                ("y1"@, spec_prop_number()),
                ("x2"@, spec_prop_number()),
                ("y2"@, spec_prop_number()),
            ]);
        assert(props_obj@ == JsonView::Obj(crate::json::pair_views(gprops)));
    }
    let mut req: Vec<JsonValue> = Vec::new();
    req.push(JsonValue::of_str("x1"));
    req.push(JsonValue::of_str("y1"));
    req.push(JsonValue::of_str("x2"));
    req.push(JsonValue::of_str("y2"));
    let ghost greq = req@;
    let req_arr = JsonValue::Arr(req);
    proof {
        lemma_arr_view_is(greq, seq![
                JsonView::Str("x1"@),
                JsonView::Str("y1"@),
                JsonView::Str("x2"@),
                JsonView::Str("y2"@),
            ]);
        assert(req_arr@ == JsonView::Arr(crate::json::seq_views(greq)));
    }
    let mut pairs: Vec<(String, JsonValue)> = Vec::new();
    pairs.push((String::from_str("type"), JsonValue::of_str("object")));
    pairs.push((String::from_str("properties"), props_obj));
    pairs.push((String::from_str("required"), req_arr));
    pairs.push((String::from_str("additionalProperties"), JsonValue::Bool(false)));
    let ghost gp = pairs@;
    let r = JsonValue::Obj(pairs);
    proof {
        lemma_obj_view_is(gp, spec_schema_drag()->Obj_0);
        assert(r@ == JsonView::Obj(crate::json::pair_views(gp)));
        assert(r@ == spec_schema_drag());
    }
    r
}

fn schema_screenshot() -> (r: JsonValue)
    ensures
        r@ == spec_schema_screenshot(),
{
    let mut props: Vec<(String, JsonValue)> = Vec::new();
    props.push((String::from_str("path"), prop_string("Output path (optional)")));
    let ghost gprops = props@;
    let props_obj = JsonValue::Obj(props);
    proof {
        lemma_obj_view_is(gprops, seq![("path"@, spec_prop_string("Output path (optional)"@))]);
        assert(props_obj@ == JsonView::Obj(crate::json::pair_views(gprops)));
    }
    let mut pairs: Vec<(String, JsonValue)> = Vec::new();
    pairs.push((String::from_str("type"), JsonValue::of_str("object")));
    pairs.push((String::from_str("properties"), props_obj));
    pairs.push((String::from_str("additionalProperties"), JsonValue::Bool(false)));
    let ghost gp = pairs@;
    let r = JsonValue::Obj(pairs);
    proof {
        lemma_obj_view_is(gp, spec_schema_screenshot()->Obj_0);
        assert(r@ == JsonView::Obj(crate::json::pair_views(gp)));
        assert(r@ == spec_schema_screenshot());
    }
    r
}

/// The thirteen client-side tool definitions, in announcement order,
/// each exactly as [`spec_tool_catalog`] states.
pub fn client_side_tool_definitions() -> (r: Vec<JsonValue>)
    ensures
        r@.len() == 13,
        forall|i: int| 0 <= i < 13 ==> #[trigger] r@[i]@ == spec_tool_catalog()[i],
{
    let mut defs: Vec<JsonValue> = Vec::new();
    defs.push(client_tool("seq_ping", "Health check seqd runtime", schema_empty()));
    defs.push(client_tool("seq_app_state", "Get frontmost/previous app snapshot", schema_empty()));
    defs.push(client_tool("seq_perf", "Get seqd performance snapshot", schema_empty()));
    defs.push(client_tool(
        "seq_open_app",
        "Open application by name",
        schema_one_string("name", "App name (e.g. Safari)"),
    ));
    defs.push(client_tool(
        "seq_open_app_toggle",
        "Toggle to app by name",
        schema_one_string("name", "App name (e.g. Safari)"),
    ));
    defs.push(client_tool(
        "seq_run_macro",
        "Run seq macro by name",
        schema_one_string("name", "Macro name"),
    ));
    defs.push(client_tool("seq_click", "Click at screen coordinates", schema_xy()));
    defs.push(client_tool("seq_right_click", "Right click at screen coordinates", schema_xy()));
    defs.push(client_tool("seq_double_click", "Double click at screen coordinates", schema_xy()));
    defs.push(client_tool("seq_move", "Move pointer to coordinates", schema_xy()));
    defs.push(client_tool("seq_scroll", "Scroll at coordinates by delta", schema_scroll()));
    defs.push(client_tool("seq_drag", "Drag from one coordinate to another", schema_drag()));
    defs.push(client_tool(
        "seq_screenshot",
        "Capture screenshot to optional path",
        schema_screenshot(),
    ));
    proof {
        assert forall|i: int| 0 <= i < 13 implies #[trigger] defs@[i]@ == spec_tool_catalog()[i]
        by {
        }
    }
    defs
}

} // verus!
