//! Tool definitions and tool calls, and their wire form.
//!
//! A backend asks for a tool by returning a `FunctionCall`; the client offers
//! tools by sending `ToolDef` entries.  On the wire a call's `arguments`
//! travel as a JSON-encoded string; internally they are a parsed JSON value.
//! The decoder is lenient: a string that fails to parse as JSON is kept as a
//! raw string value, so decoding arguments never fails.

use vstd::prelude::*;
use crate::json::JsonData;
use crate::json::JsonValue;
use crate::json::jx_of;
use crate::json::jx_of_pairs;
use crate::json::lemma_jx_of_pairs_index;
use crate::json::lemma_jx_of_pairs_len;
use crate::json::obj_get;
use crate::json::sp_parse;
use crate::json::wf_json;
use crate::json::sp_print;
use crate::json::get_field;
use crate::json::parse_text;
use crate::json::to_text;

verus! {

broadcast use vstd::std_specs::vec::group_vec_axioms;

/// The inner part of a tool call: the function's name and its arguments.
#[derive(Debug, PartialEq)]
pub struct FunctionCallInner {
    /// The name of the called function.
    pub name: String,
    /// The arguments, as a parsed JSON value.
    pub arguments: JsonValue,
}

/// A backend-requested invocation of a registered tool.
#[derive(Debug, PartialEq)]
pub struct FunctionCall {
    /// The id correlating this call with the tool message answering it.
    pub id: String,
    /// The kind of the call; the wire knows only `function`.
    pub tool_type: String,
    /// The called function and its arguments.
    pub function: FunctionCallInner,
}

/// A function definition offered to the backend.
#[derive(Debug, PartialEq)]
pub struct FunctionDef {
    /// The function's name.
    pub name: String,
    /// A plain-text description of what the function does.
    pub description: String,
    /// A JSON schema for the expected arguments.
    pub parameters: JsonValue,
    /// Whether the backend must follow the schema strictly.
    pub strict: bool,
}

/// A tool entry of the outbound request: kind plus function definition.
#[derive(Debug, PartialEq)]
pub struct ToolDef {
    /// The kind of the tool; the wire knows only `function`.
    pub tool_type: String,
    /// The function the tool exposes.
    pub function: FunctionDef,
}

// ---------------------------------------------------------------------------
// Views
// ---------------------------------------------------------------------------

pub struct CallInnerV {
    pub name: Seq<char>,
    pub arguments: JsonData,
}

pub struct CallV {
    pub id: Seq<char>,
    pub tool_type: Seq<char>,
    pub function: CallInnerV,
}

pub struct FunctionDefV {
    pub name: Seq<char>,
    pub description: Seq<char>,
    pub parameters: JsonData,
    pub strict: bool,
}

pub struct ToolDefV {
    pub tool_type: Seq<char>,
    pub function: FunctionDefV,
}

impl View for FunctionCallInner {
    type V = CallInnerV;

    open spec fn view(&self) -> CallInnerV {
        CallInnerV { name: self.name@, arguments: self.arguments@ }
    }
}

impl View for FunctionCall {
    type V = CallV;

    open spec fn view(&self) -> CallV {
        CallV { id: self.id@, tool_type: self.tool_type@, function: self.function@ }
    }
}

impl View for FunctionDef {
    type V = FunctionDefV;

    open spec fn view(&self) -> FunctionDefV {
        FunctionDefV {
            name: self.name@,
            description: self.description@,
            parameters: self.parameters@,
            strict: self.strict,
        }
    }
}

impl View for ToolDef {
    type V = ToolDefV;

    open spec fn view(&self) -> ToolDefV {
        ToolDefV { tool_type: self.tool_type@, function: self.function@ }
    }
}

/// The views of a sequence of calls.
pub open spec fn call_views(s: Seq<FunctionCall>) -> Seq<CallV> {
    Seq::new(s.len(), |i: int| s[i]@)
}

/// The views of a sequence of tool definitions.
pub open spec fn tooldef_views(s: Seq<ToolDef>) -> Seq<ToolDefV> {
    Seq::new(s.len(), |i: int| s[i]@)
}

// ---------------------------------------------------------------------------
// The wire form of arguments
// ---------------------------------------------------------------------------

/// On the way out, arguments are re-encoded as a JSON-encoded string.
pub open spec fn enc_arguments(a: JsonData) -> JsonData {
    JsonData::Str(sp_print(a))
}

/// On the way in, a string is first read as JSON text; a string that is not
/// JSON is kept raw; any other value stands for itself.
pub open spec fn dec_arguments(j: JsonData) -> JsonData {
    match j {
        JsonData::Str(s) => match sp_parse(s) {
            Some(v) => v,
            None => JsonData::Str(s),
        },
        _ => j,
    }
}

/// Decodes an `arguments` field.  This never fails: a malformed string
/// degrades to the raw text.
pub fn decode_arguments(j: &JsonValue) -> (r: JsonValue)
    ensures
        r@ == dec_arguments(j@),
{
    match j {
        JsonValue::Str(s) => {
            match parse_text(s.as_str()) {
                Some(v) => v,
                None => JsonValue::Str(s.clone()),
            }
        },
        _ => j.deep_clone(),
    }
}

// ---------------------------------------------------------------------------
// The wire form of a tool call
// ---------------------------------------------------------------------------

/// The wire form of one tool call.
pub open spec fn enc_call(c: CallV) -> JsonData {
    JsonData::Obj(
        seq![
            ("id"@, JsonData::Str(c.id)),
            ("type"@, JsonData::Str(c.tool_type)),
            (
                "function"@,
                JsonData::Obj(
                    seq![
                        ("name"@, JsonData::Str(c.function.name)),
                        ("arguments"@, enc_arguments(c.function.arguments)),
                    ],
                ),
            ),
        ],
    )
}

/// What a wire object denotes as a tool call, if anything.
pub open spec fn dec_call(j: JsonData) -> Option<CallV> {
    match j {
        JsonData::Obj(ps) => match (obj_get(ps, "id"@), obj_get(ps, "type"@), obj_get(
            ps,
            "function"@,
        )) {
            (Some(JsonData::Str(id)), Some(JsonData::Str(tt)), Some(JsonData::Obj(fo))) => match (
                obj_get(fo, "name"@),
                obj_get(fo, "arguments"@),
            ) {
                (Some(JsonData::Str(nm)), Some(a)) => Some(
                    CallV {
                        id: id,
                        tool_type: tt,
                        function: CallInnerV { name: nm, arguments: dec_arguments(a) },
                    },
                ),
                _ => None,
            },
            _ => None,
        },
        _ => None,
    }
}

/// Encodes one tool call for the wire.
pub fn encode_call(c: &FunctionCall) -> (r: JsonValue)
    ensures
        r@ == enc_call(c@),
{
    let mut inner: Vec<(String, JsonValue)> = Vec::new();
    inner.push((String::from_str("name"), JsonValue::Str(c.function.name.clone())));
    inner.push((String::from_str("arguments"), JsonValue::Str(to_text(&c.function.arguments))));
    let mut outer: Vec<(String, JsonValue)> = Vec::new();
    outer.push((String::from_str("id"), JsonValue::Str(c.id.clone())));
    outer.push((String::from_str("type"), JsonValue::Str(c.tool_type.clone())));
    outer.push((String::from_str("function"), JsonValue::Obj(inner)));
    let r = JsonValue::Obj(outer);
    proof {
        lemma_jx_of_pairs_len(inner@);
        lemma_jx_of_pairs_index(inner@, 0);
        lemma_jx_of_pairs_index(inner@, 1);
        lemma_jx_of_pairs_len(outer@);
        lemma_jx_of_pairs_index(outer@, 0);
        lemma_jx_of_pairs_index(outer@, 1);
        lemma_jx_of_pairs_index(outer@, 2);
        assert(jx_of_pairs(inner@) =~= seq![
            ("name"@, JsonData::Str(c.function.name@)),
            ("arguments"@, enc_arguments(c.function.arguments@)),
        ]);
        assert(jx_of_pairs(outer@) =~= enc_call(c@)->Obj_0);
    }
    r
}

/// Decodes one tool call from the wire.
pub fn decode_call(j: &JsonValue) -> (r: Option<FunctionCall>)
    ensures
        ({
            let sp = dec_call(j@);
            match r {
                None => sp is None,
                Some(c) => sp matches Some(q) && c@ == q,
            }
        }),
{
    let ps = match j {
        JsonValue::Obj(ps) => ps,
        _ => {
            return None;
        },
    };
    let id = match get_field(ps, &String::from_str("id")) {
        Some(JsonValue::Str(s)) => s.clone(),
        _ => {
            return None;
        },
    };
    let tt = match get_field(ps, &String::from_str("type")) {
        Some(JsonValue::Str(s)) => s.clone(),
        _ => {
            return None;
        },
    };
    let fo = match get_field(ps, &String::from_str("function")) {
        Some(JsonValue::Obj(fo)) => fo,
        _ => {
            return None;
        },
    };
    let nm = match get_field(fo, &String::from_str("name")) {
        Some(JsonValue::Str(s)) => s.clone(),
        _ => {
            return None;
        },
    };
    let a = match get_field(fo, &String::from_str("arguments")) {
        Some(a) => a,
        None => {
            return None;
        },
    };
    let arguments = decode_arguments(a);
    Some(
        FunctionCall {
            id: id,
            tool_type: tt,
            function: FunctionCallInner { name: nm, arguments: arguments },
        },
    )
}

// ---------------------------------------------------------------------------
// The wire form of a tool definition
// ---------------------------------------------------------------------------

/// The wire form of one tool definition.
pub open spec fn enc_tooldef(t: ToolDefV) -> JsonData {
    JsonData::Obj(
        seq![
            ("type"@, JsonData::Str(t.tool_type)),
            (
                "function"@,
                JsonData::Obj(
                    seq![
                        ("name"@, JsonData::Str(t.function.name)),
                        ("description"@, JsonData::Str(t.function.description)),
                        ("parameters"@, t.function.parameters),
                        ("strict"@, JsonData::Bool(t.function.strict)),
                    ],
                ),
            ),
        ],
    )
}

/// Encodes one tool definition for the wire.
pub fn encode_tooldef(t: &ToolDef) -> (r: JsonValue)
    ensures
        r@ == enc_tooldef(t@),
{
    let mut inner: Vec<(String, JsonValue)> = Vec::new();
    inner.push((String::from_str("name"), JsonValue::Str(t.function.name.clone())));
    inner.push((String::from_str("description"), JsonValue::Str(t.function.description.clone())));
    inner.push((String::from_str("parameters"), t.function.parameters.deep_clone()));
    inner.push((String::from_str("strict"), JsonValue::Bool(t.function.strict)));
    let mut outer: Vec<(String, JsonValue)> = Vec::new();
    outer.push((String::from_str("type"), JsonValue::Str(t.tool_type.clone())));
    outer.push((String::from_str("function"), JsonValue::Obj(inner)));
    let r = JsonValue::Obj(outer);
    proof {
        lemma_jx_of_pairs_len(inner@);
        lemma_jx_of_pairs_index(inner@, 0);
        lemma_jx_of_pairs_index(inner@, 1);
        lemma_jx_of_pairs_index(inner@, 2);
        lemma_jx_of_pairs_index(inner@, 3);
        lemma_jx_of_pairs_len(outer@);
        lemma_jx_of_pairs_index(outer@, 0);
        lemma_jx_of_pairs_index(outer@, 1);
        assert(jx_of_pairs(inner@) =~= seq![
            ("name"@, JsonData::Str(t.function.name@)),
            ("description"@, JsonData::Str(t.function.description@)),
            ("parameters"@, t.function.parameters@),
            ("strict"@, JsonData::Bool(t.function.strict)),
        ]);
        assert(jx_of_pairs(outer@) =~= enc_tooldef(t@)->Obj_0);
    }
    r
}

impl FunctionCall {
    /// A copy of the call with the same view.
    pub fn deep_clone(&self) -> (r: FunctionCall)
        ensures
            r@ == self@,
    {
        FunctionCall {
            id: self.id.clone(),
            tool_type: self.tool_type.clone(),
            function: FunctionCallInner {
                name: self.function.name.clone(),
                arguments: self.function.arguments.deep_clone(),
            },
        }
    }
}

/// A call whose arguments the wire can carry faithfully: the arguments tree
/// is well formed and its text fits the machine.
pub open spec fn wf_call(c: CallV) -> bool {
    wf_json(c.function.arguments) && sp_print(c.function.arguments).len() < usize::MAX
}

pub open spec fn wf_calls(cs: Seq<CallV>) -> bool {
    forall|i: int| 0 <= i < cs.len() ==> wf_call(#[trigger] cs[i])
}

/// The tools the engine can dispatch to.
///
/// Implementers describe the tool (name, description, argument schema) and
/// perform it; `run` reports failure as a plain error string and must not
/// abort the process.
pub trait Tool {
    /// The unique name the backend selects the tool by.
    fn def_name(&self) -> &str;

    /// A plain-text description of the tool.
    fn def_description(&self) -> &str;

    /// A JSON schema describing the expected arguments.
    fn def_parameters(&self) -> JsonValue;

    /// Performs the tool on the given arguments.
    fn run(&self, args: JsonValue) -> Result<String, String>;
}

} // verus!
