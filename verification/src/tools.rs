//! A small built-in tool: it reports the byte length of a text.

use vstd::prelude::*;
use vstd::utf8::encode_utf8;
use crate::function::Tool;
use crate::json::JsonData;
use crate::json::JsonValue;
use crate::json::get_field;
use crate::json::jx_of_pairs;
use crate::json::jx_of_seq;
use crate::json::lemma_jx_of_pairs_index;
use crate::json::lemma_jx_of_pairs_len;
use crate::json::lemma_jx_of_seq_index;
use crate::json::lemma_jx_of_seq_len;
use crate::json::obj_get;
use crate::json::sp_print;
use crate::json::to_text;
use crate::json::u64_dec;
use crate::json::u64_to_token;

verus! {

/// A tool returning the length of the input text.
#[derive(Debug)]
pub struct TextLengthTool;

impl TextLengthTool {
    /// A new instance of the tool.
    pub fn new() -> (r: TextLengthTool)
        ensures
            r == (TextLengthTool {  }),
    {
        TextLengthTool {  }
    }
}

/// The argument schema the tool reports: one required string, `text`.
pub open spec fn length_tool_schema() -> JsonData {
    JsonData::Obj(
        seq![
            ("type"@, JsonData::Str("object"@)),
            (
                "properties"@,
                JsonData::Obj(
                    seq![
                        (
                            "text"@,
                            JsonData::Obj(
                                seq![
                                    ("type"@, JsonData::Str("string"@)),
                                    (
                                        "description"@,
                                        JsonData::Str("Input text to calculate its length"@),
                                    ),
                                ],
                            ),
                        ),
                    ],
                ),
            ),
            ("required"@, JsonData::Arr(seq![JsonData::Str("text"@)])),
        ],
    )
}

/// What the tool answers: `{"length":N}` with the byte length of the given
/// text, or the missing-parameter error when `text` is absent or not a
/// string.
pub open spec fn length_tool_result(args: JsonData) -> Result<Seq<char>, Seq<char>> {
    match args {
        JsonData::Obj(ps) => match obj_get(ps, "text"@) {
            Some(JsonData::Str(t)) => Ok(
                sp_print(
                    JsonData::Obj(
                        seq![
                            (
                                "length"@,
                                JsonData::Num(u64_dec(((encode_utf8(t).len() as usize) as nat))),
                            ),
                        ],
                    ),
                ),
            ),
            _ => Err("Missing 'text' parameter"@),
        },
        _ => Err("Missing 'text' parameter"@),
    }
}

impl Tool for TextLengthTool {
    fn def_name(&self) -> (r: &str)
        ensures
            r@ == "text_length_tool"@,
    {
        "text_length_tool"
    }

    fn def_description(&self) -> (r: &str)
        ensures
            r@ == "Returns the length of the input text."@,
    {
        "Returns the length of the input text."
    }

    fn def_parameters(&self) -> (r: JsonValue)
        ensures
            r@ == length_tool_schema(),
    {
        let mut text_schema: Vec<(String, JsonValue)> = Vec::new();
        text_schema.push(
            (String::from_str("type"), JsonValue::Str(String::from_str("string"))),
        );
        text_schema.push(
            (
                String::from_str("description"),
                JsonValue::Str(String::from_str("Input text to calculate its length")),
            ),
        );
        let mut properties: Vec<(String, JsonValue)> = Vec::new();
        properties.push((String::from_str("text"), JsonValue::Obj(text_schema)));
        let mut required: Vec<JsonValue> = Vec::new();
        required.push(JsonValue::Str(String::from_str("text")));
        let mut schema: Vec<(String, JsonValue)> = Vec::new();
        schema.push((String::from_str("type"), JsonValue::Str(String::from_str("object"))));
        schema.push((String::from_str("properties"), JsonValue::Obj(properties)));
        schema.push((String::from_str("required"), JsonValue::Arr(required)));
        let r = JsonValue::Obj(schema);
        proof {
            let sps = r->Obj_0@;
            lemma_jx_of_pairs_len(sps);
            lemma_jx_of_pairs_index(sps, 0);
            lemma_jx_of_pairs_index(sps, 1);
            lemma_jx_of_pairs_index(sps, 2);
            let prs = sps[1].1->Obj_0@;
            lemma_jx_of_pairs_len(prs);
            lemma_jx_of_pairs_index(prs, 0);
            let txs = prs[0].1->Obj_0@;
            lemma_jx_of_pairs_len(txs);
            lemma_jx_of_pairs_index(txs, 0);
            lemma_jx_of_pairs_index(txs, 1);
            let rqs = sps[2].1->Arr_0@;
            lemma_jx_of_seq_len(rqs);
            lemma_jx_of_seq_index(rqs, 0);
            assert(jx_of_pairs(txs) =~= length_tool_schema()->Obj_0[1].1->Obj_0[0].1->Obj_0);
            assert(jx_of_pairs(prs) =~= length_tool_schema()->Obj_0[1].1->Obj_0);
            assert(jx_of_seq(rqs) =~= length_tool_schema()->Obj_0[2].1->Arr_0);
            assert(jx_of_pairs(sps) =~= length_tool_schema()->Obj_0);
        }
        r
    }

    fn run(&self, args: JsonValue) -> (r: Result<String, String>)
        ensures
            ({
                let sp = length_tool_result(args@);
                match r {
                    Ok(out) => sp matches Ok(q) && out@ == q,
                    Err(e) => sp matches Err(q) && e@ == q,
                }
            }),
    {
        let text = match &args {
            JsonValue::Obj(ps) => match get_field(ps, &String::from_str("text")) {
                Some(JsonValue::Str(s)) => s,
                _ => {
                    return Err(String::from_str("Missing 'text' parameter"));
                },
            },
            _ => {
                return Err(String::from_str("Missing 'text' parameter"));
            },
        };
        let length = text.as_str().len();
        let mut out: Vec<(String, JsonValue)> = Vec::new();
        out.push((String::from_str("length"), JsonValue::Num(u64_to_token(length as u64))));
        proof {
            lemma_jx_of_pairs_len(out@);
            lemma_jx_of_pairs_index(out@, 0);
            assert(length as nat == (encode_utf8(text@).len() as usize) as nat);
            assert(jx_of_pairs(out@) =~= seq![
                ("length"@, JsonData::Num(u64_dec(((encode_utf8(text@).len() as usize) as nat)))),
            ]);
        }
        Ok(to_text(&JsonValue::Obj(out)))
    }
}

} // verus!
