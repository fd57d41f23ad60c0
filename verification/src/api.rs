//! The request and response shapes exchanged with the backend.
//!
//! The request carries the history, the tool definitions and the sampling
//! parameters; optional members are omitted, the tool list is omitted when
//! empty, and the tool-choice member is omitted entirely when tool use is
//! switched off.  The response carries choices, an error report and usage
//! counters; every member the engine does not require is optional.

use vstd::prelude::*;
use crate::json::JsonData;
use crate::json::JsonValue;
use crate::json::all_digits;
use crate::json::digits_val;
use crate::json::get_field;
use crate::json::jx_of;
use crate::json::jx_of_seq;
use crate::json::lemma_jx_of_seq_index;
use crate::json::lemma_jx_of_seq_len;
use crate::json::obj_get;
use crate::json::token_to_u64;
use crate::function::CallV;
use crate::function::FunctionCall;
use crate::function::call_views;
use crate::function::ToolDef;
use crate::function::ToolDefV;
use crate::function::tooldef_views;
use crate::function::enc_tooldef;
use crate::function::encode_tooldef;
use crate::json::jx_of_pairs;
use crate::json::lemma_jx_of_pairs_index;
use crate::json::lemma_jx_of_pairs_len;
use crate::json::lemma_jx_of_pairs_snoc;
use crate::json::u64_dec;
use crate::json::u64_to_token;
use crate::prompt::Message;
use crate::prompt::MessageV;
use crate::prompt::msg_views;
use crate::prompt::enc_message;
use crate::prompt::encode_message;
use crate::prompt::dec_calls_from;
use crate::prompt::decode_calls;

verus! {

broadcast use vstd::std_specs::vec::group_vec_axioms;

/// The rate-limit headers of a response, plus all other headers verbatim.
/// These are informational; the engine never retries on them.
#[derive(Debug, PartialEq)]
pub struct APIResponseHeaders {
    /// The `Retry-After` value, in seconds.
    pub retry_after: Option<u64>,
    /// The `X-RateLimit-Reset` value.
    pub reset: Option<u64>,
    /// The `X-RateLimit-Remaining` value.
    pub rate_limit: Option<u64>,
    /// The `X-RateLimit-Limit` value.
    pub limit: Option<u64>,
    /// Every other header, as name and value.
    pub extra_other: Vec<(String, String)>,
}

/// The message of one response choice.
#[derive(Debug, PartialEq)]
pub struct ResponseMessage {
    /// The role of the sender.
    pub role: String,
    /// The text content, if any.
    pub content: Option<String>,
    /// The tool calls the backend asks for, if any.
    pub tool_calls: Option<Vec<FunctionCall>>,
    /// A refusal message, if any.
    pub refusal: Option<String>,
    /// Annotations, kept verbatim.
    pub annotations: Option<JsonValue>,
}

/// One choice of a response.
#[derive(Debug, PartialEq)]
pub struct Choice {
    /// The position of the choice in the response.
    pub index: u64,
    /// The message of this choice.
    pub message: ResponseMessage,
    /// Why generation stopped.
    pub finish_reason: String,
}

/// The error report of a failed request.
#[derive(Debug, PartialEq)]
pub struct APIError {
    /// The error message.
    pub message: String,
    /// The kind of error.
    pub err_type: String,
    /// The error code.
    pub code: i32,
}

/// Token usage counters.
#[derive(Debug, PartialEq)]
pub struct APIUsage {
    /// Tokens spent on the prompt.
    pub prompt_tokens: Option<u64>,
    /// Tokens spent on the response.
    pub completion_tokens: Option<u64>,
    /// Both together.
    pub total_tokens: Option<u64>,
}

/// A decoded response.
#[derive(Debug, PartialEq)]
pub struct APIResponse {
    /// The returned choices, if any.
    pub choices: Option<Vec<Choice>>,
    /// The model that answered.
    pub model: Option<String>,
    /// The kind of the returned object.
    pub object: Option<String>,
    /// The error report, if the request failed.
    pub error: Option<APIError>,
    /// Token usage, if reported.
    pub usage: Option<APIUsage>,
}

// ---------------------------------------------------------------------------
// Views
// ---------------------------------------------------------------------------

pub struct ResponseMessageV {
    pub role: Seq<char>,
    pub content: Option<Seq<char>>,
    pub tool_calls: Option<Seq<CallV>>,
    pub refusal: Option<Seq<char>>,
    pub annotations: Option<JsonData>,
}

pub struct ChoiceV {
    pub index: u64,
    pub message: ResponseMessageV,
    pub finish_reason: Seq<char>,
}

pub struct APIErrorV {
    pub message: Seq<char>,
    pub err_type: Seq<char>,
    pub code: int,
}

pub struct APIResponseV {
    pub choices: Option<Seq<ChoiceV>>,
    pub model: Option<Seq<char>>,
    pub object: Option<Seq<char>>,
    pub error: Option<APIErrorV>,
    pub usage: Option<APIUsage>,
}

pub open spec fn opt_view(o: Option<String>) -> Option<Seq<char>> {
    match o {
        Some(s) => Some(s@),
        None => None,
    }
}

impl View for ResponseMessage {
    type V = ResponseMessageV;

    open spec fn view(&self) -> ResponseMessageV {
        ResponseMessageV {
            role: self.role@,
            content: opt_view(self.content),
            tool_calls: match self.tool_calls {
                Some(cs) => Some(call_views(cs@)),
                None => None,
            },
            refusal: opt_view(self.refusal),
            annotations: match self.annotations {
                Some(a) => Some(a@),
                None => None,
            },
        }
    }
}

impl View for Choice {
    type V = ChoiceV;

    open spec fn view(&self) -> ChoiceV {
        ChoiceV { index: self.index, message: self.message@, finish_reason: self.finish_reason@ }
    }
}

impl View for APIError {
    type V = APIErrorV;

    open spec fn view(&self) -> APIErrorV {
        APIErrorV { message: self.message@, err_type: self.err_type@, code: self.code as int }
    }
}

impl View for APIResponse {
    type V = APIResponseV;

    open spec fn view(&self) -> APIResponseV {
        APIResponseV {
            choices: match self.choices {
                Some(cs) => Some(choice_views(cs@)),
                None => None,
            },
            model: opt_view(self.model),
            object: opt_view(self.object),
            error: match self.error {
                Some(e) => Some(e@),
                None => None,
            },
            usage: self.usage,
        }
    }
}

pub open spec fn choice_views(s: Seq<Choice>) -> Seq<ChoiceV> {
    Seq::new(s.len(), |i: int| s[i]@)
}

// ---------------------------------------------------------------------------
// Decoding the response, as a specification
// ---------------------------------------------------------------------------

/// An optional string member: absent and `null` read as none, any other
/// non-string value is a malformed response.
pub open spec fn dec_opt_str(ps: Seq<(Seq<char>, JsonData)>, key: Seq<char>) -> Option<
    Option<Seq<char>>,
> {
    match obj_get(ps, key) {
        None => Some(None),
        Some(JsonData::Null) => Some(None),
        Some(JsonData::Str(s)) => Some(Some(s)),
        Some(_) => None,
    }
}

/// An optional unsigned member, with the same reading of absence.
pub open spec fn dec_opt_u64(ps: Seq<(Seq<char>, JsonData)>, key: Seq<char>) -> Option<
    Option<u64>,
> {
    match obj_get(ps, key) {
        None => Some(None),
        Some(JsonData::Null) => Some(None),
        Some(JsonData::Num(t)) => if t.len() > 0 && all_digits(t) && digits_val(t) <= u64::MAX {
            Some(Some(digits_val(t) as u64))
        } else {
            None
        },
        Some(_) => None,
    }
}

/// What a wire value denotes as usage counters, if anything.
pub open spec fn dec_usage(j: JsonData) -> Option<APIUsage> {
    match j {
        JsonData::Obj(ps) => match (
            dec_opt_u64(ps, "prompt_tokens"@),
            dec_opt_u64(ps, "completion_tokens"@),
            dec_opt_u64(ps, "total_tokens"@),
        ) {
            (Some(p), Some(c), Some(t)) => Some(
                APIUsage { prompt_tokens: p, completion_tokens: c, total_tokens: t },
            ),
            _ => None,
        },
        _ => None,
    }
}

/// What a wire value denotes as an error report, if anything.
pub open spec fn dec_error(j: JsonData) -> Option<APIErrorV> {
    match j {
        JsonData::Obj(ps) => match (obj_get(ps, "message"@), obj_get(ps, "type"@), obj_get(
            ps,
            "code"@,
        )) {
            (Some(JsonData::Str(m)), Some(JsonData::Str(ty)), Some(JsonData::Num(t))) => {
                let neg = t.len() > 0 && t[0] == '-';
                let digits = if neg {
                    t.subrange(1, t.len() as int)
                } else {
                    t
                };
                if digits.len() > 0 && all_digits(digits) && (if neg {
                    digits_val(digits) <= 0x8000_0000
                } else {
                    digits_val(digits) <= 0x7fff_ffff
                }) {
                    Some(
                        APIErrorV {
                            message: m,
                            err_type: ty,
                            code: if neg {
                                -(digits_val(digits) as int)
                            } else {
                                digits_val(digits) as int
                            },
                        },
                    )
                } else {
                    None
                }
            },
            _ => None,
        },
        _ => None,
    }
}

/// What a wire value denotes as a choice's message, if anything.
pub open spec fn dec_response_message(j: JsonData) -> Option<ResponseMessageV> {
    match j {
        JsonData::Obj(ps) => match obj_get(ps, "role"@) {
            Some(JsonData::Str(role)) => match (
                dec_opt_str(ps, "content"@),
                dec_opt_str(ps, "refusal"@),
            ) {
                (Some(content), Some(refusal)) => {
                    let annotations = match obj_get(ps, "annotations"@) {
                        None => None,
                        Some(JsonData::Null) => None,
                        Some(a) => Some(a),
                    };
                    match obj_get(ps, "tool_calls"@) {
                        None => Some(
                            ResponseMessageV {
                                role,
                                content,
                                tool_calls: None,
                                refusal,
                                annotations,
                            },
                        ),
                        Some(JsonData::Null) => Some(
                            ResponseMessageV {
                                role,
                                content,
                                tool_calls: None,
                                refusal,
                                annotations,
                            },
                        ),
                        Some(JsonData::Arr(xs)) => match dec_calls_from(xs, 0) {
                            Some(cs) => Some(
                                ResponseMessageV {
                                    role,
                                    content,
                                    tool_calls: Some(cs),
                                    refusal,
                                    annotations,
                                },
                            ),
                            None => None,
                        },
                        Some(_) => None,
                    }
                },
                _ => None,
            },
            _ => None,
        },
        _ => None,
    }
}

/// What a wire value denotes as one choice, if anything.
pub open spec fn dec_choice(j: JsonData) -> Option<ChoiceV> {
    match j {
        JsonData::Obj(ps) => match (obj_get(ps, "index"@), obj_get(ps, "message"@), obj_get(
            ps,
            "finish_reason"@,
        )) {
            (Some(JsonData::Num(t)), Some(mj), Some(JsonData::Str(fin))) => if t.len() > 0
                && all_digits(t) && digits_val(t) <= u64::MAX {
                match dec_response_message(mj) {
                    Some(m) => Some(
                        ChoiceV { index: digits_val(t) as u64, message: m, finish_reason: fin },
                    ),
                    None => None,
                }
            } else {
                None
            },
            _ => None,
        },
        _ => None,
    }
}

/// Decodes the entries of a `choices` array, from position `i` on.
pub open spec fn dec_choices_from(s: Seq<JsonData>, i: int) -> Option<Seq<ChoiceV>>
    decreases s.len() - i,
{
    if !(0 <= i < s.len()) {
        Some(Seq::empty())
    } else {
        match (dec_choice(s[i]), dec_choices_from(s, i + 1)) {
            (Some(c), Some(cs)) => Some(seq![c] + cs),
            _ => None,
        }
    }
}

/// What a wire value denotes as a response, if anything.
pub open spec fn dec_response(j: JsonData) -> Option<APIResponseV> {
    match j {
        JsonData::Obj(ps) => {
            let choices = match obj_get(ps, "choices"@) {
                None => Some(None),
                Some(JsonData::Null) => Some(None),
                Some(JsonData::Arr(xs)) => match dec_choices_from(xs, 0) {
                    Some(cs) => Some(Some(cs)),
                    None => None,
                },
                Some(_) => None,
            };
            let error = match obj_get(ps, "error"@) {
                None => Some(None),
                Some(JsonData::Null) => Some(None),
                Some(e) => match dec_error(e) {
                    Some(ev) => Some(Some(ev)),
                    None => None,
                },
            };
            let usage = match obj_get(ps, "usage"@) {
                None => Some(None),
                Some(JsonData::Null) => Some(None),
                Some(u) => match dec_usage(u) {
                    Some(uv) => Some(Some(uv)),
                    None => None,
                },
            };
            match (choices, dec_opt_str(ps, "model"@), dec_opt_str(ps, "object"@), error, usage) {
                (Some(cs), Some(model), Some(object), Some(err), Some(us)) => Some(
                    APIResponseV { choices: cs, model, object, error: err, usage: us },
                ),
                _ => None,
            }
        },
        _ => None,
    }
}

// ---------------------------------------------------------------------------
// The outbound request
// ---------------------------------------------------------------------------

/// The tool-choice policy of one round.
#[derive(Debug, PartialEq)]
pub enum ToolChoice {
    /// Tools are off for this round; the wire member is omitted entirely.
    Off,
    /// The backend may call tools; encodes as the literal `auto`.
    Auto,
    /// The backend must call some tool; encodes as the literal `required`.
    Required,
    /// The backend must call the named tool.
    Forced(String),
}

pub enum ToolChoiceV {
    Off,
    Auto,
    Required,
    Forced(Seq<char>),
}

impl View for ToolChoice {
    type V = ToolChoiceV;

    open spec fn view(&self) -> ToolChoiceV {
        match self {
            ToolChoice::Off => ToolChoiceV::Off,
            ToolChoice::Auto => ToolChoiceV::Auto,
            ToolChoice::Required => ToolChoiceV::Required,
            ToolChoice::Forced(n) => ToolChoiceV::Forced(n@),
        }
    }
}

/// An assembled request: everything one exchange sends.
#[derive(Debug, PartialEq)]
pub struct APIRequest {
    /// The model to ask.
    pub model: String,
    /// The history to send, in order.
    pub messages: Vec<Message>,
    /// The enabled tool definitions; omitted on the wire when empty.
    pub tools: Vec<ToolDef>,
    /// The tool-choice policy.
    pub tool_choice: ToolChoice,
    /// Whether the backend may ask for several tool calls at once.
    pub parallel_tool_calls: Option<bool>,
    /// The sampling temperature, as a number token.
    pub temperature: Option<String>,
    /// The output token budget.
    pub max_completion_tokens: Option<u64>,
    /// The nucleus-sampling parameter, as a number token.
    pub top_p: Option<String>,
    /// The reasoning effort: `low`, `medium` or `high`.
    pub reasoning_effort: Option<String>,
    /// The presence penalty, as a number token.
    pub presence_penalty: Option<String>,
}

pub struct APIRequestV {
    pub model: Seq<char>,
    pub messages: Seq<MessageV>,
    pub tools: Seq<ToolDefV>,
    pub tool_choice: ToolChoiceV,
    pub parallel_tool_calls: Option<bool>,
    pub temperature: Option<Seq<char>>,
    pub max_completion_tokens: Option<u64>,
    pub top_p: Option<Seq<char>>,
    pub reasoning_effort: Option<Seq<char>>,
    pub presence_penalty: Option<Seq<char>>,
}

impl View for APIRequest {
    type V = APIRequestV;

    open spec fn view(&self) -> APIRequestV {
        APIRequestV {
            model: self.model@,
            messages: msg_views(self.messages@),
            tools: tooldef_views(self.tools@),
            tool_choice: self.tool_choice@,
            parallel_tool_calls: self.parallel_tool_calls,
            temperature: opt_view(self.temperature),
            max_completion_tokens: self.max_completion_tokens,
            top_p: opt_view(self.top_p),
            reasoning_effort: opt_view(self.reasoning_effort),
            presence_penalty: opt_view(self.presence_penalty),
        }
    }
}

/// The `tool_choice` member: a literal for the open modes, an object for a
/// forced tool, nothing at all when tools are off.
pub open spec fn tool_choice_fields(tc: ToolChoiceV) -> Seq<(Seq<char>, JsonData)> {
    match tc {
        ToolChoiceV::Off => Seq::empty(),
        ToolChoiceV::Auto => seq![("tool_choice"@, JsonData::Str("auto"@))],
        ToolChoiceV::Required => seq![("tool_choice"@, JsonData::Str("required"@))],
        ToolChoiceV::Forced(n) => seq![
            (
                "tool_choice"@,
                JsonData::Obj(
                    seq![
                        ("type"@, JsonData::Str("function"@)),
                        ("function"@, JsonData::Obj(seq![("name"@, JsonData::Str(n))])),
                    ],
                ),
            ),
        ],
    }
}

pub open spec fn opt_num_field(key: Seq<char>, o: Option<Seq<char>>) -> Seq<
    (Seq<char>, JsonData),
> {
    match o {
        Some(t) => seq![(key, JsonData::Num(t))],
        None => Seq::empty(),
    }
}

pub open spec fn opt_str_field(key: Seq<char>, o: Option<Seq<char>>) -> Seq<
    (Seq<char>, JsonData),
> {
    match o {
        Some(s) => seq![(key, JsonData::Str(s))],
        None => Seq::empty(),
    }
}

pub open spec fn opt_bool_field(key: Seq<char>, o: Option<bool>) -> Seq<(Seq<char>, JsonData)> {
    match o {
        Some(b) => seq![(key, JsonData::Bool(b))],
        None => Seq::empty(),
    }
}

pub open spec fn opt_u64_field(key: Seq<char>, o: Option<u64>) -> Seq<(Seq<char>, JsonData)> {
    match o {
        Some(n) => seq![(key, JsonData::Num(u64_dec(n as nat)))],
        None => Seq::empty(),
    }
}

pub open spec fn enc_messages(s: Seq<MessageV>) -> Seq<JsonData> {
    Seq::new(s.len(), |i: int| enc_message(s[i]))
}

pub open spec fn enc_tooldefs(s: Seq<ToolDefV>) -> Seq<JsonData> {
    Seq::new(s.len(), |i: int| enc_tooldef(s[i]))
}

/// The `tools` member, omitted entirely when no tool is enabled.
pub open spec fn tools_fields(s: Seq<ToolDefV>) -> Seq<(Seq<char>, JsonData)> {
    if s.len() == 0 {
        Seq::empty()
    } else {
        seq![("tools"@, JsonData::Arr(enc_tooldefs(s)))]
    }
}

/// The wire form of a whole request.
pub open spec fn enc_request(r: APIRequestV) -> JsonData {
    JsonData::Obj(
        seq![
            ("model"@, JsonData::Str(r.model)),
            ("messages"@, JsonData::Arr(enc_messages(r.messages))),
        ] + tools_fields(r.tools) + tool_choice_fields(r.tool_choice) + opt_bool_field(
            "parallel_tool_calls"@,
            r.parallel_tool_calls,
        ) + opt_num_field("temperature"@, r.temperature) + opt_u64_field(
            "max_completion_tokens"@,
            r.max_completion_tokens,
        ) + opt_num_field("top_p"@, r.top_p) + opt_str_field(
            "reasoning_effort"@,
            r.reasoning_effort,
        ) + opt_num_field("presence_penalty"@, r.presence_penalty),
    )
}

/// Encodes a whole request for the wire.
#[verifier::rlimit(100)]
pub fn encode_request(r: &APIRequest) -> (out: JsonValue)
    ensures
        out@ == enc_request(r@),
{
    let ghost rv = r@;
    let mut ps: Vec<(String, JsonValue)> = Vec::new();
    let ghost head = seq![
        ("model"@, JsonData::Str(rv.model)),
        ("messages"@, JsonData::Arr(enc_messages(rv.messages))),
    ];
    ps.push((String::from_str("model"), JsonValue::Str(r.model.clone())));
    let mut items: Vec<JsonValue> = Vec::new();
    let mut i: usize = 0;
    while i < r.messages.len()
        invariant
            0 <= i <= r.messages@.len(),
            items@.len() == i,
            forall|k: int|
                0 <= k < i ==> jx_of(#[trigger] items@[k]) == enc_message(r.messages@[k]@),
        decreases r.messages@.len() - i,
    {
        items.push(encode_message(&r.messages[i]));
        i = i + 1;
    }
    proof {
        lemma_jx_of_seq_len(items@);
        assert forall|k: int| 0 <= k < items@.len() implies jx_of_seq(items@)[k] == enc_messages(
            rv.messages,
        )[k] by {
            lemma_jx_of_seq_index(items@, k);
        }
        assert(jx_of_seq(items@) =~= enc_messages(rv.messages));
    }
    ps.push((String::from_str("messages"), JsonValue::Arr(items)));
    proof {
        lemma_jx_of_pairs_len(ps@);
        lemma_jx_of_pairs_index(ps@, 0);
        lemma_jx_of_pairs_index(ps@, 1);
        assert(jx_of_pairs(ps@) =~= head);
    }
    if r.tools.len() > 0 {
        let mut tds: Vec<JsonValue> = Vec::new();
        let mut i: usize = 0;
        while i < r.tools.len()
            invariant
                0 <= i <= r.tools@.len(),
                tds@.len() == i,
                forall|k: int|
                    0 <= k < i ==> jx_of(#[trigger] tds@[k]) == enc_tooldef(r.tools@[k]@),
            decreases r.tools@.len() - i,
        {
            tds.push(encode_tooldef(&r.tools[i]));
            i = i + 1;
        }
        proof {
            lemma_jx_of_seq_len(tds@);
            assert forall|k: int| 0 <= k < tds@.len() implies jx_of_seq(tds@)[k] == enc_tooldefs(
                rv.tools,
            )[k] by {
                lemma_jx_of_seq_index(tds@, k);
            }
            assert(jx_of_seq(tds@) =~= enc_tooldefs(rv.tools));
        }
        let ghost before = ps@;
        ps.push((String::from_str("tools"), JsonValue::Arr(tds)));
        proof {
            lemma_jx_of_pairs_snoc(before, ps@.last());
            assert(ps@ =~= before.push(ps@.last()));
            assert(jx_of_pairs(ps@) =~= head + tools_fields(rv.tools));
        }
    } else {
        proof {
            assert(tools_fields(rv.tools) =~= Seq::<(Seq<char>, JsonData)>::empty());
            assert(jx_of_pairs(ps@) =~= head + tools_fields(rv.tools));
        }
    }
    let ghost done2 = head + tools_fields(rv.tools);
    match &r.tool_choice {
        ToolChoice::Off => {
            proof {
                assert(jx_of_pairs(ps@) =~= done2 + tool_choice_fields(rv.tool_choice));
            }
        },
        ToolChoice::Auto => {
            let ghost before = ps@;
            ps.push((String::from_str("tool_choice"), JsonValue::Str(String::from_str("auto"))));
            proof {
                lemma_jx_of_pairs_snoc(before, ps@.last());
                assert(ps@ =~= before.push(ps@.last()));
                assert(jx_of_pairs(ps@) =~= done2 + tool_choice_fields(rv.tool_choice));
            }
        },
        ToolChoice::Required => {
            let ghost before = ps@;
            ps.push(
                (String::from_str("tool_choice"), JsonValue::Str(String::from_str("required"))),
            );
            proof {
                lemma_jx_of_pairs_snoc(before, ps@.last());
                assert(ps@ =~= before.push(ps@.last()));
                assert(jx_of_pairs(ps@) =~= done2 + tool_choice_fields(rv.tool_choice));
            }
        },
        ToolChoice::Forced(n) => {
            let mut fo: Vec<(String, JsonValue)> = Vec::new();
            fo.push((String::from_str("name"), JsonValue::Str(n.clone())));
            let mut tc: Vec<(String, JsonValue)> = Vec::new();
            tc.push((String::from_str("type"), JsonValue::Str(String::from_str("function"))));
            tc.push((String::from_str("function"), JsonValue::Obj(fo)));
            let ghost before = ps@;
            ps.push((String::from_str("tool_choice"), JsonValue::Obj(tc)));
            proof {
                let inner = tool_choice_fields(rv.tool_choice)[0].1;
                lemma_jx_of_pairs_len(tc@);
                lemma_jx_of_pairs_index(tc@, 0);
                lemma_jx_of_pairs_index(tc@, 1);
                lemma_jx_of_pairs_len(tc@[1].1->Obj_0@);
                lemma_jx_of_pairs_index(tc@[1].1->Obj_0@, 0);
                assert(jx_of_pairs(tc@[1].1->Obj_0@) =~= seq![("name"@, JsonData::Str(n@))]);
                assert(jx_of_pairs(tc@) =~= inner->Obj_0);
                lemma_jx_of_pairs_snoc(before, ps@.last());
                assert(ps@ =~= before.push(ps@.last()));
                assert(jx_of_pairs(ps@) =~= done2 + tool_choice_fields(rv.tool_choice));
            }
        },
    }
    let ghost done3 = done2 + tool_choice_fields(rv.tool_choice);
    match r.parallel_tool_calls {
        Some(b) => {
            let ghost before = ps@;
            ps.push((String::from_str("parallel_tool_calls"), JsonValue::Bool(b)));
            proof {
                lemma_jx_of_pairs_snoc(before, ps@.last());
                assert(ps@ =~= before.push(ps@.last()));
            }
        },
        None => {},
    }
    let ghost done4 = done3 + opt_bool_field("parallel_tool_calls"@, rv.parallel_tool_calls);
    proof {
        assert(jx_of_pairs(ps@) =~= done4);
    }
    match &r.temperature {
        Some(t) => {
            let ghost before = ps@;
            ps.push((String::from_str("temperature"), JsonValue::Num(t.clone())));
            proof {
                lemma_jx_of_pairs_snoc(before, ps@.last());
                assert(ps@ =~= before.push(ps@.last()));
            }
        },
        None => {},
    }
    let ghost done5 = done4 + opt_num_field("temperature"@, rv.temperature);
    proof {
        assert(jx_of_pairs(ps@) =~= done5);
    }
    match r.max_completion_tokens {
        Some(nt) => {
            let ghost before = ps@;
            ps.push((String::from_str("max_completion_tokens"), JsonValue::Num(u64_to_token(nt))));
            proof {
                lemma_jx_of_pairs_snoc(before, ps@.last());
                assert(ps@ =~= before.push(ps@.last()));
            }
        },
        None => {},
    }
    let ghost done6 = done5 + opt_u64_field("max_completion_tokens"@, rv.max_completion_tokens);
    proof {
        assert(jx_of_pairs(ps@) =~= done6);
    }
    match &r.top_p {
        Some(t) => {
            let ghost before = ps@;
            ps.push((String::from_str("top_p"), JsonValue::Num(t.clone())));
            proof {
                lemma_jx_of_pairs_snoc(before, ps@.last());
                assert(ps@ =~= before.push(ps@.last()));
            }
        },
        None => {},
    }
    let ghost done7 = done6 + opt_num_field("top_p"@, rv.top_p);
    proof {
        assert(jx_of_pairs(ps@) =~= done7);
    }
    match &r.reasoning_effort {
        Some(t) => {
            let ghost before = ps@;
            ps.push((String::from_str("reasoning_effort"), JsonValue::Str(t.clone())));
            proof {
                lemma_jx_of_pairs_snoc(before, ps@.last());
                assert(ps@ =~= before.push(ps@.last()));
            }
        },
        None => {},
    }
    let ghost done8 = done7 + opt_str_field("reasoning_effort"@, rv.reasoning_effort);
    proof {
        assert(jx_of_pairs(ps@) =~= done8);
    }
    match &r.presence_penalty {
        Some(t) => {
            let ghost before = ps@;
            ps.push((String::from_str("presence_penalty"), JsonValue::Num(t.clone())));
            proof {
                lemma_jx_of_pairs_snoc(before, ps@.last());
                assert(ps@ =~= before.push(ps@.last()));
            }
        },
        None => {},
    }
    let ghost done9 = done8 + opt_num_field("presence_penalty"@, rv.presence_penalty);
    proof {
        assert(jx_of_pairs(ps@) =~= done9);
        assert(enc_request(rv)->Obj_0 =~= done9);
    }
    JsonValue::Obj(ps)
}

// ---------------------------------------------------------------------------
// The executable decoder
// ---------------------------------------------------------------------------

/// Reads an optional string member; fails on a value of another kind.
fn get_opt_str(ps: &Vec<(String, JsonValue)>, key: &String) -> (r: Option<Option<String>>)
    ensures
        ({
            let sp = dec_opt_str(crate::json::jx_of_pairs(ps@), key@);
            match r {
                None => sp is None,
                Some(o) => sp == Some(opt_view(o)),
            }
        }),
{
    match get_field(ps, key) {
        None => Some(None),
        Some(JsonValue::Null) => Some(None),
        Some(JsonValue::Str(s)) => Some(Some(s.clone())),
        Some(_) => None,
    }
}

/// Reads an optional unsigned member; fails on a value of another kind or
/// a number that is not a plain machine integer.
fn get_opt_u64(ps: &Vec<(String, JsonValue)>, key: &String) -> (r: Option<Option<u64>>)
    ensures
        ({
            let sp = dec_opt_u64(crate::json::jx_of_pairs(ps@), key@);
            match r {
                None => sp is None,
                Some(o) => sp == Some(o),
            }
        }),
{
    match get_field(ps, key) {
        None => Some(None),
        Some(JsonValue::Null) => Some(None),
        Some(JsonValue::Num(t)) => match token_to_u64(t) {
            Some(v) => Some(Some(v)),
            None => None,
        },
        Some(_) => None,
    }
}

/// Decodes usage counters.
pub fn decode_usage(j: &JsonValue) -> (r: Option<APIUsage>)
    ensures
        ({
            let sp = dec_usage(j@);
            match r {
                None => sp is None,
                Some(u) => sp == Some(u),
            }
        }),
{
    let ps = match j {
        JsonValue::Obj(ps) => ps,
        _ => {
            return None;
        },
    };
    let p = match get_opt_u64(ps, &String::from_str("prompt_tokens")) {
        Some(p) => p,
        None => {
            return None;
        },
    };
    let c = match get_opt_u64(ps, &String::from_str("completion_tokens")) {
        Some(c) => c,
        None => {
            return None;
        },
    };
    let t = match get_opt_u64(ps, &String::from_str("total_tokens")) {
        Some(t) => t,
        None => {
            return None;
        },
    };
    Some(APIUsage { prompt_tokens: p, completion_tokens: c, total_tokens: t })
}

/// Decodes an error report.
pub fn decode_error(j: &JsonValue) -> (r: Option<APIError>)
    ensures
        ({
            let sp = dec_error(j@);
            match r {
                None => sp is None,
                Some(e) => sp matches Some(q) && e@ == q,
            }
        }),
{
    let ps = match j {
        JsonValue::Obj(ps) => ps,
        _ => {
            return None;
        },
    };
    let m = match get_field(ps, &String::from_str("message")) {
        Some(JsonValue::Str(m)) => m.clone(),
        _ => {
            return None;
        },
    };
    let ty = match get_field(ps, &String::from_str("type")) {
        Some(JsonValue::Str(t)) => t.clone(),
        _ => {
            return None;
        },
    };
    let t = match get_field(ps, &String::from_str("code")) {
        Some(JsonValue::Num(t)) => t,
        _ => {
            return None;
        },
    };
    let n = t.as_str().unicode_len();
    let neg = n > 0 && t.as_str().get_char(0) == '-';
    let digits = if neg {
        t.as_str().substring_char(1, n)
    } else {
        t.as_str().substring_char(0, n)
    };
    proof {
        if neg {
            assert(digits@ =~= t@.subrange(1, t@.len() as int));
        } else {
            assert(digits@ =~= t@);
        }
    }
    let mag = match token_to_u64(&String::from_str(digits)) {
        Some(v) => v,
        None => {
            return None;
        },
    };
    if neg {
        if mag > 0x8000_0000 {
            return None;
        }
        let code: i32 = if mag == 0x8000_0000 {
            i32::MIN
        } else {
            -(mag as i32)
        };
        Some(APIError { message: m, err_type: ty, code: code })
    } else {
        if mag > 0x7fff_ffff {
            return None;
        }
        Some(APIError { message: m, err_type: ty, code: mag as i32 })
    }
}

/// Decodes the message of one choice.
pub fn decode_response_message(j: &JsonValue) -> (r: Option<ResponseMessage>)
    ensures
        ({
            let sp = dec_response_message(j@);
            match r {
                None => sp is None,
                Some(m) => sp matches Some(q) && m@ == q,
            }
        }),
{
    let ps = match j {
        JsonValue::Obj(ps) => ps,
        _ => {
            return None;
        },
    };
    let role = match get_field(ps, &String::from_str("role")) {
        Some(JsonValue::Str(rr)) => rr.clone(),
        _ => {
            return None;
        },
    };
    let content = match get_opt_str(ps, &String::from_str("content")) {
        Some(c) => c,
        None => {
            return None;
        },
    };
    let refusal = match get_opt_str(ps, &String::from_str("refusal")) {
        Some(rf) => rf,
        None => {
            return None;
        },
    };
    let annotations = match get_field(ps, &String::from_str("annotations")) {
        None => None,
        Some(JsonValue::Null) => None,
        Some(a) => Some(a.deep_clone()),
    };
    match get_field(ps, &String::from_str("tool_calls")) {
        None => Some(
            ResponseMessage { role, content, tool_calls: None, refusal, annotations },
        ),
        Some(JsonValue::Null) => Some(
            ResponseMessage { role, content, tool_calls: None, refusal, annotations },
        ),
        Some(JsonValue::Arr(xs)) => match decode_calls(xs) {
            Some(cs) => Some(
                ResponseMessage { role, content, tool_calls: Some(cs), refusal, annotations },
            ),
            None => None,
        },
        Some(_) => None,
    }
}

/// Decodes one choice.
pub fn decode_choice(j: &JsonValue) -> (r: Option<Choice>)
    ensures
        ({
            let sp = dec_choice(j@);
            match r {
                None => sp is None,
                Some(c) => sp matches Some(q) && c@ == q,
            }
        }),
{
    let ps = match j {
        JsonValue::Obj(ps) => ps,
        _ => {
            return None;
        },
    };
    let t = match get_field(ps, &String::from_str("index")) {
        Some(JsonValue::Num(t)) => t,
        _ => {
            return None;
        },
    };
    let index = match token_to_u64(t) {
        Some(v) => v,
        None => {
            return None;
        },
    };
    let mj = match get_field(ps, &String::from_str("message")) {
        Some(mj) => mj,
        None => {
            return None;
        },
    };
    let fin = match get_field(ps, &String::from_str("finish_reason")) {
        Some(JsonValue::Str(f)) => f.clone(),
        _ => {
            return None;
        },
    };
    match decode_response_message(mj) {
        Some(m) => Some(Choice { index: index, message: m, finish_reason: fin }),
        None => None,
    }
}

/// Decodes a `choices` array.
pub fn decode_choices(xs: &Vec<JsonValue>) -> (r: Option<Vec<Choice>>)
    ensures
        ({
            let sp = dec_choices_from(jx_of_seq(xs@), 0);
            match r {
                None => sp is None,
                Some(cs) => sp matches Some(q) && choice_views(cs@) == q,
            }
        }),
{
    let ghost gxs = jx_of_seq(xs@);
    proof {
        lemma_jx_of_seq_len(xs@);
    }
    let mut acc: Vec<Choice> = Vec::new();
    let mut i: usize = 0;
    while i < xs.len()
        invariant
            0 <= i <= xs@.len(),
            gxs == jx_of_seq(xs@),
            gxs.len() == xs@.len(),
            dec_choices_from(gxs, 0) == match dec_choices_from(gxs, i as int) {
                Some(t) => Some(choice_views(acc@) + t),
                None => None::<Seq<ChoiceV>>,
            },
        decreases xs@.len() - i,
    {
        proof {
            lemma_jx_of_seq_index(xs@, i as int);
        }
        match decode_choice(&xs[i]) {
            None => {
                proof {
                    assert(dec_choices_from(gxs, i as int) is None);
                }
                return None;
            },
            Some(c) => {
                let ghost old_acc = acc@;
                acc.push(c);
                proof {
                    assert(choice_views(acc@) =~= choice_views(old_acc) + seq![c@]);
                    let sp2 = dec_choices_from(gxs, i + 1);
                    if sp2 is Some {
                        let t = sp2->0;
                        assert((choice_views(old_acc) + seq![c@]) + t =~= choice_views(old_acc) + (
                        seq![c@] + t));
                    }
                }
            },
        }
        i = i + 1;
    }
    proof {
        assert(dec_choices_from(gxs, xs@.len() as int) == Some(Seq::<ChoiceV>::empty()));
        assert(choice_views(acc@) + Seq::<ChoiceV>::empty() =~= choice_views(acc@));
    }
    Some(acc)
}

/// Decodes a whole response body.
pub fn decode_response(j: &JsonValue) -> (r: Option<APIResponse>)
    ensures
        ({
            let sp = dec_response(j@);
            match r {
                None => sp is None,
                Some(resp) => sp matches Some(q) && resp@ == q,
            }
        }),
{
    let ps = match j {
        JsonValue::Obj(ps) => ps,
        _ => {
            return None;
        },
    };
    let choices = match get_field(ps, &String::from_str("choices")) {
        None => None,
        Some(JsonValue::Null) => None,
        Some(JsonValue::Arr(xs)) => match decode_choices(xs) {
            Some(cs) => Some(cs),
            None => {
                return None;
            },
        },
        Some(_) => {
            return None;
        },
    };
    let model = match get_opt_str(ps, &String::from_str("model")) {
        Some(m) => m,
        None => {
            return None;
        },
    };
    let object = match get_opt_str(ps, &String::from_str("object")) {
        Some(o) => o,
        None => {
            return None;
        },
    };
    let error = match get_field(ps, &String::from_str("error")) {
        None => None,
        Some(JsonValue::Null) => None,
        Some(e) => match decode_error(e) {
            Some(ev) => Some(ev),
            None => {
                return None;
            },
        },
    };
    let usage = match get_field(ps, &String::from_str("usage")) {
        None => None,
        Some(JsonValue::Null) => None,
        Some(u) => match decode_usage(u) {
            Some(uv) => Some(uv),
            None => {
                return None;
            },
        },
    };
    Some(APIResponse { choices, model, object, error, usage })
}

} // verus!
