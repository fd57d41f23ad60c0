//! The message model: one turn of conversation, and its wire form.
//!
//! A message is a closed sum over the roles the backend knows.  Encoding
//! emits the role-specific field set; a `content` of exactly one text item
//! collapses to a bare string.  Decoding reads the same shape back;
//! `decode_message` and `encode_message` are exact inverses, which
//! `lemma_message_round_trip` in the laws module states.

use vstd::prelude::*;
use crate::json::JsonData;
use crate::json::JsonValue;
use crate::json::jx_of;
use crate::json::jx_of_seq;
use crate::json::jx_of_pairs;
use crate::json::lemma_jx_of_seq_index;
use crate::json::lemma_jx_of_seq_len;
use crate::json::lemma_jx_of_pairs_index;
use crate::json::lemma_jx_of_pairs_len;
use crate::json::obj_get;
use crate::json::get_field;
use crate::function::CallV;
use crate::function::FunctionCall;
use crate::function::call_views;
use crate::function::enc_call;
use crate::function::dec_call;
use crate::function::encode_call;
use crate::function::decode_call;

verus! {

broadcast use vstd::std_specs::vec::group_vec_axioms;

/// An image inside a message: a URL (or data URI) and an optional
/// resolution detail.  The engine neither validates nor fetches the URL.
#[derive(Debug, PartialEq)]
pub struct MessageImage {
    /// The image URL, which may also be a base64 data URI.
    pub url: String,
    /// The resolution detail: `low`, `medium` or `auto`.
    pub detail: Option<String>,
}

/// One item of a message's content: text or an image.
#[derive(Debug, PartialEq)]
pub enum MessageContext {
    /// A text item.
    Text(String),
    /// An image item.
    Image(MessageImage),
}

/// One turn of conversation, tagged with its role.
#[derive(Debug, PartialEq)]
pub enum Message {
    /// A message sent by a user.
    User { name: Option<String>, content: Vec<MessageContext> },
    /// The result of a tool call, answering the call with the same id.
    Tool { tool_call_id: String, content: Vec<MessageContext> },
    /// A message from the assistant, possibly asking for tool calls.
    Assistant {
        name: Option<String>,
        content: Vec<MessageContext>,
        tool_calls: Option<Vec<FunctionCall>>,
    },
    /// A system prompt.
    System { name: Option<String>, content: String },
    /// A developer prompt; backends without the role read it as system.
    Developer { name: Option<String>, content: String },
}

// ---------------------------------------------------------------------------
// Views
// ---------------------------------------------------------------------------

pub struct ImageV {
    pub url: Seq<char>,
    pub detail: Option<Seq<char>>,
}

pub enum ContextV {
    Text(Seq<char>),
    Image(ImageV),
}

pub enum MessageV {
    User { name: Option<Seq<char>>, content: Seq<ContextV> },
    Tool { tool_call_id: Seq<char>, content: Seq<ContextV> },
    Assistant {
        name: Option<Seq<char>>,
        content: Seq<ContextV>,
        tool_calls: Option<Seq<CallV>>,
    },
    System { name: Option<Seq<char>>, content: Seq<char> },
    Developer { name: Option<Seq<char>>, content: Seq<char> },
}

pub open spec fn opt_str_view(o: Option<String>) -> Option<Seq<char>> {
    match o {
        Some(s) => Some(s@),
        None => None,
    }
}

impl View for MessageImage {
    type V = ImageV;

    open spec fn view(&self) -> ImageV {
        ImageV { url: self.url@, detail: opt_str_view(self.detail) }
    }
}

impl View for MessageContext {
    type V = ContextV;

    open spec fn view(&self) -> ContextV {
        match self {
            MessageContext::Text(t) => ContextV::Text(t@),
            MessageContext::Image(im) => ContextV::Image(im@),
        }
    }
}

/// The views of a sequence of content items.
pub open spec fn ctx_views(s: Seq<MessageContext>) -> Seq<ContextV> {
    Seq::new(s.len(), |i: int| s[i]@)
}

pub open spec fn opt_calls_view(o: Option<Vec<FunctionCall>>) -> Option<Seq<CallV>> {
    match o {
        Some(cs) => Some(call_views(cs@)),
        None => None,
    }
}

impl View for Message {
    type V = MessageV;

    open spec fn view(&self) -> MessageV {
        match self {
            Message::User { name, content } => MessageV::User {
                name: opt_str_view(*name),
                content: ctx_views(content@),
            },
            Message::Tool { tool_call_id, content } => MessageV::Tool {
                tool_call_id: tool_call_id@,
                content: ctx_views(content@),
            },
            Message::Assistant { name, content, tool_calls } => MessageV::Assistant {
                name: opt_str_view(*name),
                content: ctx_views(content@),
                tool_calls: opt_calls_view(*tool_calls),
            },
            Message::System { name, content } => MessageV::System {
                name: opt_str_view(*name),
                content: content@,
            },
            Message::Developer { name, content } => MessageV::Developer {
                name: opt_str_view(*name),
                content: content@,
            },
        }
    }
}

/// The views of a sequence of messages.
pub open spec fn msg_views(s: Seq<Message>) -> Seq<MessageV> {
    Seq::new(s.len(), |i: int| s[i]@)
}

/// A character a participant name may hold: letters, digits, underscore
/// and hyphen.
pub open spec fn is_name_char(c: char) -> bool {
    ('a' <= c && c <= 'z') || ('A' <= c && c <= 'Z') || ('0' <= c && c <= '9') || c == '_' || c
        == '-'
}

/// Whether a participant name meets the model's invariant: nonempty, made
/// of letters, digits, underscore and hyphen only.
pub open spec fn spec_valid_name(s: Seq<char>) -> bool {
    s.len() > 0 && forall|i: int| 0 <= i < s.len() ==> is_name_char(#[trigger] s[i])
}

/// Checks a participant name against the model's invariant.
pub fn valid_name(s: &str) -> (r: bool)
    ensures
        r == spec_valid_name(s@),
{
    let n = s.unicode_len();
    if n == 0 {
        return false;
    }
    let mut i: usize = 0;
    while i < n
        invariant
            0 <= i <= n,
            n == s@.len(),
            forall|j: int| 0 <= j < i ==> is_name_char(#[trigger] s@[j]),
        decreases n - i,
    {
        let c = s.get_char(i);
        if !(('a' <= c && c <= 'z') || ('A' <= c && c <= 'Z') || ('0' <= c && c <= '9') || c == '_'
            || c == '-') {
            assert(!spec_valid_name(s@));
            return false;
        }
        i = i + 1;
    }
    true
}

/// A message the wire can carry faithfully: every tool call it holds has
/// well-formed arguments.
pub open spec fn wf_message(m: MessageV) -> bool {
    match m {
        MessageV::Assistant { tool_calls: Some(cs), .. } => crate::function::wf_calls(cs),
        _ => true,
    }
}

impl MessageContext {
    /// A copy of the item with the same view.
    pub fn deep_clone(&self) -> (r: MessageContext)
        ensures
            r@ == self@,
    {
        match self {
            MessageContext::Text(t) => MessageContext::Text(t.clone()),
            MessageContext::Image(im) => MessageContext::Image(
                MessageImage {
                    url: im.url.clone(),
                    detail: match &im.detail {
                        Some(d) => Some(d.clone()),
                        None => None,
                    },
                },
            ),
        }
    }
}

fn clone_opt_name(o: &Option<String>) -> (r: Option<String>)
    ensures
        opt_str_view(r) == opt_str_view(*o),
{
    match o {
        Some(s) => Some(s.clone()),
        None => None,
    }
}

fn clone_contexts(cs: &Vec<MessageContext>) -> (r: Vec<MessageContext>)
    ensures
        ctx_views(r@) == ctx_views(cs@),
{
    let mut r: Vec<MessageContext> = Vec::new();
    let mut i: usize = 0;
    while i < cs.len()
        invariant
            0 <= i <= cs@.len(),
            r@.len() == i,
            forall|j: int| 0 <= j < i ==> (#[trigger] r@[j])@ == cs@[j]@,
        decreases cs@.len() - i,
    {
        r.push(cs[i].deep_clone());
        i = i + 1;
    }
    proof {
        assert(ctx_views(r@) =~= ctx_views(cs@));
    }
    r
}

/// A copy of a call list with the same views.
pub fn clone_calls(cs: &Vec<FunctionCall>) -> (r: Vec<FunctionCall>)
    ensures
        call_views(r@) == call_views(cs@),
{
    let mut r: Vec<FunctionCall> = Vec::new();
    let mut i: usize = 0;
    while i < cs.len()
        invariant
            0 <= i <= cs@.len(),
            r@.len() == i,
            forall|j: int| 0 <= j < i ==> (#[trigger] r@[j])@ == cs@[j]@,
        decreases cs@.len() - i,
    {
        r.push(cs[i].deep_clone());
        i = i + 1;
    }
    proof {
        assert(call_views(r@) =~= call_views(cs@));
    }
    r
}

impl Message {
    /// A copy of the message with the same view.
    pub fn deep_clone(&self) -> (r: Message)
        ensures
            r@ == self@,
    {
        match self {
            Message::User { name, content } => Message::User {
                name: clone_opt_name(name),
                content: clone_contexts(content),
            },
            Message::Tool { tool_call_id, content } => Message::Tool {
                tool_call_id: tool_call_id.clone(),
                content: clone_contexts(content),
            },
            Message::Assistant { name, content, tool_calls } => Message::Assistant {
                name: clone_opt_name(name),
                content: clone_contexts(content),
                tool_calls: match tool_calls {
                    Some(cs) => Some(clone_calls(cs)),
                    None => None,
                },
            },
            Message::System { name, content } => Message::System {
                name: clone_opt_name(name),
                content: content.clone(),
            },
            Message::Developer { name, content } => Message::Developer {
                name: clone_opt_name(name),
                content: content.clone(),
            },
        }
    }
}

/// A copy of a history with the same views.
pub fn clone_messages(ms: &Vec<Message>) -> (r: Vec<Message>)
    ensures
        msg_views(r@) == msg_views(ms@),
{
    let mut r: Vec<Message> = Vec::new();
    let mut i: usize = 0;
    while i < ms.len()
        invariant
            0 <= i <= ms@.len(),
            r@.len() == i,
            forall|j: int| 0 <= j < i ==> (#[trigger] r@[j])@ == ms@[j]@,
        decreases ms@.len() - i,
    {
        r.push(ms[i].deep_clone());
        i = i + 1;
    }
    proof {
        assert(msg_views(r@) =~= msg_views(ms@));
    }
    r
}

// ---------------------------------------------------------------------------
// Encoding, as a specification
// ---------------------------------------------------------------------------

/// The wire form of an image.
pub open spec fn enc_image(im: ImageV) -> JsonData {
    JsonData::Obj(
        seq![("url"@, JsonData::Str(im.url))] + match im.detail {
            Some(d) => seq![("detail"@, JsonData::Str(d))],
            None => Seq::empty(),
        },
    )
}

/// The wire form of one content item, as a tagged object.
pub open spec fn enc_context(c: ContextV) -> JsonData {
    match c {
        ContextV::Text(t) => JsonData::Obj(
            seq![("type"@, JsonData::Str("text"@)), ("text"@, JsonData::Str(t))],
        ),
        ContextV::Image(im) => JsonData::Obj(
            seq![("type"@, JsonData::Str("image_url"@)), ("image_url"@, enc_image(im))],
        ),
    }
}

pub open spec fn enc_contexts(s: Seq<ContextV>) -> Seq<JsonData> {
    Seq::new(s.len(), |i: int| enc_context(s[i]))
}

/// The wire form of a content sequence: a single text item collapses to a
/// bare string, anything else is the ordered array of tagged items.
pub open spec fn enc_content(s: Seq<ContextV>) -> JsonData {
    if s.len() == 1 && s[0] is Text {
        JsonData::Str(s[0]->Text_0)
    } else {
        JsonData::Arr(enc_contexts(s))
    }
}

/// The `name` member, present only when a name is present.
pub open spec fn name_fields(name: Option<Seq<char>>) -> Seq<(Seq<char>, JsonData)> {
    match name {
        Some(n) => seq![("name"@, JsonData::Str(n))],
        None => Seq::empty(),
    }
}

pub open spec fn enc_calls(cs: Seq<CallV>) -> Seq<JsonData> {
    Seq::new(cs.len(), |i: int| enc_call(cs[i]))
}

/// The wire form of one message: the role-specific field set.
pub open spec fn enc_message(m: MessageV) -> JsonData {
    match m {
        MessageV::User { name, content } => JsonData::Obj(
            seq![("role"@, JsonData::Str("user"@))] + name_fields(name) + seq![
                ("content"@, enc_content(content)),
            ],
        ),
        MessageV::Tool { tool_call_id, content } => JsonData::Obj(
            seq![
                ("role"@, JsonData::Str("tool"@)),
                ("tool_call_id"@, JsonData::Str(tool_call_id)),
                ("content"@, enc_content(content)),
            ],
        ),
        MessageV::Assistant { name, content, tool_calls } => JsonData::Obj(
            seq![("role"@, JsonData::Str("assistant"@))] + name_fields(name) + seq![
                ("content"@, enc_content(content)),
            ] + match tool_calls {
                Some(cs) => seq![("tool_calls"@, JsonData::Arr(enc_calls(cs)))],
                None => Seq::empty(),
            },
        ),
        MessageV::System { name, content } => JsonData::Obj(
            seq![("role"@, JsonData::Str("system"@))] + name_fields(name) + seq![
                ("content"@, JsonData::Str(content)),
            ],
        ),
        MessageV::Developer { name, content } => JsonData::Obj(
            seq![("role"@, JsonData::Str("developer"@))] + name_fields(name) + seq![
                ("content"@, JsonData::Str(content)),
            ],
        ),
    }
}

// ---------------------------------------------------------------------------
// Decoding, as a specification
// ---------------------------------------------------------------------------

/// What a wire value denotes as an image, if anything.
pub open spec fn dec_image(j: JsonData) -> Option<ImageV> {
    match j {
        JsonData::Obj(ps) => match obj_get(ps, "url"@) {
            Some(JsonData::Str(u)) => match obj_get(ps, "detail"@) {
                None => Some(ImageV { url: u, detail: None }),
                Some(JsonData::Str(d)) => Some(ImageV { url: u, detail: Some(d) }),
                Some(_) => None,
            },
            _ => None,
        },
        _ => None,
    }
}

/// What a wire value denotes as one content item, if anything.
pub open spec fn dec_context(j: JsonData) -> Option<ContextV> {
    match j {
        JsonData::Obj(ps) => match obj_get(ps, "type"@) {
            Some(JsonData::Str(t)) => if t == "text"@ {
                match obj_get(ps, "text"@) {
                    Some(JsonData::Str(x)) => Some(ContextV::Text(x)),
                    _ => None,
                }
            } else if t == "image_url"@ {
                match obj_get(ps, "image_url"@) {
                    Some(iv) => match dec_image(iv) {
                        Some(im) => Some(ContextV::Image(im)),
                        None => None,
                    },
                    None => None,
                }
            } else {
                None
            },
            _ => None,
        },
        _ => None,
    }
}

/// Decodes the items of a content array, from position `i` on.
pub open spec fn dec_contexts_from(s: Seq<JsonData>, i: int) -> Option<Seq<ContextV>>
    decreases s.len() - i,
{
    if !(0 <= i < s.len()) {
        Some(Seq::empty())
    } else {
        match (dec_context(s[i]), dec_contexts_from(s, i + 1)) {
            (Some(c), Some(cs)) => Some(seq![c] + cs),
            _ => None,
        }
    }
}

/// What a wire value denotes as a content sequence: a bare string stands
/// for one text item; an array lists tagged items.
pub open spec fn dec_content(j: JsonData) -> Option<Seq<ContextV>> {
    match j {
        JsonData::Str(s) => Some(seq![ContextV::Text(s)]),
        JsonData::Arr(xs) => dec_contexts_from(xs, 0),
        _ => None,
    }
}

/// Decodes the calls of a `tool_calls` array, from position `i` on.
pub open spec fn dec_calls_from(s: Seq<JsonData>, i: int) -> Option<Seq<CallV>>
    decreases s.len() - i,
{
    if !(0 <= i < s.len()) {
        Some(Seq::empty())
    } else {
        match (dec_call(s[i]), dec_calls_from(s, i + 1)) {
            (Some(c), Some(cs)) => Some(seq![c] + cs),
            _ => None,
        }
    }
}

/// The optional `name` member; a missing or non-string name reads as none.
pub open spec fn dec_name(ps: Seq<(Seq<char>, JsonData)>) -> Option<Seq<char>> {
    match obj_get(ps, "name"@) {
        Some(JsonData::Str(n)) => Some(n),
        _ => None,
    }
}

/// What a wire object denotes as a message, if anything.
pub open spec fn dec_message(j: JsonData) -> Option<MessageV> {
    match j {
        JsonData::Obj(ps) => match obj_get(ps, "role"@) {
            Some(JsonData::Str(r)) => if r == "user"@ {
                match obj_get(ps, "content"@) {
                    Some(cj) => match dec_content(cj) {
                        Some(cs) => Some(MessageV::User { name: dec_name(ps), content: cs }),
                        None => None,
                    },
                    None => None,
                }
            } else if r == "tool"@ {
                match (obj_get(ps, "tool_call_id"@), obj_get(ps, "content"@)) {
                    (Some(JsonData::Str(id)), Some(cj)) => match dec_content(cj) {
                        Some(cs) => Some(MessageV::Tool { tool_call_id: id, content: cs }),
                        None => None,
                    },
                    _ => None,
                }
            } else if r == "assistant"@ {
                match obj_get(ps, "content"@) {
                    Some(cj) => match dec_content(cj) {
                        Some(cs) => match obj_get(ps, "tool_calls"@) {
                            None => Some(
                                MessageV::Assistant {
                                    name: dec_name(ps),
                                    content: cs,
                                    tool_calls: None,
                                },
                            ),
                            Some(JsonData::Arr(cj2)) => match dec_calls_from(cj2, 0) {
                                Some(calls) => Some(
                                    MessageV::Assistant {
                                        name: dec_name(ps),
                                        content: cs,
                                        tool_calls: Some(calls),
                                    },
                                ),
                                None => None,
                            },
                            Some(_) => None,
                        },
                        None => None,
                    },
                    None => None,
                }
            } else if r == "system"@ {
                match obj_get(ps, "content"@) {
                    Some(JsonData::Str(c)) => Some(
                        MessageV::System { name: dec_name(ps), content: c },
                    ),
                    _ => None,
                }
            } else if r == "developer"@ {
                match obj_get(ps, "content"@) {
                    Some(JsonData::Str(c)) => Some(
                        MessageV::Developer { name: dec_name(ps), content: c },
                    ),
                    _ => None,
                }
            } else {
                None
            },
            _ => None,
        },
        _ => None,
    }
}

// ---------------------------------------------------------------------------
// The executable encoder
// ---------------------------------------------------------------------------

/// Encodes an image for the wire.
pub fn encode_image(im: &MessageImage) -> (r: JsonValue)
    ensures
        r@ == enc_image(im@),
{
    let mut ps: Vec<(String, JsonValue)> = Vec::new();
    ps.push((String::from_str("url"), JsonValue::Str(im.url.clone())));
    match &im.detail {
        Some(d) => {
            ps.push((String::from_str("detail"), JsonValue::Str(d.clone())));
        },
        None => {},
    }
    let r = JsonValue::Obj(ps);
    proof {
        lemma_jx_of_pairs_len(r->Obj_0@);
        lemma_jx_of_pairs_index(r->Obj_0@, 0);
        if im.detail is Some {
            lemma_jx_of_pairs_index(r->Obj_0@, 1);
        }
        assert(jx_of_pairs(r->Obj_0@) =~= enc_image(im@)->Obj_0);
    }
    r
}

/// Encodes one content item as its tagged object.
pub fn encode_context(c: &MessageContext) -> (r: JsonValue)
    ensures
        r@ == enc_context(c@),
{
    match c {
        MessageContext::Text(t) => {
            let mut ps: Vec<(String, JsonValue)> = Vec::new();
            ps.push((String::from_str("type"), JsonValue::Str(String::from_str("text"))));
            ps.push((String::from_str("text"), JsonValue::Str(t.clone())));
            let r = JsonValue::Obj(ps);
            proof {
                lemma_jx_of_pairs_len(r->Obj_0@);
                lemma_jx_of_pairs_index(r->Obj_0@, 0);
                lemma_jx_of_pairs_index(r->Obj_0@, 1);
                assert(jx_of_pairs(r->Obj_0@) =~= enc_context(c@)->Obj_0);
            }
            r
        },
        MessageContext::Image(im) => {
            let mut ps: Vec<(String, JsonValue)> = Vec::new();
            ps.push((String::from_str("type"), JsonValue::Str(String::from_str("image_url"))));
            ps.push((String::from_str("image_url"), encode_image(im)));
            let r = JsonValue::Obj(ps);
            proof {
                lemma_jx_of_pairs_len(r->Obj_0@);
                lemma_jx_of_pairs_index(r->Obj_0@, 0);
                lemma_jx_of_pairs_index(r->Obj_0@, 1);
                assert(jx_of_pairs(r->Obj_0@) =~= enc_context(c@)->Obj_0);
            }
            r
        },
    }
}

/// Encodes a content sequence, collapsing a single text item to a bare
/// string.
pub fn encode_content(content: &Vec<MessageContext>) -> (r: JsonValue)
    ensures
        r@ == enc_content(ctx_views(content@)),
{
    if content.len() == 1 {
        match &content[0] {
            MessageContext::Text(t) => {
                return JsonValue::Str(t.clone());
            },
            _ => {},
        }
    }
    let mut items: Vec<JsonValue> = Vec::new();
    let mut i: usize = 0;
    while i < content.len()
        invariant
            0 <= i <= content@.len(),
            items@.len() == i,
            forall|k: int| 0 <= k < i ==> jx_of(#[trigger] items@[k]) == enc_context(content@[k]@),
        decreases content@.len() - i,
    {
        items.push(encode_context(&content[i]));
        i = i + 1;
    }
    let r = JsonValue::Arr(items);
    proof {
        lemma_jx_of_seq_len(r->Arr_0@);
        assert forall|k: int| 0 <= k < r->Arr_0@.len() implies jx_of_seq(r->Arr_0@)[k]
            == enc_contexts(ctx_views(content@))[k] by {
            lemma_jx_of_seq_index(r->Arr_0@, k);
        }
        assert(jx_of_seq(r->Arr_0@) =~= enc_contexts(ctx_views(content@)));
    }
    r
}

/// Encodes a message as the role-tagged wire object.
pub fn encode_message(m: &Message) -> (r: JsonValue)
    ensures
        r@ == enc_message(m@),
{
    match m {
        Message::User { name, content } => {
            let mut ps: Vec<(String, JsonValue)> = Vec::new();
            ps.push((String::from_str("role"), JsonValue::Str(String::from_str("user"))));
            match name {
                Some(n) => {
                    ps.push((String::from_str("name"), JsonValue::Str(n.clone())));
                },
                None => {},
            }
            ps.push((String::from_str("content"), encode_content(content)));
            let r = JsonValue::Obj(ps);
            proof {
                lemma_jx_of_pairs_len(r->Obj_0@);
                lemma_jx_of_pairs_index(r->Obj_0@, 0);
                lemma_jx_of_pairs_index(r->Obj_0@, 1);
                if name is Some {
                    lemma_jx_of_pairs_index(r->Obj_0@, 2);
                }
                assert(jx_of_pairs(r->Obj_0@) =~= enc_message(m@)->Obj_0);
            }
            r
        },
        Message::Tool { tool_call_id, content } => {
            let mut ps: Vec<(String, JsonValue)> = Vec::new();
            ps.push((String::from_str("role"), JsonValue::Str(String::from_str("tool"))));
            ps.push((String::from_str("tool_call_id"), JsonValue::Str(tool_call_id.clone())));
            ps.push((String::from_str("content"), encode_content(content)));
            let r = JsonValue::Obj(ps);
            proof {
                lemma_jx_of_pairs_len(r->Obj_0@);
                lemma_jx_of_pairs_index(r->Obj_0@, 0);
                lemma_jx_of_pairs_index(r->Obj_0@, 1);
                lemma_jx_of_pairs_index(r->Obj_0@, 2);
                assert(jx_of_pairs(r->Obj_0@) =~= enc_message(m@)->Obj_0);
            }
            r
        },
        Message::Assistant { name, content, tool_calls } => {
            let mut ps: Vec<(String, JsonValue)> = Vec::new();
            ps.push((String::from_str("role"), JsonValue::Str(String::from_str("assistant"))));
            match name {
                Some(n) => {
                    ps.push((String::from_str("name"), JsonValue::Str(n.clone())));
                },
                None => {},
            }
            ps.push((String::from_str("content"), encode_content(content)));
            match tool_calls {
                Some(cs) => {
                    let mut items: Vec<JsonValue> = Vec::new();
                    let mut i: usize = 0;
                    while i < cs.len()
                        invariant
                            0 <= i <= cs@.len(),
                            items@.len() == i,
                            forall|k: int|
                                0 <= k < i ==> jx_of(#[trigger] items@[k]) == enc_call(cs@[k]@),
                        decreases cs@.len() - i,
                    {
                        items.push(encode_call(&cs[i]));
                        i = i + 1;
                    }
                    proof {
                        lemma_jx_of_seq_len(items@);
                        assert forall|k: int| 0 <= k < items@.len() implies jx_of_seq(items@)[k]
                            == enc_calls(call_views(cs@))[k] by {
                            lemma_jx_of_seq_index(items@, k);
                        }
                        assert(jx_of_seq(items@) =~= enc_calls(call_views(cs@)));
                    }
                    ps.push((String::from_str("tool_calls"), JsonValue::Arr(items)));
                },
                None => {},
            }
            let r = JsonValue::Obj(ps);
            proof {
                lemma_jx_of_pairs_len(r->Obj_0@);
                lemma_jx_of_pairs_index(r->Obj_0@, 0);
                lemma_jx_of_pairs_index(r->Obj_0@, 1);
                if r->Obj_0@.len() > 2 {
                    lemma_jx_of_pairs_index(r->Obj_0@, 2);
                }
                if r->Obj_0@.len() > 3 {
                    lemma_jx_of_pairs_index(r->Obj_0@, 3);
                }
                assert(jx_of_pairs(r->Obj_0@) =~= enc_message(m@)->Obj_0);
            }
            r
        },
        Message::System { name, content } => {
            let mut ps: Vec<(String, JsonValue)> = Vec::new();
            ps.push((String::from_str("role"), JsonValue::Str(String::from_str("system"))));
            match name {
                Some(n) => {
                    ps.push((String::from_str("name"), JsonValue::Str(n.clone())));
                },
                None => {},
            }
            ps.push((String::from_str("content"), JsonValue::Str(content.clone())));
            let r = JsonValue::Obj(ps);
            proof {
                lemma_jx_of_pairs_len(r->Obj_0@);
                lemma_jx_of_pairs_index(r->Obj_0@, 0);
                lemma_jx_of_pairs_index(r->Obj_0@, 1);
                if name is Some {
                    lemma_jx_of_pairs_index(r->Obj_0@, 2);
                }
                assert(jx_of_pairs(r->Obj_0@) =~= enc_message(m@)->Obj_0);
            }
            r
        },
        Message::Developer { name, content } => {
            let mut ps: Vec<(String, JsonValue)> = Vec::new();
            ps.push((String::from_str("role"), JsonValue::Str(String::from_str("developer"))));
            match name {
                Some(n) => {
                    ps.push((String::from_str("name"), JsonValue::Str(n.clone())));
                },
                None => {},
            }
            ps.push((String::from_str("content"), JsonValue::Str(content.clone())));
            let r = JsonValue::Obj(ps);
            proof {
                lemma_jx_of_pairs_len(r->Obj_0@);
                lemma_jx_of_pairs_index(r->Obj_0@, 0);
                lemma_jx_of_pairs_index(r->Obj_0@, 1);
                if name is Some {
                    lemma_jx_of_pairs_index(r->Obj_0@, 2);
                }
                assert(jx_of_pairs(r->Obj_0@) =~= enc_message(m@)->Obj_0);
            }
            r
        },
    }
}

// ---------------------------------------------------------------------------
// The executable decoder
// ---------------------------------------------------------------------------

/// Decodes an image from the wire.
pub fn decode_image(j: &JsonValue) -> (r: Option<MessageImage>)
    ensures
        ({
            let sp = dec_image(j@);
            match r {
                None => sp is None,
                Some(im) => sp matches Some(q) && im@ == q,
            }
        }),
{
    let ps = match j {
        JsonValue::Obj(ps) => ps,
        _ => {
            return None;
        },
    };
    let url = match get_field(ps, &String::from_str("url")) {
        Some(JsonValue::Str(u)) => u.clone(),
        _ => {
            return None;
        },
    };
    match get_field(ps, &String::from_str("detail")) {
        None => Some(MessageImage { url: url, detail: None }),
        Some(JsonValue::Str(d)) => Some(MessageImage { url: url, detail: Some(d.clone()) }),
        Some(_) => None,
    }
}

/// Decodes one content item from its tagged object.
pub fn decode_context(j: &JsonValue) -> (r: Option<MessageContext>)
    ensures
        ({
            let sp = dec_context(j@);
            match r {
                None => sp is None,
                Some(c) => sp matches Some(q) && c@ == q,
            }
        }),
{
    let ps = match j {
        JsonValue::Obj(ps) => ps,
        _ => {
            return None;
        },
    };
    let t = match get_field(ps, &String::from_str("type")) {
        Some(JsonValue::Str(t)) => t,
        _ => {
            return None;
        },
    };
    if t.eq(&String::from_str("text")) {
        match get_field(ps, &String::from_str("text")) {
            Some(JsonValue::Str(x)) => Some(MessageContext::Text(x.clone())),
            _ => None,
        }
    } else if t.eq(&String::from_str("image_url")) {
        match get_field(ps, &String::from_str("image_url")) {
            Some(iv) => match decode_image(iv) {
                Some(im) => Some(MessageContext::Image(im)),
                None => None,
            },
            None => None,
        }
    } else {
        None
    }
}

/// Decodes a content sequence: a bare string or an array of tagged items.
pub fn decode_content(j: &JsonValue) -> (r: Option<Vec<MessageContext>>)
    ensures
        ({
            let sp = dec_content(j@);
            match r {
                None => sp is None,
                Some(cs) => sp matches Some(q) && ctx_views(cs@) == q,
            }
        }),
{
    match j {
        JsonValue::Str(s) => {
            let mut cs: Vec<MessageContext> = Vec::new();
            cs.push(MessageContext::Text(s.clone()));
            proof {
                assert(ctx_views(cs@) =~= seq![ContextV::Text(s@)]);
            }
            Some(cs)
        },
        JsonValue::Arr(xs) => {
            let ghost gxs = jx_of_seq(xs@);
            proof {
                lemma_jx_of_seq_len(xs@);
            }
            let mut acc: Vec<MessageContext> = Vec::new();
            let mut i: usize = 0;
            while i < xs.len()
                invariant
                    *j == JsonValue::Arr(*xs),
                    0 <= i <= xs@.len(),
                    gxs == jx_of_seq(xs@),
                    gxs.len() == xs@.len(),
                    dec_contexts_from(gxs, 0) == match dec_contexts_from(gxs, i as int) {
                        Some(t) => Some(ctx_views(acc@) + t),
                        None => None::<Seq<ContextV>>,
                    },
                decreases xs@.len() - i,
            {
                proof {
                    lemma_jx_of_seq_index(xs@, i as int);
                }
                match decode_context(&xs[i]) {
                    None => {
                        proof {
                            assert(dec_contexts_from(gxs, i as int) is None);
                        }
                        return None;
                    },
                    Some(c) => {
                        let ghost old_acc = acc@;
                        acc.push(c);
                        proof {
                            assert(ctx_views(acc@) =~= ctx_views(old_acc) + seq![c@]);
                            let sp2 = dec_contexts_from(gxs, i + 1);
                            if sp2 is Some {
                                let t = sp2->0;
                                assert((ctx_views(old_acc) + seq![c@]) + t =~= ctx_views(old_acc)
                                    + (seq![c@] + t));
                            }
                        }
                    },
                }
                i = i + 1;
            }
            proof {
                assert(dec_contexts_from(gxs, xs@.len() as int) == Some(Seq::<ContextV>::empty()));
                assert(ctx_views(acc@) + Seq::<ContextV>::empty() =~= ctx_views(acc@));
            }
            Some(acc)
        },
        _ => None,
    }
}

/// Decodes a `tool_calls` array.
pub fn decode_calls(xs: &Vec<JsonValue>) -> (r: Option<Vec<FunctionCall>>)
    ensures
        ({
            let sp = dec_calls_from(jx_of_seq(xs@), 0);
            match r {
                None => sp is None,
                Some(cs) => sp matches Some(q) && call_views(cs@) == q,
            }
        }),
{
    let ghost gxs = jx_of_seq(xs@);
    proof {
        lemma_jx_of_seq_len(xs@);
    }
    let mut acc: Vec<FunctionCall> = Vec::new();
    let mut i: usize = 0;
    while i < xs.len()
        invariant
            0 <= i <= xs@.len(),
            gxs == jx_of_seq(xs@),
            gxs.len() == xs@.len(),
            dec_calls_from(gxs, 0) == match dec_calls_from(gxs, i as int) {
                Some(t) => Some(call_views(acc@) + t),
                None => None::<Seq<CallV>>,
            },
        decreases xs@.len() - i,
    {
        proof {
            lemma_jx_of_seq_index(xs@, i as int);
        }
        match decode_call(&xs[i]) {
            None => {
                proof {
                    assert(dec_calls_from(gxs, i as int) is None);
                }
                return None;
            },
            Some(c) => {
                let ghost old_acc = acc@;
                acc.push(c);
                proof {
                    assert(call_views(acc@) =~= call_views(old_acc) + seq![c@]);
                    let sp2 = dec_calls_from(gxs, i + 1);
                    if sp2 is Some {
                        let t = sp2->0;
                        assert((call_views(old_acc) + seq![c@]) + t =~= call_views(old_acc) + (
                        seq![c@] + t));
                    }
                }
            },
        }
        i = i + 1;
    }
    proof {
        assert(dec_calls_from(gxs, xs@.len() as int) == Some(Seq::<CallV>::empty()));
        assert(call_views(acc@) + Seq::<CallV>::empty() =~= call_views(acc@));
    }
    Some(acc)
}

fn decode_name(ps: &Vec<(String, JsonValue)>) -> (r: Option<String>)
    ensures
        opt_str_view(r) == dec_name(jx_of_pairs(ps@)),
{
    match get_field(ps, &String::from_str("name")) {
        Some(JsonValue::Str(n)) => Some(n.clone()),
        _ => None,
    }
}

/// Decodes a message from its role-tagged wire object.
pub fn decode_message(j: &JsonValue) -> (r: Option<Message>)
    ensures
        ({
            let sp = dec_message(j@);
            match r {
                None => sp is None,
                Some(m) => sp matches Some(q) && m@ == q,
            }
        }),
{
    let ps = match j {
        JsonValue::Obj(ps) => ps,
        _ => {
            return None;
        },
    };
    let role = match get_field(ps, &String::from_str("role")) {
        Some(JsonValue::Str(rr)) => rr,
        _ => {
            return None;
        },
    };
    if role.eq(&String::from_str("user")) {
        let cj = match get_field(ps, &String::from_str("content")) {
            Some(cj) => cj,
            None => {
                return None;
            },
        };
        match decode_content(cj) {
            Some(cs) => Some(Message::User { name: decode_name(ps), content: cs }),
            None => None,
        }
    } else if role.eq(&String::from_str("tool")) {
        let id = match get_field(ps, &String::from_str("tool_call_id")) {
            Some(JsonValue::Str(id)) => id.clone(),
            _ => {
                return None;
            },
        };
        let cj = match get_field(ps, &String::from_str("content")) {
            Some(cj) => cj,
            None => {
                return None;
            },
        };
        match decode_content(cj) {
            Some(cs) => Some(Message::Tool { tool_call_id: id, content: cs }),
            None => None,
        }
    } else if role.eq(&String::from_str("assistant")) {
        let cj = match get_field(ps, &String::from_str("content")) {
            Some(cj) => cj,
            None => {
                return None;
            },
        };
        let cs = match decode_content(cj) {
            Some(cs) => cs,
            None => {
                return None;
            },
        };
        match get_field(ps, &String::from_str("tool_calls")) {
            None => Some(
                Message::Assistant { name: decode_name(ps), content: cs, tool_calls: None },
            ),
            Some(JsonValue::Arr(cj2)) => match decode_calls(cj2) {
                Some(calls) => Some(
                    Message::Assistant {
                        name: decode_name(ps),
                        content: cs,
                        tool_calls: Some(calls),
                    },
                ),
                None => None,
            },
            Some(_) => None,
        }
    } else if role.eq(&String::from_str("system")) {
        match get_field(ps, &String::from_str("content")) {
            Some(JsonValue::Str(c)) => Some(
                Message::System { name: decode_name(ps), content: c.clone() },
            ),
            _ => None,
        }
    } else if role.eq(&String::from_str("developer")) {
        match get_field(ps, &String::from_str("content")) {
            Some(JsonValue::Str(c)) => Some(
                Message::Developer { name: decode_name(ps), content: c.clone() },
            ),
            _ => None,
        }
    } else {
        None
    }
}

} // verus!
