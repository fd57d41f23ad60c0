//! The laws the wire codec obeys.
//!
//! The central one is the round-trip law: decoding an encoded message yields
//! exactly the message that was encoded — including the arguments of its
//! tool calls, which travel as a JSON-encoded string and are re-parsed on
//! the way in.

use vstd::prelude::*;
use crate::json::JsonData;
use crate::json::obj_get;
use crate::json::obj_lookup;
use crate::json::sp_print;
use crate::json::wf_json;
use crate::json::lemma_json_round_trip;
use crate::function::CallV;
use crate::function::dec_call;
use crate::function::enc_call;
use crate::function::dec_arguments;
use crate::function::enc_arguments;
use crate::function::wf_call;
use crate::function::wf_calls;
use crate::prompt::ContextV;
use crate::prompt::ImageV;
use crate::prompt::MessageV;
use crate::prompt::dec_content;
use crate::prompt::dec_context;
use crate::prompt::dec_contexts_from;
use crate::prompt::dec_calls_from;
use crate::prompt::dec_image;
use crate::prompt::dec_message;
use crate::prompt::enc_content;
use crate::prompt::enc_context;
use crate::prompt::enc_contexts;
use crate::prompt::enc_calls;
use crate::prompt::enc_image;
use crate::prompt::enc_message;
use crate::prompt::name_fields;
use crate::prompt::wf_message;
use crate::api::ToolChoiceV;
use crate::api::tool_choice_fields;
use crate::client::ModelConfigV;
use crate::client::ToolEntryV;
use crate::client::merged_config;
use crate::client::fail_from;
use crate::client::tool_enabled;

verus! {

broadcast use vstd::string::group_string_axioms;

/// Looking a key up skips every member that does not hold it.
proof fn lemma_obj_lookup_skip(ps: Seq<(Seq<char>, JsonData)>, key: Seq<char>, i: int)
    requires
        0 <= i <= ps.len(),
        forall|j: int| 0 <= j < i ==> (#[trigger] ps[j]).0 != key,
    ensures
        obj_lookup(ps, key, 0) == obj_lookup(ps, key, i),
    decreases i,
{
    if i > 0 {
        lemma_obj_lookup_skip(ps, key, i - 1);
        assert(obj_lookup(ps, key, i - 1) == obj_lookup(ps, key, i));
    }
}

/// The first member holding the key decides the lookup.
proof fn lemma_obj_get_at(ps: Seq<(Seq<char>, JsonData)>, key: Seq<char>, j: int)
    requires
        0 <= j < ps.len(),
        ps[j].0 == key,
        forall|i: int| 0 <= i < j ==> (#[trigger] ps[i]).0 != key,
    ensures
        obj_get(ps, key) == Some(ps[j].1),
{
    lemma_obj_lookup_skip(ps, key, j);
}

/// A key no member holds is not found.
proof fn lemma_obj_get_none(ps: Seq<(Seq<char>, JsonData)>, key: Seq<char>)
    requires
        forall|i: int| 0 <= i < ps.len() ==> (#[trigger] ps[i]).0 != key,
    ensures
        obj_get(ps, key) is None,
{
    lemma_obj_lookup_skip(ps, key, ps.len() as int);
}

/// The member names and role literals of the wire shape are pairwise
/// distinct wherever a lookup has to pass one to reach another.
proof fn lemma_wire_keys()
    ensures
        "role"@ != "name"@,
        "role"@ != "content"@,
        "role"@ != "tool_call_id"@,
        "role"@ != "tool_calls"@,
        "name"@ != "content"@,
        "name"@ != "tool_calls"@,
        "content"@ != "tool_calls"@,
        "tool_call_id"@ != "content"@,
        "type"@ != "text"@,
        "type"@ != "image_url"@,
        "url"@ != "detail"@,
        "id"@ != "type"@,
        "id"@ != "function"@,
        "type"@ != "function"@,
        "name"@ != "arguments"@,
        "user"@ != "tool"@,
        "user"@ != "assistant"@,
        "user"@ != "system"@,
        "user"@ != "developer"@,
        "tool"@ != "assistant"@,
        "tool"@ != "system"@,
        "tool"@ != "developer"@,
        "assistant"@ != "system"@,
        "assistant"@ != "developer"@,
        "system"@ != "developer"@,
        "text"@ != "image_url"@,
{
    reveal_strlit("role");
    reveal_strlit("name");
    reveal_strlit("content");
    reveal_strlit("tool_call_id");
    reveal_strlit("tool_calls");
    reveal_strlit("type");
    reveal_strlit("text");
    reveal_strlit("image_url");
    reveal_strlit("url");
    reveal_strlit("detail");
    reveal_strlit("id");
    reveal_strlit("function");
    reveal_strlit("arguments");
    reveal_strlit("user");
    reveal_strlit("tool");
    reveal_strlit("assistant");
    reveal_strlit("system");
    reveal_strlit("developer");
    assert(("role"@).len() == 4);
    assert(("name"@).len() == 4);
    assert(("content"@).len() == 7);
    assert(("tool_calls"@).len() == 10);
    assert(("tool_call_id"@).len() == 12);
    assert(("type"@).len() == 4);
    assert(("text"@).len() == 4);
    assert(("image_url"@).len() == 9);
    assert(("url"@).len() == 3);
    assert(("detail"@).len() == 6);
    assert(("id"@).len() == 2);
    assert(("function"@).len() == 8);
    assert(("arguments"@).len() == 9);
    assert(("user"@).len() == 4);
    assert(("tool"@).len() == 4);
    assert(("assistant"@).len() == 9);
    assert(("system"@).len() == 6);
    assert(("developer"@).len() == 9);
    assert(("role"@)[0] != ("name"@)[0]);
    assert(("type"@)[1] != ("text"@)[1]);
    assert(("user"@)[0] != ("tool"@)[0]);
    assert(("assistant"@)[0] != ("developer"@)[0]);
}

/// Arguments re-encoded as a JSON string re-parse to the same value.
pub proof fn lemma_arguments_round_trip(a: JsonData)
    requires
        wf_json(a),
        sp_print(a).len() < usize::MAX,
    ensures
        dec_arguments(enc_arguments(a)) == a,
{
    lemma_json_round_trip(a);
}

/// One tool call round-trips through its wire form.
pub proof fn lemma_call_round_trip(c: CallV)
    requires
        wf_call(c),
    ensures
        dec_call(enc_call(c)) == Some(c),
{
    lemma_wire_keys();
    let j = enc_call(c);
    let ps = j->Obj_0;
    let fo = ps[2].1->Obj_0;
    lemma_obj_get_at(ps, "id"@, 0);
    lemma_obj_get_at(ps, "type"@, 1);
    lemma_obj_get_at(ps, "function"@, 2);
    lemma_obj_get_at(fo, "name"@, 0);
    lemma_obj_get_at(fo, "arguments"@, 1);
    lemma_arguments_round_trip(c.function.arguments);
}

/// An image round-trips through its wire form.
pub proof fn lemma_image_round_trip(im: ImageV)
    ensures
        dec_image(enc_image(im)) == Some(im),
{
    lemma_wire_keys();
    let ps = enc_image(im)->Obj_0;
    lemma_obj_get_at(ps, "url"@, 0);
    match im.detail {
        Some(d) => {
            lemma_obj_get_at(ps, "detail"@, 1);
        },
        None => {
            lemma_obj_get_none(ps, "detail"@);
        },
    }
}

/// One content item round-trips through its tagged wire form.
pub proof fn lemma_context_round_trip(c: ContextV)
    ensures
        dec_context(enc_context(c)) == Some(c),
{
    lemma_wire_keys();
    let ps = enc_context(c)->Obj_0;
    lemma_obj_get_at(ps, "type"@, 0);
    match c {
        ContextV::Text(t) => {
            lemma_obj_get_at(ps, "text"@, 1);
        },
        ContextV::Image(im) => {
            lemma_obj_get_at(ps, "image_url"@, 1);
            lemma_image_round_trip(im);
        },
    }
}

proof fn lemma_contexts_round_trip(cs: Seq<ContextV>, i: int)
    requires
        0 <= i <= cs.len(),
    ensures
        dec_contexts_from(enc_contexts(cs), i) == Some(cs.subrange(i, cs.len() as int)),
    decreases cs.len() - i,
{
    if i == cs.len() {
        assert(cs.subrange(i, cs.len() as int) =~= Seq::<ContextV>::empty());
    } else {
        lemma_context_round_trip(cs[i]);
        lemma_contexts_round_trip(cs, i + 1);
        assert(seq![cs[i]] + cs.subrange(i + 1, cs.len() as int) =~= cs.subrange(
            i,
            cs.len() as int,
        ));
    }
}

/// A content sequence round-trips, through a bare string when it collapses
/// and through the tagged array otherwise.
pub proof fn lemma_content_round_trip(cs: Seq<ContextV>)
    ensures
        dec_content(enc_content(cs)) == Some(cs),
{
    if cs.len() == 1 && cs[0] is Text {
        assert(seq![ContextV::Text(cs[0]->Text_0)] =~= cs);
    } else {
        lemma_contexts_round_trip(cs, 0);
        assert(cs.subrange(0, cs.len() as int) =~= cs);
    }
}

proof fn lemma_calls_round_trip(cs: Seq<CallV>, i: int)
    requires
        wf_calls(cs),
        0 <= i <= cs.len(),
    ensures
        dec_calls_from(enc_calls(cs), i) == Some(cs.subrange(i, cs.len() as int)),
    decreases cs.len() - i,
{
    if i == cs.len() {
        assert(cs.subrange(i, cs.len() as int) =~= Seq::<CallV>::empty());
    } else {
        lemma_call_round_trip(cs[i]);
        lemma_calls_round_trip(cs, i + 1);
        assert(seq![cs[i]] + cs.subrange(i + 1, cs.len() as int) =~= cs.subrange(
            i,
            cs.len() as int,
        ));
    }
}

/// The round-trip law: decoding an encoded message yields that message —
/// role, name, content sequence and tool calls alike.  The arguments of a
/// tool call travel as a JSON-encoded string; their re-parsed value equals
/// the original exactly.
pub proof fn lemma_message_round_trip(m: MessageV)
    requires
        wf_message(m),
    ensures
        dec_message(enc_message(m)) == Some(m),
{
    lemma_wire_keys();
    let j = enc_message(m);
    let ps = j->Obj_0;
    match m {
        MessageV::User { name, content } => {
            match name {
                Some(n) => {
                    assert(ps =~= seq![
                        ("role"@, JsonData::Str("user"@)),
                        ("name"@, JsonData::Str(n)),
                        ("content"@, enc_content(content)),
                    ]);
                    lemma_obj_get_at(ps, "role"@, 0);
                    lemma_obj_get_at(ps, "name"@, 1);
                    lemma_obj_get_at(ps, "content"@, 2);
                },
                None => {
                    assert(ps =~= seq![
                        ("role"@, JsonData::Str("user"@)),
                        ("content"@, enc_content(content)),
                    ]);
                    lemma_obj_get_at(ps, "role"@, 0);
                    lemma_obj_get_at(ps, "content"@, 1);
                    lemma_obj_get_none(ps, "name"@);
                },
            }
            lemma_content_round_trip(content);
        },
        MessageV::Tool { tool_call_id, content } => {
            assert(ps =~= seq![
                ("role"@, JsonData::Str("tool"@)),
                ("tool_call_id"@, JsonData::Str(tool_call_id)),
                ("content"@, enc_content(content)),
            ]);
            lemma_obj_get_at(ps, "role"@, 0);
            lemma_obj_get_at(ps, "tool_call_id"@, 1);
            lemma_obj_get_at(ps, "content"@, 2);
            lemma_content_round_trip(content);
        },
        MessageV::Assistant { name, content, tool_calls } => {
            let head = seq![("role"@, JsonData::Str("assistant"@))] + name_fields(name) + seq![
                ("content"@, enc_content(content)),
            ];
            match tool_calls {
                Some(cs) => {
                    assert(ps =~= head + seq![("tool_calls"@, JsonData::Arr(enc_calls(cs)))]);
                    lemma_calls_round_trip(cs, 0);
                    assert(cs.subrange(0, cs.len() as int) =~= cs);
                },
                None => {
                    assert(ps =~= head);
                },
            }
            match name {
                Some(n) => {
                    lemma_obj_get_at(ps, "role"@, 0);
                    lemma_obj_get_at(ps, "name"@, 1);
                    lemma_obj_get_at(ps, "content"@, 2);
                    if tool_calls is Some {
                        lemma_obj_get_at(ps, "tool_calls"@, 3);
                    } else {
                        lemma_obj_get_none(ps, "tool_calls"@);
                    }
                },
                None => {
                    lemma_obj_get_at(ps, "role"@, 0);
                    lemma_obj_get_none(ps, "name"@);
                    lemma_obj_get_at(ps, "content"@, 1);
                    if tool_calls is Some {
                        lemma_obj_get_at(ps, "tool_calls"@, 2);
                    } else {
                        lemma_obj_get_none(ps, "tool_calls"@);
                    }
                },
            }
            lemma_content_round_trip(content);
        },
        MessageV::System { name, content } => {
            match name {
                Some(n) => {
                    assert(ps =~= seq![
                        ("role"@, JsonData::Str("system"@)),
                        ("name"@, JsonData::Str(n)),
                        ("content"@, JsonData::Str(content)),
                    ]);
                    lemma_obj_get_at(ps, "role"@, 0);
                    lemma_obj_get_at(ps, "name"@, 1);
                    lemma_obj_get_at(ps, "content"@, 2);
                },
                None => {
                    assert(ps =~= seq![
                        ("role"@, JsonData::Str("system"@)),
                        ("content"@, JsonData::Str(content)),
                    ]);
                    lemma_obj_get_at(ps, "role"@, 0);
                    lemma_obj_get_at(ps, "content"@, 1);
                    lemma_obj_get_none(ps, "name"@);
                },
            }
        },
        MessageV::Developer { name, content } => {
            match name {
                Some(n) => {
                    assert(ps =~= seq![
                        ("role"@, JsonData::Str("developer"@)),
                        ("name"@, JsonData::Str(n)),
                        ("content"@, JsonData::Str(content)),
                    ]);
                    lemma_obj_get_at(ps, "role"@, 0);
                    lemma_obj_get_at(ps, "name"@, 1);
                    lemma_obj_get_at(ps, "content"@, 2);
                },
                None => {
                    assert(ps =~= seq![
                        ("role"@, JsonData::Str("developer"@)),
                        ("content"@, JsonData::Str(content)),
                    ]);
                    lemma_obj_get_at(ps, "role"@, 0);
                    lemma_obj_get_at(ps, "content"@, 1);
                    lemma_obj_get_none(ps, "name"@);
                },
            }
        },
    }
}

/// The collapsing law: a content of exactly one text item encodes as the
/// bare string; any other content encodes as the ordered array of tagged
/// items.
pub proof fn lemma_content_collapsing(cs: Seq<ContextV>)
    ensures
        cs.len() == 1 && cs[0] is Text ==> enc_content(cs) == JsonData::Str(cs[0]->Text_0),
        !(cs.len() == 1 && cs[0] is Text) ==> enc_content(cs) == JsonData::Arr(enc_contexts(cs)),
{
}

/// The tool-choice law: a forced tool encodes as the function-selector
/// object, and when tools are off the member is omitted entirely.
pub proof fn lemma_tool_choice_encoding(tc: ToolChoiceV)
    ensures
        tc matches ToolChoiceV::Forced(n) ==> tool_choice_fields(tc) == seq![
            (
                "tool_choice"@,
                JsonData::Obj(
                    seq![
                        ("type"@, JsonData::Str("function"@)),
                        ("function"@, JsonData::Obj(seq![("name"@, JsonData::Str(n))])),
                    ],
                ),
            ),
        ],
        tc is Off ==> tool_choice_fields(tc) == Seq::<(Seq<char>, JsonData)>::empty(),
        tc is Auto ==> tool_choice_fields(tc) == seq![("tool_choice"@, JsonData::Str("auto"@))],
        tc is Required ==> tool_choice_fields(tc) == seq![
            ("tool_choice"@, JsonData::Str("required"@)),
        ],
{
}

/// The precedence law: a per-call override wins field by field over the
/// default, and a field absent in the override falls back to the default,
/// never to anything else.
pub proof fn lemma_config_override(d: ModelConfigV, o: ModelConfigV)
    ensures
        merged_config(d, o).model == o.model,
        merged_config(d, o).temperature == if o.temperature is Some {
            o.temperature
        } else {
            d.temperature
        },
        merged_config(d, o).top_p == if o.top_p is Some {
            o.top_p
        } else {
            d.top_p
        },
        merged_config(d, o).max_completion_tokens == if o.max_completion_tokens is Some {
            o.max_completion_tokens
        } else {
            d.max_completion_tokens
        },
        merged_config(d, o).parallel_tool_calls == if o.parallel_tool_calls is Some {
            o.parallel_tool_calls
        } else {
            d.parallel_tool_calls
        },
        merged_config(d, o).reasoning_effort == if o.reasoning_effort is Some {
            o.reasoning_effort
        } else {
            d.reasoning_effort
        },
        merged_config(d, o).presence_penalty == if o.presence_penalty is Some {
            o.presence_penalty
        } else {
            d.presence_penalty
        },
        merged_config(d, o).model_name == if o.model_name is Some {
            o.model_name
        } else {
            d.model_name
        },
        merged_config(d, o).strict == if o.strict is Some {
            o.strict
        } else {
            d.strict
        },
{
}

/// The ordering law behind the dispatch cut: every call before the cut
/// names an enabled tool, and the call at the cut — when one exists — does
/// not.  Together with the engine's contracts this pins the history after
/// a round: the assistant turn, one tool message per call before the cut in
/// backend order, and nothing for any later call.
pub proof fn lemma_dispatch_cut(ts: Seq<ToolEntryV>, cvs: Seq<CallV>, j: int)
    requires
        0 <= j <= cvs.len(),
    ensures
        j < fail_from(ts, cvs, 0) ==> tool_enabled(ts, cvs[j].function.name),
        j == fail_from(ts, cvs, 0) && j < cvs.len() ==> !tool_enabled(ts, cvs[j].function.name),
    decreases j,
{
    lemma_fail_from_prefix(ts, cvs, 0, j);
}

proof fn lemma_fail_from_prefix(ts: Seq<ToolEntryV>, cvs: Seq<CallV>, i: int, j: int)
    requires
        0 <= i <= j <= cvs.len(),
    ensures
        i <= j < fail_from(ts, cvs, i) ==> tool_enabled(ts, cvs[j].function.name),
        j == fail_from(ts, cvs, i) && j < cvs.len() ==> !tool_enabled(ts, cvs[j].function.name),
    decreases j - i,
{
    crate::client::lemma_fail_from_bounds(ts, cvs, i);
    if i < cvs.len() {
        crate::client::lemma_fail_from_bounds(ts, cvs, i + 1);
    }
    if i < j && i < cvs.len() && tool_enabled(ts, cvs[i].function.name) {
        lemma_fail_from_prefix(ts, cvs, i + 1, j);
    }
}


} // verus!
