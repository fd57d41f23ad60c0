//! The conversation engine: configuration, tool registry, history, and the
//! per-round state machine.
//!
//! The engine owns the ordered history and the registry of tools.  One round
//! resolves the effective configuration, validates the endpoint, assembles a
//! request, and — once the caller has performed the exchange — interprets the
//! response: it appends one assistant turn, dispatches the requested tool
//! calls strictly in backend order, folds each result into the history, and
//! stops at the first unknown or disabled tool without rolling anything back.
//! Only the exchange itself is left to the caller.

use vstd::prelude::*;
use crate::api::APIRequest;
use crate::api::APIResponse;
use crate::api::APIResponseHeaders;
use crate::api::ChoiceV;
use crate::api::ToolChoice;
use crate::api::dec_response;
use crate::api::decode_response;
use crate::err::ClientError;
use crate::function::CallV;
use crate::function::FunctionCall;
use crate::function::FunctionDef;
use crate::function::FunctionDefV;
use crate::function::ToolDef;
use crate::function::ToolDefV;
use crate::function::tooldef_views;
use crate::api::APIRequestV;
use crate::function::call_views;
use crate::json::JsonData;
use crate::json::JsonValue;
use crate::json::parse_text;
use crate::json::sp_parse;
use crate::prompt::ContextV;
use crate::prompt::Message;
use crate::prompt::MessageContext;
use crate::prompt::MessageV;
use crate::prompt::clone_calls;
use crate::prompt::clone_messages;
use crate::prompt::msg_views;
use crate::prompt::opt_str_view;

verus! {

broadcast use vstd::std_specs::vec::group_vec_axioms;

/// The default or per-call model configuration.
///
/// The sampling parameters `temperature`, `top_p` and `presence_penalty` are
/// carried as JSON number tokens (for example `0.5`), the form in which they
/// travel on the wire.
#[derive(Debug, PartialEq)]
pub struct ModelConfig {
    /// The model to ask.
    pub model: String,
    /// The name the assistant's history entries carry.
    pub model_name: Option<String>,
    /// The nucleus-sampling parameter, as a number token.
    pub top_p: Option<String>,
    /// Whether the backend may ask for several tool calls at once.
    pub parallel_tool_calls: Option<bool>,
    /// The sampling temperature, as a number token.
    pub temperature: Option<String>,
    /// The output token budget.
    pub max_completion_tokens: Option<u64>,
    /// The reasoning effort: `low`, `medium` or `high`.
    pub reasoning_effort: Option<String>,
    /// The presence penalty, as a number token.
    pub presence_penalty: Option<String>,
    /// Whether tool schemas are to be followed strictly.
    pub strict: Option<bool>,
}

pub struct ModelConfigV {
    pub model: Seq<char>,
    pub model_name: Option<Seq<char>>,
    pub top_p: Option<Seq<char>>,
    pub parallel_tool_calls: Option<bool>,
    pub temperature: Option<Seq<char>>,
    pub max_completion_tokens: Option<u64>,
    pub reasoning_effort: Option<Seq<char>>,
    pub presence_penalty: Option<Seq<char>>,
    pub strict: Option<bool>,
}

impl View for ModelConfig {
    type V = ModelConfigV;

    open spec fn view(&self) -> ModelConfigV {
        ModelConfigV {
            model: self.model@,
            model_name: crate::prompt::opt_str_view(self.model_name),
            top_p: crate::prompt::opt_str_view(self.top_p),
            parallel_tool_calls: self.parallel_tool_calls,
            temperature: crate::prompt::opt_str_view(self.temperature),
            max_completion_tokens: self.max_completion_tokens,
            reasoning_effort: crate::prompt::opt_str_view(self.reasoning_effort),
            presence_penalty: crate::prompt::opt_str_view(self.presence_penalty),
            strict: self.strict,
        }
    }
}

/// A per-call override wins field by field over the default; a field absent
/// in the override falls back to the default.
pub open spec fn merged_config(d: ModelConfigV, o: ModelConfigV) -> ModelConfigV {
    ModelConfigV {
        model: o.model,
        model_name: if o.model_name is Some {
            o.model_name
        } else {
            d.model_name
        },
        top_p: if o.top_p is Some {
            o.top_p
        } else {
            d.top_p
        },
        parallel_tool_calls: if o.parallel_tool_calls is Some {
            o.parallel_tool_calls
        } else {
            d.parallel_tool_calls
        },
        temperature: if o.temperature is Some {
            o.temperature
        } else {
            d.temperature
        },
        max_completion_tokens: if o.max_completion_tokens is Some {
            o.max_completion_tokens
        } else {
            d.max_completion_tokens
        },
        reasoning_effort: if o.reasoning_effort is Some {
            o.reasoning_effort
        } else {
            d.reasoning_effort
        },
        presence_penalty: if o.presence_penalty is Some {
            o.presence_penalty
        } else {
            d.presence_penalty
        },
        strict: if o.strict is Some {
            o.strict
        } else {
            d.strict
        },
    }
}

fn clone_opt_string(o: &Option<String>) -> (r: Option<String>)
    ensures
        crate::prompt::opt_str_view(r) == crate::prompt::opt_str_view(*o),
{
    match o {
        Some(s) => Some(s.clone()),
        None => None,
    }
}

impl ModelConfig {
    /// A copy of the configuration with the same view.
    pub fn deep_clone(&self) -> (r: ModelConfig)
        ensures
            r@ == self@,
    {
        ModelConfig {
            model: self.model.clone(),
            model_name: clone_opt_string(&self.model_name),
            top_p: clone_opt_string(&self.top_p),
            parallel_tool_calls: self.parallel_tool_calls,
            temperature: clone_opt_string(&self.temperature),
            max_completion_tokens: self.max_completion_tokens,
            reasoning_effort: clone_opt_string(&self.reasoning_effort),
            presence_penalty: clone_opt_string(&self.presence_penalty),
            strict: self.strict,
        }
    }

    /// The override merged over the default, field by field.
    pub fn merge_over(&self, default: &ModelConfig) -> (r: ModelConfig)
        ensures
            r@ == merged_config(default@, self@),
    {
        ModelConfig {
            model: self.model.clone(),
            model_name: match &self.model_name {
                Some(_) => clone_opt_string(&self.model_name),
                None => clone_opt_string(&default.model_name),
            },
            top_p: match &self.top_p {
                Some(_) => clone_opt_string(&self.top_p),
                None => clone_opt_string(&default.top_p),
            },
            parallel_tool_calls: match self.parallel_tool_calls {
                Some(b) => Some(b),
                None => default.parallel_tool_calls,
            },
            temperature: match &self.temperature {
                Some(_) => clone_opt_string(&self.temperature),
                None => clone_opt_string(&default.temperature),
            },
            max_completion_tokens: match self.max_completion_tokens {
                Some(n) => Some(n),
                None => default.max_completion_tokens,
            },
            reasoning_effort: match &self.reasoning_effort {
                Some(_) => clone_opt_string(&self.reasoning_effort),
                None => clone_opt_string(&default.reasoning_effort),
            },
            presence_penalty: match &self.presence_penalty {
                Some(_) => clone_opt_string(&self.presence_penalty),
                None => clone_opt_string(&default.presence_penalty),
            },
            strict: match self.strict {
                Some(b) => Some(b),
                None => default.strict,
            },
        }
    }
}

/// The response and the headers it came with.
#[derive(Debug)]
pub struct APIResult {
    /// The decoded response body.
    pub response: APIResponse,
    /// The headers of the exchange.
    pub headers: APIResponseHeaders,
}

// ---------------------------------------------------------------------------
// The tool registry
// ---------------------------------------------------------------------------

/// One registered tool, as the engine sees it: the definition the tool
/// reported at registration, and whether it is enabled.  The capability
/// itself stays with the caller, who performs the invocations the engine
/// asks for.
#[derive(Debug, PartialEq)]
pub struct ToolEntry {
    /// The name the backend selects the tool by.
    pub name: String,
    /// The tool's description, as reported at registration.
    pub description: String,
    /// The tool's argument schema, as reported at registration.
    pub parameters: JsonValue,
    /// Whether the engine may dispatch to it.
    pub enabled: bool,
}

pub struct ToolEntryV {
    pub name: Seq<char>,
    pub description: Seq<char>,
    pub parameters: JsonData,
    pub enabled: bool,
}

impl View for ToolEntry {
    type V = ToolEntryV;

    open spec fn view(&self) -> ToolEntryV {
        ToolEntryV {
            name: self.name@,
            description: self.description@,
            parameters: self.parameters@,
            enabled: self.enabled,
        }
    }
}

pub open spec fn tool_views(s: Seq<ToolEntry>) -> Seq<ToolEntryV> {
    Seq::new(s.len(), |i: int| s[i]@)
}

/// The first registry index at or after `i` whose entry has the given name.
pub open spec fn lookup_from(ts: Seq<ToolEntryV>, name: Seq<char>, i: int) -> Option<int>
    decreases ts.len() - i,
{
    if !(0 <= i < ts.len()) {
        None
    } else if ts[i].name == name {
        Some(i)
    } else {
        lookup_from(ts, name, i + 1)
    }
}

pub broadcast proof fn lemma_lookup_from_bounds(ts: Seq<ToolEntryV>, name: Seq<char>, i: int)
    requires
        0 <= i,
    ensures
        (#[trigger] lookup_from(ts, name, i)) matches Some(j) ==> i <= j < ts.len() && ts[j].name
            == name,
    decreases ts.len() - i,
{
    if 0 <= i < ts.len() && !(ts[i].name == name) {
        lemma_lookup_from_bounds(ts, name, i + 1);
    }
}

/// Whether a tool of this name exists and is enabled.
pub open spec fn tool_enabled(ts: Seq<ToolEntryV>, name: Seq<char>) -> bool {
    match lookup_from(ts, name, 0) {
        Some(j) => ts[j].enabled,
        None => false,
    }
}

/// The definition one enabled entry contributes to a request.
pub open spec fn def_of_entry(e: ToolEntryV, strict: bool) -> ToolDefV {
    ToolDefV {
        tool_type: "function"@,
        function: FunctionDefV {
            name: e.name,
            description: e.description,
            parameters: e.parameters,
            strict: strict,
        },
    }
}

/// The definitions the first `i` entries contribute, in registry order.
pub open spec fn export_defs_upto(ts: Seq<ToolEntryV>, strict: bool, i: int) -> Seq<ToolDefV>
    decreases i,
{
    if i <= 0 {
        Seq::empty()
    } else {
        export_defs_upto(ts, strict, i - 1) + if ts[i - 1].enabled {
            seq![def_of_entry(ts[i - 1], strict)]
        } else {
            Seq::empty()
        }
    }
}

/// The definitions of all enabled entries, in registry order.
pub open spec fn export_defs_spec(ts: Seq<ToolEntryV>, strict: bool) -> Seq<ToolDefV> {
    export_defs_upto(ts, strict, ts.len() as int)
}

/// Whether any registered entry is enabled.
pub open spec fn has_enabled(ts: Seq<ToolEntryV>) -> bool {
    exists|i: int| 0 <= i < ts.len() && (#[trigger] ts[i]).enabled
}

/// Checks whether any registered entry is enabled.
fn any_enabled(tools: &Vec<ToolEntry>) -> (r: bool)
    ensures
        r == has_enabled(tool_views(tools@)),
{
    let ghost ts = tool_views(tools@);
    let mut i: usize = 0;
    while i < tools.len()
        invariant
            0 <= i <= tools@.len(),
            ts == tool_views(tools@),
            ts.len() == tools@.len(),
            forall|j: int| 0 <= j < i ==> !(#[trigger] ts[j]).enabled,
        decreases tools@.len() - i,
    {
        if tools[i].enabled {
            assert(ts[i as int].enabled);
            return true;
        }
        i = i + 1;
    }
    assert(!has_enabled(ts));
    false
}

// ---------------------------------------------------------------------------
// The client
// ---------------------------------------------------------------------------

pub open spec fn is_prefix(s: Seq<char>, p: Seq<char>) -> bool {
    s.len() >= p.len() && s.subrange(0, p.len() as int) == p
}

/// A URL the engine will talk to: plain or encrypted HTTP, nothing else.
pub open spec fn valid_endpoint(url: Seq<char>) -> bool {
    is_prefix(url, "http://"@) || is_prefix(url, "https://"@)
}

/// Trailing slashes are dropped from a configured base endpoint.
pub open spec fn trim_slashes(s: Seq<char>) -> Seq<char>
    decreases s.len(),
{
    if s.len() > 0 && s.last() == '/' {
        trim_slashes(s.drop_last())
    } else {
        s
    }
}

/// The client: endpoint, key, registry, and the default configuration.
pub struct OpenAIClient {
    /// The base endpoint, without a trailing slash.
    pub end_point: String,
    /// The key the caller authenticates with, if any.
    pub api_key: Option<String>,
    /// The registered tools, in registration order.
    pub tools: Vec<ToolEntry>,
    /// The process-wide default configuration.
    pub model_config: Option<ModelConfig>,
}

pub struct OpenAIClientV {
    pub end_point: Seq<char>,
    pub api_key: Option<Seq<char>>,
    pub tools: Seq<ToolEntryV>,
    pub model_config: Option<ModelConfigV>,
}

impl View for OpenAIClient {
    type V = OpenAIClientV;

    open spec fn view(&self) -> OpenAIClientV {
        OpenAIClientV {
            end_point: self.end_point@,
            api_key: crate::prompt::opt_str_view(self.api_key),
            tools: tool_views(self.tools@),
            model_config: match self.model_config {
                Some(c) => Some(c@),
                None => None,
            },
        }
    }
}

impl OpenAIClient {
    /// A new client for the given endpoint; trailing slashes are dropped.
    pub fn new(end_point: &str, api_key: Option<&str>) -> (r: OpenAIClient)
        ensures
            r@.end_point == trim_slashes(end_point@),
            r@.api_key == match api_key {
                Some(k) => Some(k@),
                None => None::<Seq<char>>,
            },
            r@.tools == Seq::<ToolEntryV>::empty(),
            r@.model_config is None,
    {
        let mut cs = crate::json::str_chars(end_point);
        while cs.len() > 0 && cs[cs.len() - 1] == '/'
            invariant
                trim_slashes(cs@) == trim_slashes(end_point@),
            decreases cs@.len(),
        {
            let ghost before = cs@;
            cs.pop();
            proof {
                assert(cs@ =~= before.drop_last());
            }
        }
        proof {
            assert(trim_slashes(cs@) == cs@);
        }
        let r = OpenAIClient {
            end_point: crate::json::chars_to_string(&cs),
            api_key: match api_key {
                Some(k) => Some(String::from_str(k)),
                None => None,
            },
            tools: Vec::new(),
            model_config: None,
        };
        proof {
            assert(tool_views(r.tools@) =~= Seq::<ToolEntryV>::empty());
        }
        r
    }

    /// Sets the process-wide default configuration.
    pub fn set_model_config(&mut self, model_config: &ModelConfig)
        ensures
            final(self)@ == (OpenAIClientV { model_config: Some(model_config@), ..old(self)@ }),
    {
        self.model_config = Some(model_config.deep_clone());
    }

    /// Registers a tool under the name and definition it reports, enabled;
    /// an entry of the same name is replaced in place.
    ///
    /// What the tool reports is not spec-visible through the trait, so the
    /// contract here only says that one enabled entry was registered; the
    /// exact registration contract is `def_tool_entry`, which this method
    /// calls with the reported values.
    pub fn def_tool<T: crate::function::Tool>(&mut self, tool: &T)
        ensures
            final(self)@.end_point == old(self)@.end_point,
            final(self)@.api_key == old(self)@.api_key,
            final(self)@.model_config == old(self)@.model_config,
            exists|e: ToolEntryV|
                e.enabled && #[trigger] registry_after(old(self)@.tools, final(self)@.tools, e),
    {
        let name = String::from_str(tool.def_name());
        let description = String::from_str(tool.def_description());
        let parameters = tool.def_parameters();
        self.def_tool_entry(name, description, parameters);
    }

    /// Registers a tool definition under the given name, enabled; an entry
    /// of the same name is replaced in place.
    pub fn def_tool_entry(&mut self, name: String, description: String, parameters: JsonValue)
        ensures
            final(self)@.end_point == old(self)@.end_point,
            final(self)@.api_key == old(self)@.api_key,
            final(self)@.model_config == old(self)@.model_config,
            registry_after(
                old(self)@.tools,
                final(self)@.tools,
                ToolEntryV {
                    name: name@,
                    description: description@,
                    parameters: parameters@,
                    enabled: true,
                },
            ),
    {
        let ghost gname = name@;
        let ghost ts = tool_views(self.tools@);
        let ghost entry_view = ToolEntryV {
            name: name@,
            description: description@,
            parameters: parameters@,
            enabled: true,
        };
        match find_tool_index(&self.tools, &name) {
            Some(i) => {
                let ghost before = self.tools@;
                let entry = ToolEntry {
                    name: name,
                    description: description,
                    parameters: parameters,
                    enabled: true,
                };
                proof {
                    lemma_lookup_from_bounds(ts, gname, 0);
                    assert(lookup_from(ts, gname, 0) == Some(i as int));
                    assert((i as int) < ts.len());
                    assert(ts.len() == before.len());
                    assert(entry@ == entry_view);
                }
                self.tools.push(entry);
                let ghost pushed = self.tools@;
                proof {
                    assert(pushed.len() == before.len() + 1);
                    assert(pushed.last()@ == entry_view);
                }
                let replaced = self.tools.swap_remove(i);
                proof {
                    assert(self.tools@ =~= pushed.update(i as int, pushed.last()).drop_last());
                    assert(tool_views(self.tools@) =~= ts.update(i as int, entry_view));
                    assert(registry_after(ts, tool_views(self.tools@), entry_view));
                }
            },
            None => {
                self.tools.push(
                    ToolEntry {
                        name: name,
                        description: description,
                        parameters: parameters,
                        enabled: true,
                    },
                );
                proof {
                    assert(tool_views(self.tools@) =~= ts.push(entry_view));
                    assert(registry_after(ts, tool_views(self.tools@), entry_view));
                }
            },
        }
    }
}

/// The first registry index holding the given name, if any.
fn find_tool_index(tools: &Vec<ToolEntry>, key: &String) -> (r: Option<usize>)
    ensures
        ({
            let ts = tool_views(tools@);
            match r {
                Some(j) => lookup_from(ts, key@, 0) == Some(j as int),
                None => lookup_from(ts, key@, 0) is None,
            }
        }),
{
    let ghost ts = tool_views(tools@);
    let mut i: usize = 0;
    while i < tools.len()
        invariant
            0 <= i <= tools@.len(),
            ts == tool_views(tools@),
            ts.len() == tools@.len(),
            lookup_from(ts, key@, 0) == lookup_from(ts, key@, i as int),
        decreases tools@.len() - i,
    {
        if tools[i].name.eq(key) {
            return Some(i);
        }
        assert(lookup_from(ts, key@, i as int) == lookup_from(ts, key@, i + 1));
        i = i + 1;
    }
    None
}

/// How the registry changes when a tool is registered: the first entry of
/// the same name is replaced, or a new entry is appended.
pub open spec fn registry_after(ts: Seq<ToolEntryV>, nv: Seq<ToolEntryV>, e: ToolEntryV) -> bool {
    match lookup_from(ts, e.name, 0) {
        Some(j) => nv == ts.update(j, e),
        None => nv == ts.push(e),
    }
}

impl OpenAIClient {
    /// Lists every registered tool: name, description, and enabled flag.
    pub fn list_tools(&self) -> (r: Vec<(String, String, bool)>)
        ensures
            r@.len() == self@.tools.len(),
            forall|i: int|
                0 <= i < r@.len() ==> (#[trigger] r@[i]).0@ == self@.tools[i].name && r@[i].1@
                    == self@.tools[i].description && r@[i].2 == self@.tools[i].enabled,
    {
        let ghost ts = tool_views(self.tools@);
        let mut r: Vec<(String, String, bool)> = Vec::new();
        let mut i: usize = 0;
        while i < self.tools.len()
            invariant
                0 <= i <= self.tools@.len(),
                ts == tool_views(self.tools@),
                ts.len() == self.tools@.len(),
                r@.len() == i,
                forall|j: int|
                    0 <= j < i ==> (#[trigger] r@[j]).0@ == ts[j].name && r@[j].1@
                        == ts[j].description && r@[j].2 == ts[j].enabled,
            decreases self.tools@.len() - i,
        {
            r.push((self.tools[i].name.clone(), self.tools[i].description.clone(), self.tools[i].enabled));
            i = i + 1;
        }
        r
    }

    /// Enables or disables the named tool; an unknown name changes nothing.
    pub fn switch_tool(&mut self, tool_name: &str, t_enable: bool)
        ensures
            final(self)@.end_point == old(self)@.end_point,
            final(self)@.api_key == old(self)@.api_key,
            final(self)@.model_config == old(self)@.model_config,
            ({
                let ts = old(self)@.tools;
                match lookup_from(ts, tool_name@, 0) {
                    Some(j) => final(self)@.tools == ts.update(
                        j,
                        ToolEntryV { enabled: t_enable, ..ts[j] },
                    ),
                    None => final(self)@.tools == ts,
                }
            }),
    {
        let ghost ts = tool_views(self.tools@);
        let key = String::from_str(tool_name);
        match find_tool_index(&self.tools, &key) {
            Some(i) => {
                proof {
                    lemma_lookup_from_bounds(ts, key@, 0);
                    assert(ts.len() == self.tools@.len());
                }
                let ghost before = self.tools@;
                let entry = ToolEntry {
                    name: self.tools[i].name.clone(),
                    description: self.tools[i].description.clone(),
                    parameters: self.tools[i].parameters.deep_clone(),
                    enabled: t_enable,
                };
                proof {
                    assert(entry@ == (ToolEntryV { enabled: t_enable, ..ts[i as int] }));
                }
                self.tools.push(entry);
                let ghost pushed = self.tools@;
                proof {
                    assert(pushed.last()@ == (ToolEntryV { enabled: t_enable, ..ts[i as int] }));
                }
                let replaced = self.tools.swap_remove(i);
                proof {
                    assert(self.tools@ =~= pushed.update(i as int, pushed.last()).drop_last());
                    assert(tool_views(self.tools@) =~= ts.update(
                        i as int,
                        ToolEntryV { enabled: t_enable, ..ts[i as int] },
                    ));
                }
            },
            None => {},
        }
    }

    /// The definitions of the enabled tools, with the given strictness.
    fn export_defs(&self, strict: bool) -> (r: Vec<ToolDef>)
        ensures
            tooldef_views(r@) == export_defs_spec(self@.tools, strict),
    {
        let ghost ts = tool_views(self.tools@);
        let mut r: Vec<ToolDef> = Vec::new();
        let mut i: usize = 0;
        while i < self.tools.len()
            invariant
                0 <= i <= self.tools@.len(),
                ts == tool_views(self.tools@),
                ts.len() == self.tools@.len(),
                tooldef_views(r@) == export_defs_upto(ts, strict, i as int),
            decreases self.tools@.len() - i,
        {
            let ghost upto = export_defs_upto(ts, strict, i as int);
            if self.tools[i].enabled {
                let d = ToolDef {
                    tool_type: String::from_str("function"),
                    function: FunctionDef {
                        name: self.tools[i].name.clone(),
                        description: self.tools[i].description.clone(),
                        parameters: self.tools[i].parameters.deep_clone(),
                        strict: strict,
                    },
                };
                let ghost before = r@;
                proof {
                    assert(d@ == def_of_entry(ts[i as int], strict));
                }
                r.push(d);
                proof {
                    assert(tooldef_views(r@) =~= tooldef_views(before).push(
                        def_of_entry(ts[i as int], strict),
                    ));
                    assert(export_defs_upto(ts, strict, i + 1) =~= upto + seq![
                        def_of_entry(ts[i as int], strict),
                    ]);
                    assert(tooldef_views(before).push(def_of_entry(ts[i as int], strict)) =~= upto
                        + seq![def_of_entry(ts[i as int], strict)]);
                }
            } else {
                proof {
                    assert(export_defs_upto(ts, strict, i + 1) =~= upto);
                }
            }
            i = i + 1;
        }
        r
    }

    /// Exports the definitions of all enabled tools, strict as the default
    /// configuration says.  The configuration is consulted only for enabled
    /// entries: without one, an enabled entry fails the export, while an
    /// empty or fully disabled registry exports the empty list.
    pub fn export_tool_def(&self) -> (r: Result<Vec<ToolDef>, ClientError>)
        ensures
            match self@.model_config {
                None => if has_enabled(self@.tools) {
                    r matches Err(e) && e == ClientError::ModelConfigNotSet
                } else {
                    r matches Ok(defs) && tooldef_views(defs@) == Seq::<ToolDefV>::empty()
                },
                Some(cfg) => r matches Ok(defs) && tooldef_views(defs@) == export_defs_spec(
                    self@.tools,
                    match cfg.strict {
                        Some(b) => b,
                        None => false,
                    },
                ),
            },
    {
        let strict = match &self.model_config {
            Some(c) => match c.strict {
                Some(b) => b,
                None => false,
            },
            None => {
                if any_enabled(&self.tools) {
                    return Err(ClientError::ModelConfigNotSet);
                }
                let defs: Vec<ToolDef> = Vec::new();
                proof {
                    assert(tooldef_views(defs@) =~= Seq::<ToolDefV>::empty());
                }
                return Ok(defs);
            },
        };
        Ok(self.export_defs(strict))
    }

    /// A fresh conversation bound to this client, with an empty history.
    pub fn create_prompt<'a>(&'a self) -> (r: OpenAIClientState<'a>)
        ensures
            r.prompt@.len() == 0,
            r.client == self,
    {
        OpenAIClientState { prompt: Vec::new(), client: self }
    }

    /// Assembles one request from a history: the effective configuration is
    /// the override merged over the default; the endpoint must speak HTTP;
    /// the enabled tool definitions are snapshotted now.
    pub fn prepare_request(
        &self,
        prompt: &Vec<Message>,
        tool_choice: ToolChoice,
        model_config: Option<&ModelConfig>,
    ) -> (r: Result<APIRequest, ClientError>)
        ensures
            ({
                let over = match model_config {
                    Some(c) => Some(c@),
                    None => None::<ModelConfigV>,
                };
                match resolved_config(self@.model_config, over) {
                    None => r matches Err(e) && e == ClientError::ModelConfigNotSet,
                    Some(cfg) => if !valid_endpoint(self@.end_point) {
                        r matches Err(e) && e == ClientError::InvalidEndpoint
                    } else {
                        r matches Ok(req) && req@ == (APIRequestV {
                            model: cfg.model,
                            messages: msg_views(prompt@),
                            tools: export_defs_spec(
                                self@.tools,
                                match cfg.strict {
                                    Some(b) => b,
                                    None => false,
                                },
                            ),
                            tool_choice: tool_choice@,
                            parallel_tool_calls: cfg.parallel_tool_calls,
                            temperature: cfg.temperature,
                            max_completion_tokens: cfg.max_completion_tokens,
                            top_p: cfg.top_p,
                            reasoning_effort: cfg.reasoning_effort,
                            presence_penalty: cfg.presence_penalty,
                        })
                    },
                }
            }),
    {
        let cfg = match (&self.model_config, model_config) {
            (None, None) => {
                return Err(ClientError::ModelConfigNotSet);
            },
            (Some(d), None) => d.deep_clone(),
            (None, Some(o)) => o.deep_clone(),
            (Some(d), Some(o)) => o.merge_over(d),
        };
        if !(str_has_prefix(self.end_point.as_str(), "http://") || str_has_prefix(
            self.end_point.as_str(),
            "https://",
        )) {
            return Err(ClientError::InvalidEndpoint);
        }
        let strict = match cfg.strict {
            Some(b) => b,
            None => false,
        };
        let tools = self.export_defs(strict);
        Ok(
            APIRequest {
                model: cfg.model,
                messages: clone_messages(prompt),
                tools: tools,
                tool_choice: tool_choice,
                parallel_tool_calls: cfg.parallel_tool_calls,
                temperature: cfg.temperature,
                max_completion_tokens: cfg.max_completion_tokens,
                top_p: cfg.top_p,
                reasoning_effort: cfg.reasoning_effort,
                presence_penalty: cfg.presence_penalty,
            },
        )
    }
}

/// The effective configuration of one round, if any: the override merged
/// over the default, or whichever of the two exists.
pub open spec fn resolved_config(d: Option<ModelConfigV>, o: Option<ModelConfigV>) -> Option<
    ModelConfigV,
> {
    match (d, o) {
        (None, None) => None,
        (Some(dd), None) => Some(dd),
        (None, Some(oo)) => Some(oo),
        (Some(dd), Some(oo)) => Some(merged_config(dd, oo)),
    }
}

/// Whether `p` begins the text of `s`.
pub fn str_has_prefix(s: &str, p: &str) -> (r: bool)
    ensures
        r == is_prefix(s@, p@),
{
    let n = p.unicode_len();
    if s.unicode_len() < n {
        assert(!is_prefix(s@, p@));
        return false;
    }
    let mut i: usize = 0;
    while i < n
        invariant
            0 <= i <= n,
            n == p@.len(),
            n <= s@.len(),
            forall|j: int| 0 <= j < i ==> s@[j] == p@[j],
        decreases n - i,
    {
        if s.get_char(i) != p.get_char(i) {
            assert(s@.subrange(0, p@.len() as int)[i as int] != p@[i as int]);
            return false;
        }
        i = i + 1;
    }
    assert(s@.subrange(0, p@.len() as int) =~= p@);
    true
}

/// Reads a response body: the text must be one JSON value denoting a
/// response shape; anything else is an invalid response.
pub fn decode_body(text: &str) -> (r: Result<APIResponse, ClientError>)
    ensures
        ({
            match sp_parse(text@) {
                None => r matches Err(e) && e == ClientError::InvalidResponse,
                Some(tree) => match dec_response(tree) {
                    None => r matches Err(e) && e == ClientError::InvalidResponse,
                    Some(rv) => r matches Ok(resp) && resp@ == rv,
                },
            }
        }),
{
    match parse_text(text) {
        None => Err(ClientError::InvalidResponse),
        Some(tree) => match decode_response(&tree) {
            None => Err(ClientError::InvalidResponse),
            Some(resp) => Ok(resp),
        },
    }
}

// ---------------------------------------------------------------------------
// One round over a history
// ---------------------------------------------------------------------------

/// The assistant turn one selected choice contributes to the history, if
/// any: its content, with an empty placeholder when only tool calls came
/// back, and the full ordered call list.
pub open spec fn round_message(ch: ChoiceV, name: Option<Seq<char>>) -> Option<MessageV> {
    match (ch.message.content, ch.message.tool_calls) {
        (None, None) => None,
        (Some(c), None) => Some(
            MessageV::Assistant {
                name: name,
                content: seq![ContextV::Text(c)],
                tool_calls: None,
            },
        ),
        (Some(c), Some(calls)) => Some(
            MessageV::Assistant {
                name: name,
                content: seq![ContextV::Text(c)],
                tool_calls: Some(calls),
            },
        ),
        (None, Some(calls)) => Some(
            MessageV::Assistant {
                name: name,
                content: seq![ContextV::Text(Seq::empty())],
                tool_calls: Some(calls),
            },
        ),
    }
}

/// The first position in the call list whose tool is unknown or disabled;
/// the list's length when every call can be dispatched.
pub open spec fn fail_from(ts: Seq<ToolEntryV>, cvs: Seq<CallV>, i: int) -> int
    decreases cvs.len() - i,
{
    if !(0 <= i < cvs.len()) {
        cvs.len() as int
    } else if !tool_enabled(ts, cvs[i].function.name) {
        i
    } else {
        fail_from(ts, cvs, i + 1)
    }
}

pub broadcast proof fn lemma_fail_from_bounds(ts: Seq<ToolEntryV>, cvs: Seq<CallV>, i: int)
    requires
        0 <= i <= cvs.len(),
    ensures
        i <= #[trigger] fail_from(ts, cvs, i) <= cvs.len(),
    decreases cvs.len() - i,
{
    if i < cvs.len() && tool_enabled(ts, cvs[i].function.name) {
        lemma_fail_from_bounds(ts, cvs, i + 1);
    }
}

/// The tool message folding one invocation outcome into the history: the
/// success payload, or the error text behind an `Error: ` marker.
pub open spec fn folded_msg(id: Seq<char>, r: Result<Seq<char>, Seq<char>>) -> MessageV {
    MessageV::Tool {
        tool_call_id: id,
        content: seq![
            ContextV::Text(
                match r {
                    Ok(s) => s,
                    Err(e) => "Error: "@ + e,
                },
            ),
        ],
    }
}

pub open spec fn res_view(r: Result<String, String>) -> Result<Seq<char>, Seq<char>> {
    match r {
        Ok(s) => Ok(s@),
        Err(e) => Err(e@),
    }
}

/// A conversation: the ordered history, owned by exactly this value, and
/// the client it talks through.
pub struct OpenAIClientState<'a> {
    /// The history, oldest first.
    pub prompt: Vec<Message>,
    /// The client the conversation belongs to.
    pub client: &'a OpenAIClient,
}

impl<'a> OpenAIClientState<'a> {
    /// Appends messages to the history, in order.  Purely structural: no
    /// semantic validation happens here.
    pub fn add(&mut self, messages: Vec<Message>)
        ensures
            msg_views(final(self).prompt@) == msg_views(old(self).prompt@) + msg_views(messages@),
            final(self).client == old(self).client,
    {
        let mut more = messages;
        let ghost ms = more@;
        self.prompt.append(&mut more);
        proof {
            assert(msg_views(self.prompt@) =~= msg_views(old(self).prompt@) + msg_views(ms));
        }
    }

    /// Empties the history.
    pub fn clear(&mut self)
        ensures
            final(self).prompt@.len() == 0,
            final(self).client == old(self).client,
    {
        self.prompt.clear();
    }

    /// The newest message of the history, if any.
    pub fn last(&mut self) -> (r: Option<&Message>)
        ensures
            *final(self) == *old(self),
            match r {
                Some(m) => old(self).prompt@.len() > 0 && *m == old(self).prompt@[old(
                    self,
                ).prompt@.len() - 1],
                None => old(self).prompt@.len() == 0,
            },
    {
        if self.prompt.len() > 0 {
            Some(&self.prompt[self.prompt.len() - 1])
        } else {
            None
        }
    }

    /// Interprets a response: selects the first choice, appends the one
    /// assistant turn it denotes, and hands back the tool calls to dispatch,
    /// in backend order.  A response without choices is invalid; a choice
    /// with neither content nor tool calls is unknown; in both cases the
    /// history stays as it was.
    pub fn begin_round(&mut self, response: &APIResponse, assistant_name: Option<String>) -> (r:
        Result<Vec<FunctionCall>, ClientError>)
        ensures
            final(self).client == old(self).client,
            ({
                let rv = response@;
                match rv.choices {
                    None => r matches Err(e) && e == ClientError::InvalidResponse
                        && final(self).prompt@ == old(self).prompt@,
                    Some(cs) => if cs.len() == 0 {
                        r matches Err(e) && e == ClientError::InvalidResponse && final(self).prompt@
                            == old(self).prompt@
                    } else {
                        match round_message(cs[0], opt_str_view(assistant_name)) {
                            None => r matches Err(e) && e == ClientError::UnknownError
                                && final(self).prompt@ == old(self).prompt@,
                            Some(mv) => r matches Ok(calls) && msg_views(final(self).prompt@)
                                == msg_views(old(self).prompt@).push(mv) && call_views(calls@)
                                == (match cs[0].message.tool_calls {
                                Some(t) => t,
                                None => Seq::empty(),
                            }),
                        }
                    },
                }
            }),
    {
        let cs = match &response.choices {
            Some(cs) => cs,
            None => {
                return Err(ClientError::InvalidResponse);
            },
        };
        if cs.len() == 0 {
            return Err(ClientError::InvalidResponse);
        }
        proof {
            assert(response@.choices matches Some(gcs) && gcs[0] == cs@[0]@);
        }
        let ch = &cs[0];
        let ghost before = msg_views(self.prompt@);
        match (&ch.message.content, &ch.message.tool_calls) {
            (None, None) => Err(ClientError::UnknownError),
            (Some(c), None) => {
                let m = Message::Assistant {
                    name: assistant_name,
                    content: vec![MessageContext::Text(c.clone())],
                    tool_calls: None,
                };
                proof {
                    assert(m@->Assistant_content =~= seq![ContextV::Text(c@)]);
                }
                self.prompt.push(m);
                proof {
                    assert(msg_views(self.prompt@) =~= before.push(
                        round_message(response@.choices->0[0], opt_str_view(assistant_name))->0,
                    ));
                }
                let calls: Vec<FunctionCall> = Vec::new();
                proof {
                    assert(call_views(calls@) =~= Seq::<CallV>::empty());
                }
                Ok(calls)
            },
            (Some(c), Some(tc)) => {
                let kept = clone_calls(tc);
                let m = Message::Assistant {
                    name: assistant_name,
                    content: vec![MessageContext::Text(c.clone())],
                    tool_calls: Some(kept),
                };
                proof {
                    assert(m@->Assistant_content =~= seq![ContextV::Text(c@)]);
                }
                self.prompt.push(m);
                proof {
                    assert(msg_views(self.prompt@) =~= before.push(
                        round_message(response@.choices->0[0], opt_str_view(assistant_name))->0,
                    ));
                }
                Ok(clone_calls(tc))
            },
            (None, Some(tc)) => {
                let kept = clone_calls(tc);
                let m = Message::Assistant {
                    name: assistant_name,
                    content: vec![MessageContext::Text(String::new())],
                    tool_calls: Some(kept),
                };
                proof {
                    assert(m@->Assistant_content =~= seq![ContextV::Text(Seq::<char>::empty())]);
                }
                self.prompt.push(m);
                proof {
                    assert(msg_views(self.prompt@) =~= before.push(
                        round_message(response@.choices->0[0], opt_str_view(assistant_name))->0,
                    ));
                }
                Ok(clone_calls(tc))
            },
        }
    }

    /// How many of the calls, from the front, name a known and enabled
    /// tool: the calls before the cut are dispatched, the call at the cut —
    /// if any — stops the round with `ToolNotFound`.
    pub fn dispatch_cut(&self, calls: &Vec<FunctionCall>) -> (k: usize)
        ensures
            k as int == fail_from(self.client@.tools, call_views(calls@), 0),
            k <= calls@.len(),
    {
        let ghost ts = self.client@.tools;
        let ghost cvs = call_views(calls@);
        let cl: &OpenAIClient = self.client;
        let mut i: usize = 0;
        while i < calls.len()
            invariant
                0 <= i <= calls@.len(),
                cl == self.client,
                ts == self.client@.tools,
                ts == tool_views(cl.tools@),
                ts.len() == cl.tools@.len(),
                cvs == call_views(calls@),
                cvs.len() == calls@.len(),
                fail_from(ts, cvs, 0) == fail_from(ts, cvs, i as int),
                forall|j: int| 0 <= j < i ==> tool_enabled(ts, #[trigger] cvs[j].function.name),
            decreases calls@.len() - i,
        {
            let name = &calls[i].function.name;
            let enabled = match find_tool_index(&cl.tools, name) {
                Some(j) => {
                    proof {
                        lemma_lookup_from_bounds(ts, name@, 0);
                    }
                    cl.tools[j].enabled
                },
                None => false,
            };
            proof {
                assert(enabled == tool_enabled(ts, cvs[i as int].function.name));
            }
            if !enabled {
                assert(fail_from(ts, cvs, i as int) == i as int);
                return i;
            }
            assert(fail_from(ts, cvs, i as int) == fail_from(ts, cvs, i + 1));
            i = i + 1;
        }
        calls.len()
    }

    /// Folds one invocation outcome into the history as a tool message: the
    /// success payload, or `Error: ` followed by the error text.
    pub fn fold_tool_result(&mut self, tool_call_id: &String, result: &Result<String, String>)
        ensures
            final(self).client == old(self).client,
            msg_views(final(self).prompt@) == msg_views(old(self).prompt@).push(
                folded_msg(
                    tool_call_id@,
                    match result {
                        Ok(s) => Ok(s@),
                        Err(e) => Err(e@),
                    },
                ),
            ),
    {
        let ghost before = msg_views(self.prompt@);
        let content = match result {
            Ok(s) => s.clone(),
            Err(e) => String::from_str("Error: ").concat(e.as_str()),
        };
        let m = Message::Tool {
            tool_call_id: tool_call_id.clone(),
            content: vec![MessageContext::Text(content)],
        };
        proof {
            assert(m@->Tool_content =~= seq![
                ContextV::Text(
                    match result {
                        Ok(s) => s@,
                        Err(e) => "Error: "@ + e@,
                    },
                ),
            ]);
        }
        self.prompt.push(m);
        proof {
            assert(msg_views(self.prompt@) =~= before.push(
                folded_msg(
                    tool_call_id@,
                    match result {
                        Ok(s) => Ok(s@),
                        Err(e) => Err(e@),
                    },
                ),
            ));
        }
    }

    /// Folds the outcomes of the dispatched calls into the history, one
    /// tool message per call in backend order, then ends the round:
    /// successfully when every call was dispatched, with `ToolNotFound`
    /// when a call named an unknown or disabled tool.  Nothing is rolled
    /// back either way.
    pub fn apply_tool_outcomes(
        &mut self,
        calls: &Vec<FunctionCall>,
        results: &Vec<Result<String, String>>,
    ) -> (r: Result<(), ClientError>)
        requires
            results@.len() == fail_from(
                old(self).client@.tools,
                call_views(calls@),
                0,
            ),
        ensures
            final(self).client == old(self).client,
            ({
                let cvs = call_views(calls@);
                let k = fail_from(old(self).client@.tools, cvs, 0);
                &&& msg_views(final(self).prompt@) == msg_views(old(self).prompt@) + Seq::new(
                    k as nat,
                    |i: int| folded_msg(cvs[i].id, res_view(results@[i])),
                )
                &&& if k < cvs.len() {
                    r matches Err(e) && e == ClientError::ToolNotFound
                } else {
                    r is Ok
                }
            }),
    {
        let ghost cvs = call_views(calls@);
        let ghost ts = self.client@.tools;
        let ghost before = msg_views(self.prompt@);
        proof {
            lemma_fail_from_bounds(ts, cvs, 0);
        }
        let k = results.len();
        let mut i: usize = 0;
        while i < k
            invariant
                0 <= i <= k,
                k == results@.len(),
                k as int == fail_from(ts, cvs, 0),
                k <= cvs.len(),
                cvs == call_views(calls@),
                cvs.len() == calls@.len(),
                ts == self.client@.tools,
                self.client == old(self).client,
                msg_views(self.prompt@) == before + Seq::new(
                    i as nat,
                    |j: int| folded_msg(cvs[j].id, res_view(results@[j])),
                ),
            decreases k - i,
        {
            let ghost sofar = Seq::new(i as nat, |j: int| folded_msg(cvs[j].id, res_view(results@[j])));
            self.fold_tool_result(&calls[i].id, &results[i]);
            proof {
                assert(msg_views(self.prompt@) =~= before + Seq::new(
                    (i + 1) as nat,
                    |j: int| folded_msg(cvs[j].id, res_view(results@[j])),
                ));
            }
            i = i + 1;
        }
        if k < calls.len() {
            Err(ClientError::ToolNotFound)
        } else {
            Ok(())
        }
    }
}


} // verus!
