//! The decisions behind the app's commands: settings with their defaults,
//! on-device readiness, profiles, conversation ownership, the prompt that is
//! sent, and the summary of a sync run.

use vstd::prelude::*;

use crate::error::AppError;
use crate::llm::ChatMsg;
use crate::naming::NAMING_SYSTEM_PROMPT;
use crate::router::{
    resolve_endpoint, resolve_route, spec_resolve_endpoint, spec_resolve_route, Profile, Route,
    RouteError, RouteErrorView, RouteInputs, RouteInputsView, RouteView, Tier, TaskHint,
};
use crate::store::{Message, MsgRow, User};
use crate::sync::PullResponse;
use crate::text::{
    append_chars, chars_of, copy_str, join, join_chars, opt_chars, str_equal, string_of, trim,
    trim_chars, trim_end_char, trim_end_char_chars, trim_end_pattern, trim_end_pattern_chars,
    views,
};

verus! {

/// Default home-base (model gateway) endpoint.
pub const DEFAULT_ENDPOINT: &'static str = "http://firefly.taild9c345.ts.net:4000";
/// Default on-device model server.
pub const DEFAULT_ON_DEVICE_ENDPOINT: &'static str = "http://localhost:11434";
/// Default on-device model.
pub const DEFAULT_ON_DEVICE_MODEL: &'static str = "qwen3.6:27b";
/// Default logical model for code.
pub const DEFAULT_MODEL_CODE: &'static str = "code";
/// Default logical model for general chat.
pub const DEFAULT_MODEL_CHAT_HEAVY: &'static str = "chat-heavy";
/// Default logical frontier model.
pub const DEFAULT_MODEL_FRONTIER: &'static str = "frontier";
/// Default sync service endpoint.
pub const DEFAULT_SYNC_ENDPOINT: &'static str = "http://firefly.taild9c345.ts.net:8788";
/// Default name of this device.
pub const DEFAULT_DEVICE_NAME: &'static str = "firefly-device";
/// Memory injection is on unless turned off.
pub const DEFAULT_MEMORY_ENABLED: &'static str = "true";
/// The title of a conversation that has not been named yet.
pub const DEFAULT_CONVERSATION_TITLE: &'static str = "New conversation";

/// The app's settings.
pub struct Settings {
    pub firefly_endpoint: String,
    pub on_device_endpoint: String,
    pub on_device_model: String,
    pub model_code: String,
    pub model_chat_heavy: String,
    pub model_frontier: String,
    pub sync_endpoint: String,
    pub device_name: String,
    pub memory_enabled: bool,
}

/// The settings as stored, each one absent when it was never saved.
pub struct StoredSettings {
    pub firefly_endpoint: Option<String>,
    pub on_device_endpoint: Option<String>,
    pub on_device_model: Option<String>,
    pub model_code: Option<String>,
    pub model_chat_heavy: Option<String>,
    pub model_frontier: Option<String>,
    pub sync_endpoint: Option<String>,
    pub device_name: Option<String>,
    pub memory_enabled: Option<String>,
}

/// A stored value, or the default when none is stored.
pub open spec fn or_default(stored: Option<String>, default: Seq<char>) -> Seq<char> {
    match stored {
        Some(v) => v@,
        None => default,
    }
}

/// The flag stored as `true` or `false`; any other text reads as `true`.
pub open spec fn spec_flag(text: Seq<char>) -> bool {
    text != "false"@
}

fn value_or(stored: Option<String>, default: &str) -> (r: String)
    ensures
        r@ == or_default(stored, default@),
{
    match stored {
        Some(v) => v,
        None => copy_str(default),
    }
}

/// Read a stored flag as `str::parse::<bool>` does, falling back to `true`
/// when the text is neither `true` nor `false`.
pub fn parse_flag(text: &str) -> (r: bool)
    ensures
        r == spec_flag(text@),
{
    !str_equal(text, "false")
}

/// The text a flag is stored as.
pub fn flag_text(b: bool) -> (r: &'static str)
    ensures
        r@ == if b {
            "true"@
        } else {
            "false"@
        },
{
    if b {
        "true"
    } else {
        "false"
    }
}

/// Settings from what is stored, with the defaults for what is not.
pub fn resolve_settings(stored: StoredSettings) -> (r: Settings)
    ensures
        r.firefly_endpoint@ == or_default(stored.firefly_endpoint, DEFAULT_ENDPOINT@),
        r.on_device_endpoint@ == or_default(stored.on_device_endpoint, DEFAULT_ON_DEVICE_ENDPOINT@),
        r.on_device_model@ == or_default(stored.on_device_model, DEFAULT_ON_DEVICE_MODEL@),
        r.model_code@ == or_default(stored.model_code, DEFAULT_MODEL_CODE@),
        r.model_chat_heavy@ == or_default(stored.model_chat_heavy, DEFAULT_MODEL_CHAT_HEAVY@),
        r.model_frontier@ == or_default(stored.model_frontier, DEFAULT_MODEL_FRONTIER@),
        r.sync_endpoint@ == or_default(stored.sync_endpoint, DEFAULT_SYNC_ENDPOINT@),
        r.device_name@ == or_default(stored.device_name, DEFAULT_DEVICE_NAME@),
        r.memory_enabled == spec_flag(or_default(stored.memory_enabled, DEFAULT_MEMORY_ENABLED@)),
{
    let memory = value_or(stored.memory_enabled, DEFAULT_MEMORY_ENABLED);
    Settings {
        firefly_endpoint: value_or(stored.firefly_endpoint, DEFAULT_ENDPOINT),
        on_device_endpoint: value_or(stored.on_device_endpoint, DEFAULT_ON_DEVICE_ENDPOINT),
        on_device_model: value_or(stored.on_device_model, DEFAULT_ON_DEVICE_MODEL),
        model_code: value_or(stored.model_code, DEFAULT_MODEL_CODE),
        model_chat_heavy: value_or(stored.model_chat_heavy, DEFAULT_MODEL_CHAT_HEAVY),
        model_frontier: value_or(stored.model_frontier, DEFAULT_MODEL_FRONTIER),
        sync_endpoint: value_or(stored.sync_endpoint, DEFAULT_SYNC_ENDPOINT),
        device_name: value_or(stored.device_name, DEFAULT_DEVICE_NAME),
        memory_enabled: parse_flag(memory.as_str()),
    }
}

/// Readiness of the on-device model server.
#[derive(Clone, Debug, PartialEq, Eq)]
pub enum OnDevice {
    Ready { model: String },
    ModelMissing { model: String },
    Unreachable,
}

/// The base URL of the on-device model server: the normalized endpoint
/// without trailing slashes and without trailing `/v1` segments.
pub open spec fn spec_on_device_base(endpoint: Seq<char>) -> Seq<char> {
    trim_end_pattern(trim_end_char(spec_resolve_endpoint(endpoint), '/'), "/v1"@)
}

/// The base URL of the on-device model server.
pub fn on_device_base(endpoint: &str) -> (r: String)
    ensures
        r@ == spec_on_device_base(endpoint@),
{
    let e = resolve_endpoint(endpoint);
    let no_slash = trim_end_char_chars(chars_of(e.as_str()).as_slice(), '/');
    let v1 = chars_of("/v1");
    proof {
        reveal_strlit("/v1");
    }
    string_of(trim_end_pattern_chars(no_slash.as_slice(), v1.as_slice()).as_slice())
}

/// For each entry of `models` in an on-device server's `/api/tags` reply,
/// its `name` when that is a string, as `serde_json` reads them; `None`
/// when the reply is not JSON or has no `models` array.
pub uninterp spec fn tag_entry_names(body: Seq<char>) -> Option<Seq<Option<Seq<char>>>>;

/// Parses a `/api/tags` reply with `serde_json::from_str` into a
/// `serde_json::Value`, takes `models` with `as_array`, and reads each
/// entry's `name` with `as_str`. The claim is that the answer is a function
/// of the reply alone, named `tag_entry_names`; no JSON grammar is stated.
#[verifier::external_body]
fn tag_names(body: &str) -> (r: Option<Vec<Option<String>>>)
    ensures
        match r {
            Some(v) => tag_entry_names(body@) == Some(name_views(v@)),
            None => tag_entry_names(body@) is None,
        },
{
    match serde_json::from_str::<serde_json::Value>(body) {
        Ok(tags) => match tags["models"].as_array() {
            Some(models) => Some(models.iter().map(|m| m["name"].as_str().map(str::to_string)).collect()),
            None => None,
        },
        Err(_) => None,
    }
}

/// The texts of optional names.
pub open spec fn name_views(v: Seq<Option<String>>) -> Seq<Option<Seq<char>>> {
    v.map_values(|n: Option<String>| opt_chars(n))
}

/// Whether the tag list names `model`.
pub open spec fn tags_list_model(names: Option<Seq<Option<Seq<char>>>>, model: Seq<char>) -> bool {
    names matches Some(ns) && exists|k: int| 0 <= k < ns.len() && ns[k] == Some(model)
}

/// Readiness from the body of the server's `/api/tags` reply: ready when an
/// entry of its model list is named as the configured model, else missing.
pub fn readiness_from_tags(model: &str, body: &str) -> (r: OnDevice)
    ensures
        match r {
            OnDevice::Ready { model: m } => m@ == model@ && tags_list_model(tag_entry_names(body@), model@),
            OnDevice::ModelMissing { model: m } => m@ == model@ && !tags_list_model(
                tag_entry_names(body@),
                model@,
            ),
            OnDevice::Unreachable => false,
        },
{
    let got = tag_names(body);
    let names = match got {
        Some(v) => v,
        None => return OnDevice::ModelMissing { model: copy_str(model) },
    };
    let ghost ns = name_views(names@);
    assert(tag_entry_names(body@) == Some(ns));
    let mut k: usize = 0;
    while k < names.len()
        invariant
            k <= names.len(),
            ns == name_views(names@),
            tag_entry_names(body@) == Some(ns),
            forall|m: int| 0 <= m < k ==> ns[m] != Some(model@),
        decreases names.len() - k,
    {
        match &names[k] {
            Some(n) => {
                if str_equal(n.as_str(), model) {
                    assert(ns[k as int] == Some(model@));
                    assert(tags_list_model(Some(ns), model@));
                    return OnDevice::Ready { model: copy_str(model) };
                }
            },
            None => {},
        }
        k = k + 1;
    }
    OnDevice::ModelMissing { model: copy_str(model) }
}

/// The pieces of `s` between newline bytes (`[u8]::split` on `b'\n'`).
pub open spec fn split_lines(s: Seq<u8>) -> Seq<Seq<u8>>
    decreases s.len(),
{
    if s.len() == 0 {
        seq![Seq::<u8>::empty()]
    } else {
        let p = split_lines(s.drop_last());
        if s.last() == 10u8 {
            p.push(Seq::<u8>::empty())
        } else {
            p.update(p.len() - 1, p.last().push(s.last()))
        }
    }
}

/// The non-empty pieces, in order.
pub open spec fn non_empty(parts: Seq<Seq<u8>>) -> Seq<Seq<u8>>
    decreases parts.len(),
{
    if parts.len() == 0 {
        parts
    } else if parts.last().len() > 0 {
        non_empty(parts.drop_last()).push(parts.last())
    } else {
        non_empty(parts.drop_last())
    }
}

/// The non-empty lines of a chunk of newline-delimited JSON.
pub open spec fn chunk_lines(chunk: Seq<u8>) -> Seq<Seq<u8>> {
    non_empty(split_lines(chunk))
}

/// The views of a sequence of byte vectors.
pub open spec fn byte_views(v: Seq<Vec<u8>>) -> Seq<Seq<u8>> {
    v.map_values(|x: Vec<u8>| x@)
}

fn split_chunk(chunk: &[u8]) -> (r: Vec<Vec<u8>>)
    ensures
        byte_views(r@) == split_lines(chunk@),
{
    let mut r: Vec<Vec<u8>> = Vec::new();
    r.push(Vec::new());
    assert(chunk@.take(0) =~= Seq::<u8>::empty());
    assert(byte_views(r@) =~= split_lines(chunk@.take(0)));
    let mut i: usize = 0;
    while i < chunk.len()
        invariant
            i <= chunk.len(),
            r.len() >= 1,
            byte_views(r@) == split_lines(chunk@.take(i as int)),
        decreases chunk.len() - i,
    {
        let b = chunk[i];
        assert(chunk@.take(i + 1).drop_last() =~= chunk@.take(i as int));
        if b == 10u8 {
            r.push(Vec::new());
            assert(byte_views(r@) =~= split_lines(chunk@.take(i + 1)));
        } else {
            let ghost before = byte_views(r@);
            let mut last = r.pop().unwrap();
            last.push(b);
            r.push(last);
            assert(byte_views(r@) =~= before.update(before.len() - 1, before.last().push(b)));
        }
        i = i + 1;
    }
    assert(chunk@.take(chunk.len() as int) =~= chunk@);
    r
}

/// The non-empty lines of a chunk of newline-delimited JSON, in order.
pub fn progress_lines(chunk: &[u8]) -> (r: Vec<Vec<u8>>)
    ensures
        byte_views(r@) == chunk_lines(chunk@),
{
    let parts = split_chunk(chunk);
    let mut r: Vec<Vec<u8>> = Vec::new();
    let mut k: usize = 0;
    assert(byte_views(parts@).take(0) =~= Seq::<Seq<u8>>::empty());
    while k < parts.len()
        invariant
            k <= parts.len(),
            byte_views(r@) == non_empty(byte_views(parts@).take(k as int)),
        decreases parts.len() - k,
    {
        let ghost all = byte_views(parts@);
        assert(all.take(k + 1).drop_last() =~= all.take(k as int));
        assert(all.take(k + 1).last() == parts@[k as int]@);
        if parts[k].len() > 0 {
            let line = parts[k].clone();
            r.push(line);
            assert(byte_views(r@) =~= non_empty(all.take(k + 1)));
        }
        k = k + 1;
    }
    assert(byte_views(parts@).take(parts.len() as int) =~= byte_views(parts@));
    r
}

/// A progress update of a model pull.
#[derive(Clone, Debug, PartialEq, Eq)]
pub struct PullProgress {
    pub status: String,
    pub completed: Option<u64>,
    pub total: Option<u64>,
}

/// What `serde_json` reads from one progress line: the `status` when it is
/// a string, and the `completed` and `total` counts when they are unsigned
/// integers; `None` when the line is not JSON.
pub uninterp spec fn progress_fields(line: Seq<u8>) -> Option<
    (Option<Seq<char>>, Option<u64>, Option<u64>),
>;

/// Parses one line with `serde_json::from_slice` into a `serde_json::Value`
/// and reads `status` with `as_str` and `completed`/`total` with `as_u64`.
/// The claim is that the answer is a function of the line alone, named
/// `progress_fields`; no JSON grammar is stated.
#[verifier::external_body]
fn parse_progress(line: &[u8]) -> (r: Option<(Option<String>, Option<u64>, Option<u64>)>)
    ensures
        match r {
            Some((status, completed, total)) => progress_fields(line@) == Some(
                (opt_chars(status), completed, total),
            ),
            None => progress_fields(line@) is None,
        },
{
    match serde_json::from_slice::<serde_json::Value>(line) {
        Ok(p) => Some((p["status"].as_str().map(str::to_string), p["completed"].as_u64(), p["total"].as_u64())),
        Err(_) => None,
    }
}

/// The update for what a progress line held: a missing status reads as empty.
pub open spec fn progress_update(f: (Option<Seq<char>>, Option<u64>, Option<u64>)) -> (
    Seq<char>,
    Option<u64>,
    Option<u64>,
) {
    (
        match f.0 {
            Some(s) => s,
            None => Seq::empty(),
        },
        f.1,
        f.2,
    )
}

/// The progress updates of the lines that parse, in order.
pub open spec fn parsed_updates(lines: Seq<Seq<u8>>) -> Seq<(Seq<char>, Option<u64>, Option<u64>)>
    decreases lines.len(),
{
    if lines.len() == 0 {
        Seq::empty()
    } else {
        match progress_fields(lines.last()) {
            Some(f) => parsed_updates(lines.drop_last()).push(progress_update(f)),
            None => parsed_updates(lines.drop_last()),
        }
    }
}

/// The view of progress updates.
pub open spec fn progress_view(v: Seq<PullProgress>) -> Seq<(Seq<char>, Option<u64>, Option<u64>)> {
    v.map_values(|p: PullProgress| (p.status@, p.completed, p.total))
}

/// The progress updates in one streamed chunk of a model pull: each
/// non-empty line that is JSON gives one update; other lines are skipped.
pub fn pull_progress(chunk: &[u8]) -> (r: Vec<PullProgress>)
    ensures
        progress_view(r@) == parsed_updates(chunk_lines(chunk@)),
{
    let lines = progress_lines(chunk);
    let ghost ls = byte_views(lines@);
    let mut r: Vec<PullProgress> = Vec::new();
    let mut k: usize = 0;
    assert(ls.take(0) =~= Seq::<Seq<u8>>::empty());
    assert(progress_view(r@) =~= parsed_updates(ls.take(0)));
    while k < lines.len()
        invariant
            k <= lines.len(),
            ls == byte_views(lines@),
            progress_view(r@) == parsed_updates(ls.take(k as int)),
        decreases lines.len() - k,
    {
        assert(ls.take(k + 1).drop_last() =~= ls.take(k as int));
        assert(ls.take(k + 1).last() == lines@[k as int]@);
        match parse_progress(lines[k].as_slice()) {
            Some((status, completed, total)) => {
                let status = match status {
                    Some(text) => text,
                    None => String::new(),
                };
                let p = PullProgress { status, completed, total };
                let ghost before = r@;
                r.push(p);
                assert(progress_view(r@) =~= progress_view(before).push(
                    (p.status@, p.completed, p.total),
                ));
            },
            None => {},
        }
        k = k + 1;
    }
    assert(ls.take(lines.len() as int) =~= ls);
    r
}

/// Whether the on-device server is running with the configured model.
pub fn is_ready(state: &OnDevice) -> (r: bool)
    ensures
        r == state is Ready,
{
    match state {
        OnDevice::Ready { .. } => true,
        _ => false,
    }
}

/// Guidance when the on-device server is not running.
pub const SERVER_NOT_RUNNING: &'static str = "the on-device model server isn't running. Start it (e.g. `ollama serve`) and try again.";

/// The guidance when the configured on-device model is not pulled yet.
pub open spec fn model_missing_hint(model: Seq<char>) -> Seq<char> {
    "the on-device model \""@ + model + "\" isn't downloaded yet. Pull it before using on-device chat."@
}

/// An actionable message when a route needed the on-device server and it is
/// not ready. `None` on a platform without an on-device target (`ios`), or
/// when the server was ready.
pub fn on_device_hint(state: &OnDevice, ios: bool) -> (r: Option<String>)
    ensures
        ios ==> r is None,
        !ios ==> match state {
            OnDevice::Unreachable => r matches Some(m) && m@ == SERVER_NOT_RUNNING@,
            OnDevice::ModelMissing { model } => r matches Some(m) && m@ == model_missing_hint(
                model@,
            ),
            OnDevice::Ready { .. } => r is None,
        },
{
    if ios {
        return None;
    }
    match state {
        OnDevice::Unreachable => Some(copy_str(SERVER_NOT_RUNNING)),
        OnDevice::ModelMissing { model } => {
            let mut m = chars_of("the on-device model \"");
            append_chars(&mut m, chars_of(model.as_str()).as_slice());
            append_chars(
                &mut m,
                chars_of("\" isn't downloaded yet. Pull it before using on-device chat.").as_slice(),
            );
            Some(string_of(m.as_slice()))
        },
        OnDevice::Ready { .. } => None,
    }
}

/// The error shown when no route was found: a refusal as it is; a missing
/// configuration as the on-device hint when there is one.
pub fn route_failure(err: RouteError, hint: Option<String>) -> (r: AppError)
    ensures
        match err {
            RouteError::Refused(m) => r == AppError::Other(m),
            RouteError::NotConfigured(m) => match hint {
                Some(h) => r == AppError::Other(h),
                None => r == AppError::Other(m),
            },
        },
{
    match err {
        RouteError::Refused(m) => AppError::Other(m),
        RouteError::NotConfigured(m) => match hint {
            Some(h) => AppError::Other(h),
            None => AppError::Other(m),
        },
    }
}

/// Whether any of the models a key resolves is the code or frontier model.
pub open spec fn spec_can_use_adult_models(
    models: Seq<Seq<char>>,
    model_code: Seq<char>,
    model_frontier: Seq<char>,
) -> bool {
    exists|k: int| 0 <= k < models.len() && (models[k] == model_code || models[k] == model_frontier)
}

/// The profile a LiteLLM key implies: `adult` iff it can resolve the code
/// or the frontier model.
pub fn profile_for_models(models: &Vec<String>, model_code: &str, model_frontier: &str) -> (r:
    &'static str)
    ensures
        r@ == if spec_can_use_adult_models(
            models@.map_values(|s: String| s@),
            model_code@,
            model_frontier@,
        ) {
            "adult"@
        } else {
            "kid"@
        },
{
    let ghost names = models@.map_values(|s: String| s@);
    let mut k: usize = 0;
    while k < models.len()
        invariant
            k <= models.len(),
            names == models@.map_values(|s: String| s@),
            forall|m: int| 0 <= m < k ==> names[m] != model_code@ && names[m] != model_frontier@,
        decreases models.len() - k,
    {
        if str_equal(models[k].as_str(), model_code) || str_equal(models[k].as_str(), model_frontier) {
            assert(names[k as int] == models@[k as int]@);
            return "adult";
        }
        k = k + 1;
    }
    "kid"
}

/// The routing profile of a stored profile name: `adult` is an adult,
/// anything else a kid.
pub fn profile_of(stored: &str) -> (r: Profile)
    ensures
        r == if stored@ == "adult"@ {
            Profile::Adult
        } else {
            Profile::Kid
        },
{
    if str_equal(stored, "adult") {
        Profile::Adult
    } else {
        Profile::Kid
    }
}

/// The error for a conversation that does not belong to the active profile.
pub const NOT_YOUR_CONVERSATION: &'static str = "conversation not found for this profile";

/// A conversation may be read or changed only by its owner, the active profile.
pub fn check_owner(owner: Option<String>, active: &str) -> (r: Result<(), AppError>)
    ensures
        r is Ok <==> (owner matches Some(o) && o@ == active@),
        r matches Err(e) ==> e matches AppError::Other(m) && m@ == NOT_YOUR_CONVERSATION@,
{
    match owner {
        Some(o) => {
            if str_equal(o.as_str(), active) {
                return Ok(());
            }
        },
        None => {},
    }
    Err(AppError::Other(copy_str(NOT_YOUR_CONVERSATION)))
}

/// The error for a blank conversation title.
pub const EMPTY_TITLE: &'static str = "title cannot be empty";

/// A new conversation title, trimmed; a blank title is refused.
pub fn normalized_title(title: &str) -> (r: Result<String, AppError>)
    ensures
        trim(title@).len() > 0 ==> (r matches Ok(t) && t@ == trim(title@)),
        trim(title@).len() == 0 ==> (r matches Err(AppError::Other(m)) && m@ == EMPTY_TITLE@),
{
    let t = trim_chars(chars_of(title).as_slice());
    if t.len() == 0 {
        Err(AppError::Other(copy_str(EMPTY_TITLE)))
    } else {
        Ok(string_of(t.as_slice()))
    }
}

/// Only a conversation that still has the default title is named
/// automatically; a title set by the user or by an earlier run is kept.
pub fn needs_generated_title(title: &str) -> (r: bool)
    ensures
        r == (title@ == DEFAULT_CONVERSATION_TITLE@),
{
    str_equal(title, DEFAULT_CONVERSATION_TITLE)
}

/// The prompt that asks the quick model for a title.
pub fn naming_messages(first_message: String) -> (r: Vec<ChatMsg>)
    ensures
        r.len() == 2,
        r[0].role@ == "system"@ && r[0].content@ == NAMING_SYSTEM_PROMPT@,
        r[1].role@ == "user"@ && r[1].content@ == first_message@,
{
    let mut r: Vec<ChatMsg> = Vec::new();
    r.push(ChatMsg { role: copy_str("system"), content: copy_str(NAMING_SYSTEM_PROMPT) });
    r.push(ChatMsg { role: copy_str("user"), content: first_message });
    r
}

/// The role and content of each stored message, in order.
pub open spec fn history_view(history: Seq<Message>) -> Seq<(Seq<char>, Seq<char>)> {
    history.map_values(|m: Message| (m.role@, m.content@))
}

/// The role and content of each chat message, in order.
pub open spec fn chat_view(msgs: Seq<ChatMsg>) -> Seq<(Seq<char>, Seq<char>)> {
    msgs.map_values(|m: ChatMsg| (m.role@, m.content@))
}

/// The conversation so far as chat messages.
pub fn chat_history(history: &Vec<Message>) -> (r: Vec<ChatMsg>)
    ensures
        chat_view(r@) == history_view(history@),
{
    let mut r: Vec<ChatMsg> = Vec::new();
    let mut k: usize = 0;
    while k < history.len()
        invariant
            k <= history.len(),
            r.len() == k,
            chat_view(r@) == history_view(history@).take(k as int),
        decreases history.len() - k,
    {
        let ghost before = r@;
        let m = ChatMsg { role: history[k].role.clone(), content: history[k].content.clone() };
        r.push(m);
        assert(r@ == before.push(m));
        assert forall|j: int| 0 <= j < k + 1 implies #[trigger] chat_view(r@)[j] == history_view(
            history@,
        )[j] by {
            if j < k {
                assert(r@[j] == before[j]);
                assert(chat_view(before)[j] == history_view(history@).take(k as int)[j]);
            }
        }
        assert(chat_view(r@) =~= history_view(history@).take(k + 1));
        k = k + 1;
    }
    assert(history_view(history@).take(history.len() as int) =~= history_view(history@));
    r
}

/// Memories are injected only into home-base requests, and only when the
/// setting allows it.
pub fn should_inject_memories(memory_enabled: bool, tier: Tier) -> (r: bool)
    ensures
        r == (memory_enabled && tier == Tier::HomeBase),
{
    memory_enabled && tier == Tier::HomeBase
}

/// The messages with the memory system message, when there is one, first.
pub fn with_memory(messages: Vec<ChatMsg>, memory: Option<ChatMsg>) -> (r: Vec<ChatMsg>)
    ensures
        r@ == match memory {
            Some(m) => seq![m] + messages@,
            None => messages@,
        },
{
    let mut messages = messages;
    match memory {
        Some(m) => {
            let ghost before = messages@;
            messages.insert(0, m);
            assert(messages@ =~= seq![m] + before);
            messages
        },
        None => messages,
    }
}

/// A private request's messages stay on this device: they are stored as
/// local only and never queued for push.
pub fn is_local_only(task: crate::router::TaskHint) -> (r: bool)
    ensures
        r == (task == crate::router::TaskHint::Private),
{
    task == crate::router::TaskHint::Private
}

/// A profile as the profile switcher shows it.
#[derive(Clone, Debug, PartialEq, Eq)]
pub struct ProfileDto {
    pub user_id: String,
    pub display_name: String,
    pub profile: String,
    pub active: bool,
}

/// Whether `u` is the active user.
pub open spec fn is_active(u: User, active: Option<String>) -> bool {
    active matches Some(a) && a@ == u.user_id@
}

/// The profile switcher's list: every local user in order, the active one
/// marked.
pub fn profile_list(users: &Vec<User>, active: &Option<String>) -> (r: Vec<ProfileDto>)
    ensures
        r.len() == users.len(),
        forall|k: int|
            0 <= k < r.len() ==> r[k].user_id@ == users[k].user_id@ && r[k].display_name@
                == users[k].display_name@ && r[k].profile@ == users[k].profile@ && r[k].active
                == is_active(users[k], *active),
{
    let mut r: Vec<ProfileDto> = Vec::new();
    let mut k: usize = 0;
    while k < users.len()
        invariant
            k <= users.len(),
            r.len() == k,
            forall|j: int|
                0 <= j < k ==> r[j].user_id@ == users[j].user_id@ && r[j].display_name@
                    == users[j].display_name@ && r[j].profile@ == users[j].profile@ && r[j].active
                    == is_active(users[j], *active),
        decreases users.len() - k,
    {
        let u = &users[k];
        let is_on = match active {
            Some(a) => str_equal(a.as_str(), u.user_id.as_str()),
            None => false,
        };
        r.push(
            ProfileDto {
                user_id: u.user_id.clone(),
                display_name: u.display_name.clone(),
                profile: u.profile.clone(),
                active: is_on,
            },
        );
        k = k + 1;
    }
    r
}

/// The ids of messages, in order.
pub fn message_ids(msgs: &Vec<MsgRow>) -> (r: Vec<String>)
    ensures
        r.len() == msgs.len(),
        forall|k: int| 0 <= k < r.len() ==> r[k]@ == msgs[k].id@,
{
    let mut r: Vec<String> = Vec::new();
    let mut k: usize = 0;
    while k < msgs.len()
        invariant
            k <= msgs.len(),
            r.len() == k,
            forall|j: int| 0 <= j < k ==> r[j]@ == msgs[j].id@,
        decreases msgs.len() - k,
    {
        r.push(msgs[k].id.clone());
        k = k + 1;
    }
    r
}

/// The number of rows a pull brought.
pub fn pulled_count(p: &PullResponse) -> (r: usize)
    requires
        p.conversations.len() + p.messages.len() + p.memories.len() <= usize::MAX,
    ensures
        r == p.conversations.len() + p.messages.len() + p.memories.len(),
{
    p.conversations.len() + p.messages.len() + p.memories.len()
}

/// The outcome of a sync run, for the UI.
#[derive(Clone, Debug, PartialEq, Eq)]
pub struct SyncSummary {
    pub ok: bool,
    pub pushed: usize,
    pub pulled: usize,
    pub cursor: String,
    pub message: Option<String>,
}

/// Why a sync run was skipped: another one is running.
pub const SYNC_BUSY: &'static str = "sync already in progress";
/// Why a sync run was skipped: the home base is unreachable.
pub const SYNC_OFFLINE: &'static str = "offline";
/// Why a sync run was skipped: there is no local profile.
pub const SYNC_NO_PROFILES: &'static str = "no profiles";

impl SyncSummary {
    /// A run that did not sync anything, with the reason.
    pub fn skipped(message: &str) -> (r: SyncSummary)
        ensures
            !r.ok && r.pushed == 0 && r.pulled == 0 && r.cursor@ == Seq::<char>::empty(),
            r.message matches Some(m) && m@ == message@,
    {
        SyncSummary {
            ok: false,
            pushed: 0,
            pulled: 0,
            cursor: String::new(),
            message: Some(copy_str(message)),
        }
    }
}

/// The running totals of a sync over all users.
pub struct SyncTally {
    pub pushed: usize,
    pub pulled: usize,
    pub errors: Vec<String>,
}

/// The line recorded for a user whose sync failed.
pub open spec fn failure_line(user_id: Seq<char>, error: Seq<char>) -> Seq<char> {
    user_id + ": "@ + error
}

impl SyncTally {
    /// Nothing synced yet.
    pub fn new() -> (r: SyncTally)
        ensures
            r.pushed == 0 && r.pulled == 0 && r.errors@.len() == 0,
    {
        SyncTally { pushed: 0, pulled: 0, errors: Vec::new() }
    }

    /// A user synced: add its pushed and pulled counts.
    pub fn add_success(&mut self, pushed: usize, pulled: usize)
        requires
            old(self).pushed + pushed <= usize::MAX,
            old(self).pulled + pulled <= usize::MAX,
        ensures
            final(self).pushed == old(self).pushed + pushed,
            final(self).pulled == old(self).pulled + pulled,
            final(self).errors@ == old(self).errors@,
    {
        self.pushed = self.pushed + pushed;
        self.pulled = self.pulled + pulled;
    }

    /// A user's sync failed: record the user and the error; the others go on.
    pub fn add_failure(&mut self, user_id: &str, error: &str)
        ensures
            final(self).pushed == old(self).pushed,
            final(self).pulled == old(self).pulled,
            final(self).errors@.len() == old(self).errors@.len() + 1,
            forall|k: int|
                0 <= k < old(self).errors@.len() ==> final(self).errors@[k] == old(self).errors@[k],
            final(self).errors@.last()@ == failure_line(user_id@, error@),
    {
        let mut line = chars_of(user_id);
        append_chars(&mut line, chars_of(": ").as_slice());
        append_chars(&mut line, chars_of(error).as_slice());
        self.errors.push(string_of(line.as_slice()));
    }

    /// The summary: successful when no user failed; otherwise the failures
    /// joined with `"; "`.
    pub fn finish(self) -> (r: SyncSummary)
        ensures
            r.pushed == self.pushed && r.pulled == self.pulled,
            r.cursor@ == Seq::<char>::empty(),
            r.ok == (self.errors@.len() == 0),
            self.errors@.len() == 0 ==> r.message is None,
            self.errors@.len() > 0 ==> (r.message matches Some(m) && m@ == join(
                self.errors@.map_values(|e: String| e@),
                "; "@,
            )),
    {
        if self.errors.len() == 0 {
            SyncSummary {
                ok: true,
                pushed: self.pushed,
                pulled: self.pulled,
                cursor: String::new(),
                message: None,
            }
        } else {
            let mut parts: Vec<Vec<char>> = Vec::new();
            let mut k: usize = 0;
            while k < self.errors.len()
                invariant
                    k <= self.errors.len(),
                    parts.len() == k,
                    views(parts@) == self.errors@.map_values(|e: String| e@).take(k as int),
                decreases self.errors.len() - k,
            {
                let ghost before = parts@;
                let ghost all = self.errors@.map_values(|e: String| e@);
                let piece = chars_of(self.errors[k].as_str());
                parts.push(piece);
                assert(parts@ == before.push(piece));
                assert forall|j: int| 0 <= j < k + 1 implies #[trigger] views(parts@)[j] == all[j] by {
                    if j < k {
                        assert(parts@[j] == before[j]);
                        assert(views(before)[j] == all.take(k as int)[j]);
                    }
                }
                assert(views(parts@) =~= all.take(k + 1));
                k = k + 1;
            }
            assert(self.errors@.map_values(|e: String| e@).take(self.errors.len() as int)
                =~= self.errors@.map_values(|e: String| e@));
            let joined = join_chars(&parts, chars_of("; ").as_slice());
            SyncSummary {
                ok: false,
                pushed: self.pushed,
                pulled: self.pulled,
                cursor: String::new(),
                message: Some(string_of(joined.as_slice())),
            }
        }
    }
}

/// Whether `s` reports a run that synced nothing, for the reason `message`.
pub open spec fn is_skip(s: SyncSummary, message: Seq<char>) -> bool {
    &&& !s.ok
    &&& s.pushed == 0
    &&& s.pulled == 0
    &&& s.cursor@.len() == 0
    &&& s.message matches Some(m) && m@ == message
}

/// The summary of a sync run that stops before any user is synced, or
/// `None` when the run goes on: a run that could not take the sync lock is
/// busy; one that took it but cannot reach the home base is offline.
pub fn sync_gate(lock_acquired: bool, reachable: bool) -> (r: Option<SyncSummary>)
    ensures
        !lock_acquired ==> (r matches Some(s) && is_skip(s, SYNC_BUSY@)),
        lock_acquired && !reachable ==> (r matches Some(s) && is_skip(s, SYNC_OFFLINE@)),
        lock_acquired && reachable ==> r is None,
{
    if !lock_acquired {
        Some(SyncSummary::skipped(SYNC_BUSY))
    } else if !reachable {
        Some(SyncSummary::skipped(SYNC_OFFLINE))
    } else {
        None
    }
}

/// The summary of a sync run with no local profile to sync, or `None` when
/// there are profiles.
pub fn profiles_gate(user_count: usize) -> (r: Option<SyncSummary>)
    ensures
        user_count == 0 ==> (r matches Some(s) && is_skip(s, SYNC_NO_PROFILES@)),
        user_count > 0 ==> r is None,
{
    if user_count == 0 {
        Some(SyncSummary::skipped(SYNC_NO_PROFILES))
    } else {
        None
    }
}

/// What syncing one user came to.
pub enum UserSync {
    /// The user has no device token in the keychain: it is skipped.
    NoToken,
    /// The user's rows were pushed and pulled: the two counts.
    Synced(usize, usize),
    /// The user's sync failed: the user and the error text.
    Failed(String, String),
}

/// The rows pushed over a run's user outcomes.
pub open spec fn pushed_total(o: Seq<UserSync>) -> int
    decreases o.len(),
{
    if o.len() == 0 {
        0
    } else {
        pushed_total(o.drop_last()) + match o.last() {
            UserSync::Synced(p, _) => p as int,
            _ => 0,
        }
    }
}

/// The rows pulled over a run's user outcomes.
pub open spec fn pulled_total(o: Seq<UserSync>) -> int
    decreases o.len(),
{
    if o.len() == 0 {
        0
    } else {
        pulled_total(o.drop_last()) + match o.last() {
            UserSync::Synced(_, q) => q as int,
            _ => 0,
        }
    }
}

/// The failure lines of a run's user outcomes, in order.
pub open spec fn failure_lines(o: Seq<UserSync>) -> Seq<Seq<char>>
    decreases o.len(),
{
    if o.len() == 0 {
        Seq::empty()
    } else {
        match o.last() {
            UserSync::Failed(u, e) => failure_lines(o.drop_last()).push(failure_line(u@, e@)),
            _ => failure_lines(o.drop_last()),
        }
    }
}

proof fn lemma_totals_grow(o: Seq<UserSync>, i: int)
    requires
        0 <= i <= o.len(),
    ensures
        0 <= pushed_total(o.take(i)) <= pushed_total(o),
        0 <= pulled_total(o.take(i)) <= pulled_total(o),
    decreases o.len(),
{
    if i == o.len() {
        assert(o.take(i) =~= o);
        lemma_totals_nonneg(o);
    } else {
        assert(o.take(i) =~= o.drop_last().take(i));
        lemma_totals_grow(o.drop_last(), i);
    }
}

proof fn lemma_totals_nonneg(o: Seq<UserSync>)
    ensures
        0 <= pushed_total(o),
        0 <= pulled_total(o),
    decreases o.len(),
{
    if o.len() > 0 {
        lemma_totals_nonneg(o.drop_last());
    }
}

/// The summary of a sync run over all users, given what each came to:
/// users without a device token are skipped, the counts of synced users
/// add up, and the run is successful exactly when no user failed; the
/// failures are reported in order.
pub fn summarize_sync(outcomes: &Vec<UserSync>) -> (r: SyncSummary)
    requires
        pushed_total(outcomes@) <= usize::MAX,
        pulled_total(outcomes@) <= usize::MAX,
    ensures
        r.ok == (failure_lines(outcomes@).len() == 0),
        r.pushed == pushed_total(outcomes@),
        r.pulled == pulled_total(outcomes@),
        r.cursor@.len() == 0,
        r.ok ==> r.message is None,
        !r.ok ==> (r.message matches Some(m) && m@ == join(failure_lines(outcomes@), "; "@)),
{
    let mut tally = SyncTally::new();
    let mut i: usize = 0;
    assert(outcomes@.take(0) =~= Seq::<UserSync>::empty());
    assert(tally.errors@.map_values(|e: String| e@) =~= Seq::<Seq<char>>::empty());
    while i < outcomes.len()
        invariant
            i <= outcomes.len(),
            pushed_total(outcomes@) <= usize::MAX,
            pulled_total(outcomes@) <= usize::MAX,
            tally.pushed == pushed_total(outcomes@.take(i as int)),
            tally.pulled == pulled_total(outcomes@.take(i as int)),
            tally.errors@.map_values(|e: String| e@) == failure_lines(outcomes@.take(i as int)),
        decreases outcomes.len() - i,
    {
        let ghost before = tally.errors@;
        assert(outcomes@.take(i + 1).drop_last() =~= outcomes@.take(i as int));
        proof {
            lemma_totals_grow(outcomes@, i + 1);
        }
        match &outcomes[i] {
            UserSync::NoToken => {},
            UserSync::Synced(p, q) => {
                tally.add_success(*p, *q);
            },
            UserSync::Failed(u, e) => {
                tally.add_failure(u.as_str(), e.as_str());
                assert(tally.errors@.map_values(|e: String| e@) =~= before.map_values(
                    |e: String| e@,
                ).push(failure_line(u@, e@)));
            },
        }
        i = i + 1;
    }
    assert(outcomes@.take(outcomes.len() as int) =~= outcomes@);
    tally.finish()
}

/// A sync run is successful exactly when no user's sync failed; users
/// without a device token and users that synced leave it successful.
pub proof fn law_sync_ok_iff_no_user_failed(o: Seq<UserSync>)
    ensures
        (failure_lines(o).len() == 0) <==> (forall|i: int| 0 <= i < o.len() ==> !(#[trigger] o[i] is Failed)),
    decreases o.len(),
{
    if o.len() > 0 {
        law_sync_ok_iff_no_user_failed(o.drop_last());
        if o.last() is Failed {
            assert(o[o.len() - 1] is Failed);
        } else {
            assert forall|i: int| 0 <= i < o.len() - 1 implies #[trigger] o[i] == o.drop_last()[i] by {}
            if forall|i: int| 0 <= i < o.drop_last().len() ==> !(#[trigger] o.drop_last()[i] is Failed) {
                assert forall|i: int| 0 <= i < o.len() implies !(#[trigger] o[i] is Failed) by {
                    if i < o.len() - 1 {
                        assert(o[i] == o.drop_last()[i]);
                    }
                }
            } else {
                let j = choose|i: int| 0 <= i < o.drop_last().len() && #[trigger] o.drop_last()[i] is Failed;
                assert(o[j] == o.drop_last()[j]);
            }
        }
    }
}

/// What sending a message will do, decided before anything is sent.
pub struct SendPlan {
    /// The messages stay on this device: they are stored as local-only and
    /// never queued for push.
    pub local_only: bool,
    /// The route that serves the reply.
    pub route: Route,
    /// Whether the user's gateway key is read from the keychain.
    pub read_key: bool,
    /// Whether memories are searched and put before the history.
    pub inject_memories: bool,
}

/// The plan for sending a message of kind `task`: where the reply comes
/// from, whether the user's key goes with it, whether memories are added,
/// and whether the messages stay on this device; the routing error when the
/// request cannot be served.
pub fn plan_send(task: TaskHint, i: &RouteInputs, memory_enabled: bool) -> (r: Result<
    SendPlan,
    RouteError,
>)
    ensures
        match r {
            Ok(p) => {
                &&& spec_resolve_route(task, i@) == Ok::<RouteView, RouteErrorView>(p.route@)
                &&& p.local_only == (task == TaskHint::Private)
                &&& p.read_key == p.route.use_token
                &&& p.inject_memories == (memory_enabled && p.route.tier == Tier::HomeBase)
            },
            Err(e) => spec_resolve_route(task, i@) == Err::<RouteView, RouteErrorView>(e@),
        },
{
    match resolve_route(task, i) {
        Ok(route) => {
            let read_key = route.use_token;
            let inject_memories = should_inject_memories(memory_enabled, route.tier);
            Ok(SendPlan { local_only: is_local_only(task), route, read_key, inject_memories })
        },
        Err(e) => Err(e),
    }
}

/// A private message never leaves this device: it is served on this device
/// at the on-device endpoint, without the user's key and without memories
/// from the home base, and its rows stay local.
pub proof fn law_private_message_stays_on_device(i: RouteInputsView, memory_enabled: bool)
    ensures
        spec_resolve_route(TaskHint::Private, i) matches Ok(r) && r.tier == Tier::OnDevice
            && !r.use_token && r.endpoint == spec_resolve_endpoint(i.on_device_endpoint) && !(
        memory_enabled && r.tier == Tier::HomeBase),
{
}

} // verus!
