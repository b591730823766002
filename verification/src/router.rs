//! Tier selection: which endpoint and model serve a request, given the task,
//! the settings, live reachability of the home base and the active profile.

use vstd::prelude::*;

use crate::text::{
    append_chars, chars_of, has_prefix, lemma_trim_fixed, lemma_trim_shape, starts_with_chars,
    string_of, trim, trim_chars,
};
use std::time::Duration;
use std::time::Instant;

verus! {

/// What the user asked the app to do; decides the preferred tier.
#[derive(Clone, Copy, Debug, PartialEq, Eq, Structural)]
pub enum TaskHint {
    Quick,
    CodeComplete,
    Write,
    ExplainFile,
    Agentic,
    Private,
    Best,
}

/// Where a request is served.
#[derive(Clone, Copy, Debug, PartialEq, Eq, Structural)]
pub enum Tier {
    OnDevice,
    HomeBase,
    Cloud,
}

/// The active user's profile.
#[derive(Clone, Copy, Debug, PartialEq, Eq, Structural)]
pub enum Profile {
    Kid,
    Adult,
}

/// The wire name of each tier.
pub open spec fn spec_tier_name(t: Tier) -> Seq<char> {
    match t {
        Tier::OnDevice => "on-device"@,
        Tier::HomeBase => "home-base"@,
        Tier::Cloud => "cloud"@,
    }
}

impl Tier {
    /// The tier's name as the UI shows it.
    pub fn as_str(self) -> (r: &'static str)
        ensures
            r@ == spec_tier_name(self),
    {
        match self {
            Tier::OnDevice => "on-device",
            Tier::HomeBase => "home-base",
            Tier::Cloud => "cloud",
        }
    }
}

/// A concrete route: the tier, the normalized endpoint, the model name to
/// send, whether the user's key goes with the request, and whether this is a
/// degraded fallback.
#[derive(Clone, Debug, PartialEq, Eq)]
pub struct Route {
    pub tier: Tier,
    pub endpoint: String,
    pub model: String,
    pub use_token: bool,
    pub degraded: bool,
}

/// The value of a route.
pub struct RouteView {
    pub tier: Tier,
    pub endpoint: Seq<char>,
    pub model: Seq<char>,
    pub use_token: bool,
    pub degraded: bool,
}

impl View for Route {
    type V = RouteView;

    open spec fn view(&self) -> RouteView {
        RouteView {
            tier: self.tier,
            endpoint: self.endpoint@,
            model: self.model@,
            use_token: self.use_token,
            degraded: self.degraded,
        }
    }
}

/// Why no route could be chosen.
#[derive(Debug, PartialEq, Eq)]
pub enum RouteError {
    Refused(String),
    NotConfigured(String),
}

/// The value of a route error.
pub enum RouteErrorView {
    Refused(Seq<char>),
    NotConfigured(Seq<char>),
}

impl View for RouteError {
    type V = RouteErrorView;

    open spec fn view(&self) -> RouteErrorView {
        match self {
            RouteError::Refused(m) => RouteErrorView::Refused(m@),
            RouteError::NotConfigured(m) => RouteErrorView::NotConfigured(m@),
        }
    }
}

/// Settings and live state that routing reads.
pub struct RouteInputs<'a> {
    pub firefly_endpoint: &'a str,
    pub on_device_endpoint: &'a str,
    pub on_device_model: &'a str,
    pub model_code: &'a str,
    pub model_chat_heavy: &'a str,
    pub model_frontier: &'a str,
    pub firefly_reachable: bool,
    pub profile: Profile,
}

/// The value of routing inputs.
pub struct RouteInputsView {
    pub firefly_endpoint: Seq<char>,
    pub on_device_endpoint: Seq<char>,
    pub on_device_model: Seq<char>,
    pub model_code: Seq<char>,
    pub model_chat_heavy: Seq<char>,
    pub model_frontier: Seq<char>,
    pub firefly_reachable: bool,
    pub profile: Profile,
}

impl<'a> View for RouteInputs<'a> {
    type V = RouteInputsView;

    open spec fn view(&self) -> RouteInputsView {
        RouteInputsView {
            firefly_endpoint: self.firefly_endpoint@,
            on_device_endpoint: self.on_device_endpoint@,
            on_device_model: self.on_device_model@,
            model_code: self.model_code@,
            model_chat_heavy: self.model_chat_heavy@,
            model_frontier: self.model_frontier@,
            firefly_reachable: self.firefly_reachable,
            profile: self.profile,
        }
    }
}

/// The configured endpoint with surrounding whitespace removed and an
/// `http://` scheme added when it has neither `http://` nor `https://`.
pub open spec fn spec_resolve_endpoint(e: Seq<char>) -> Seq<char> {
    let t = trim(e);
    if has_prefix(t, "http://"@) || has_prefix(t, "https://"@) {
        t
    } else {
        "http://"@ + t
    }
}

/// The refusal for a kid profile asking for `what`.
pub open spec fn kid_refusal(what: Seq<char>) -> Seq<char> {
    what + " is not available for a kid profile; ask an adult"@
}

/// The error when code completion has neither tier available.
pub open spec fn code_complete_unavailable() -> Seq<char> {
    "code-complete needs an on-device endpoint, and Firefly is unreachable"@
}

/// The refusal of `best` while the home base is unreachable.
pub open spec fn best_unreachable() -> Seq<char> {
    "best/frontier requires Firefly (cloud via home-base); it is unreachable"@
}

/// The on-device route.
pub open spec fn on_device_route(i: RouteInputsView, degraded: bool) -> RouteView {
    RouteView {
        tier: Tier::OnDevice,
        endpoint: spec_resolve_endpoint(i.on_device_endpoint),
        model: i.on_device_model,
        use_token: false,
        degraded,
    }
}

/// The home-base route with the given logical model.
pub open spec fn home_base_route(i: RouteInputsView, model: Seq<char>) -> RouteView {
    RouteView {
        tier: Tier::HomeBase,
        endpoint: spec_resolve_endpoint(i.firefly_endpoint),
        model,
        use_token: true,
        degraded: false,
    }
}

/// The cloud route (through the home base) with the frontier model.
pub open spec fn cloud_route(i: RouteInputsView) -> RouteView {
    RouteView {
        tier: Tier::Cloud,
        endpoint: spec_resolve_endpoint(i.firefly_endpoint),
        model: i.model_frontier,
        use_token: true,
        degraded: false,
    }
}

/// The routing table.
pub open spec fn spec_resolve_route(task: TaskHint, i: RouteInputsView) -> Result<
    RouteView,
    RouteErrorView,
> {
    let kid = i.profile == Profile::Kid;
    match task {
        TaskHint::Private => Ok(on_device_route(i, false)),
        TaskHint::Quick => Ok(on_device_route(i, false)),
        TaskHint::CodeComplete => {
            if trim(i.on_device_endpoint).len() > 0 {
                Ok(on_device_route(i, false))
            } else if kid {
                Err(RouteErrorView::Refused(kid_refusal("code"@)))
            } else if i.firefly_reachable {
                Ok(home_base_route(i, i.model_code))
            } else {
                Err(RouteErrorView::NotConfigured(code_complete_unavailable()))
            }
        },
        TaskHint::Write | TaskHint::ExplainFile => {
            if i.firefly_reachable {
                if kid {
                    Err(RouteErrorView::Refused(kid_refusal("code"@)))
                } else {
                    Ok(home_base_route(i, i.model_code))
                }
            } else {
                Ok(on_device_route(i, true))
            }
        },
        TaskHint::Agentic => {
            if i.firefly_reachable {
                Ok(home_base_route(i, i.model_chat_heavy))
            } else {
                Ok(on_device_route(i, true))
            }
        },
        TaskHint::Best => {
            if kid {
                Err(RouteErrorView::Refused(kid_refusal("frontier"@)))
            } else if i.firefly_reachable {
                Ok(cloud_route(i))
            } else {
                Err(RouteErrorView::Refused(best_unreachable()))
            }
        },
    }
}

/// Normalize the configured endpoint into a base URL with a scheme.
pub fn resolve_endpoint(firefly_endpoint: &str) -> (r: String)
    ensures
        r@ == spec_resolve_endpoint(firefly_endpoint@),
{
    let e = trim_chars(chars_of(firefly_endpoint).as_slice());
    let http = chars_of("http://");
    let https = chars_of("https://");
    if starts_with_chars(e.as_slice(), http.as_slice()) || starts_with_chars(
        e.as_slice(),
        https.as_slice(),
    ) {
        string_of(e.as_slice())
    } else {
        let mut out = http;
        append_chars(&mut out, e.as_slice());
        string_of(out.as_slice())
    }
}

fn text_of(s: &str) -> (r: String)
    ensures
        r@ == s@,
{
    string_of(chars_of(s).as_slice())
}

fn kid_refused(what: &str) -> (r: RouteError)
    ensures
        r@ == RouteErrorView::Refused(kid_refusal(what@)),
{
    let mut m = chars_of(what);
    append_chars(&mut m, chars_of(" is not available for a kid profile; ask an adult").as_slice());
    RouteError::Refused(string_of(m.as_slice()))
}

fn on_device(i: &RouteInputs, degraded: bool) -> (r: Route)
    ensures
        r@ == on_device_route(i@, degraded),
{
    Route {
        tier: Tier::OnDevice,
        endpoint: resolve_endpoint(i.on_device_endpoint),
        model: text_of(i.on_device_model),
        use_token: false,
        degraded,
    }
}

fn home_base(i: &RouteInputs, model: &str) -> (r: Route)
    ensures
        r@ == home_base_route(i@, model@),
{
    Route {
        tier: Tier::HomeBase,
        endpoint: resolve_endpoint(i.firefly_endpoint),
        model: text_of(model),
        use_token: true,
        degraded: false,
    }
}

/// Map a task hint + settings + live reachability to a concrete route.
/// Pure: no I/O.
pub fn resolve_route(task: TaskHint, i: &RouteInputs) -> (r: Result<Route, RouteError>)
    ensures
        match r {
            Ok(route) => spec_resolve_route(task, i@) == Ok::<RouteView, RouteErrorView>(route@),
            Err(e) => spec_resolve_route(task, i@) == Err::<RouteView, RouteErrorView>(e@),
        },
{
    let is_kid = i.profile == Profile::Kid;
    match task {
        TaskHint::Private => Ok(on_device(i, false)),
        TaskHint::Quick => Ok(on_device(i, false)),
        TaskHint::CodeComplete => {
            let od = trim_chars(chars_of(i.on_device_endpoint).as_slice());
            if od.len() > 0 {
                Ok(on_device(i, false))
            } else if is_kid {
                Err(kid_refused("code"))
            } else if i.firefly_reachable {
                Ok(home_base(i, i.model_code))
            } else {
                Err(
                    RouteError::NotConfigured(
                        text_of(
                            "code-complete needs an on-device endpoint, and Firefly is unreachable",
                        ),
                    ),
                )
            }
        },
        TaskHint::Write | TaskHint::ExplainFile => {
            if i.firefly_reachable {
                if is_kid {
                    Err(kid_refused("code"))
                } else {
                    Ok(home_base(i, i.model_code))
                }
            } else {
                Ok(on_device(i, true))
            }
        },
        TaskHint::Agentic => {
            if i.firefly_reachable {
                Ok(home_base(i, i.model_chat_heavy))
            } else {
                Ok(on_device(i, true))
            }
        },
        TaskHint::Best => {
            if is_kid {
                Err(kid_refused("frontier"))
            } else if i.firefly_reachable {
                Ok(
                    Route {
                        tier: Tier::Cloud,
                        endpoint: resolve_endpoint(i.firefly_endpoint),
                        model: text_of(i.model_frontier),
                        use_token: true,
                        degraded: false,
                    },
                )
            } else {
                Err(
                    RouteError::Refused(
                        text_of(
                            "best/frontier requires Firefly (cloud via home-base); it is unreachable",
                        ),
                    ),
                )
            }
        },
    }
}

/// A `private` request is served on this device, without the user's key,
/// whatever the settings, the profile and the reachability of the home base.
pub proof fn law_private_stays_on_device(i: RouteInputsView)
    ensures
        spec_resolve_route(TaskHint::Private, i) matches Ok(r) && r.tier == Tier::OnDevice
            && !r.use_token && !r.degraded,
{
}

/// A `quick` request is always served on this device, whether or not the home
/// base is reachable.
pub proof fn law_quick_stays_on_device(i: RouteInputsView)
    ensures
        spec_resolve_route(TaskHint::Quick, i) matches Ok(r) && r.tier == Tier::OnDevice
            && !r.use_token && !r.degraded,
{
}

/// While the home base is unreachable, every route that is chosen is on this
/// device and carries no key.
pub proof fn law_unreachable_stays_on_device(task: TaskHint, i: RouteInputsView)
    requires
        !i.firefly_reachable,
    ensures
        spec_resolve_route(task, i) matches Ok(r) ==> r.tier == Tier::OnDevice && !r.use_token,
{
}

/// A kid profile never reaches the cloud tier, and on the home base it only
/// ever gets the general chat model (never the code or frontier model).
pub proof fn law_kid_gets_no_code_or_frontier(task: TaskHint, i: RouteInputsView)
    requires
        i.profile == Profile::Kid,
    ensures
        spec_resolve_route(task, i) matches Ok(r) ==> r.tier != Tier::Cloud && (r.tier
            == Tier::HomeBase ==> task == TaskHint::Agentic && r.model == i.model_chat_heavy),
{
}

/// The user's key goes with a request exactly when it leaves this device.
pub proof fn law_key_only_off_device(task: TaskHint, i: RouteInputsView)
    ensures
        spec_resolve_route(task, i) matches Ok(r) ==> (r.use_token <==> r.tier != Tier::OnDevice),
{
}

/// A degraded route is an on-device fallback taken because the home base is
/// unreachable.
pub proof fn law_degraded_is_offline_fallback(task: TaskHint, i: RouteInputsView)
    ensures
        spec_resolve_route(task, i) matches Ok(r) ==> (r.degraded ==> r.tier == Tier::OnDevice
            && !i.firefly_reachable),
{
}

/// `private`, `quick` and `agentic` requests always get a route.
pub proof fn law_always_routed(task: TaskHint, i: RouteInputsView)
    requires
        task == TaskHint::Private || task == TaskHint::Quick || task == TaskHint::Agentic,
    ensures
        spec_resolve_route(task, i) is Ok,
{
}

/// Writing and explaining a file are routed alike, and for an adult with the
/// home base reachable both are served on the home base with the code model
/// and the user's key.
pub proof fn law_write_and_explain_use_code_model(i: RouteInputsView)
    ensures
        spec_resolve_route(TaskHint::Write, i) == spec_resolve_route(TaskHint::ExplainFile, i),
        i.profile == Profile::Adult && i.firefly_reachable ==> (spec_resolve_route(
            TaskHint::ExplainFile,
            i,
        ) matches Ok(r) && r.tier == Tier::HomeBase && r.model == i.model_code
            && r.endpoint == spec_resolve_endpoint(i.firefly_endpoint) && r.use_token
            && !r.degraded),
{
}

/// Every route serves the model that its tier and task call for: on this
/// device the on-device model at the on-device endpoint; on the home base
/// the code model for code work and the heavy chat model for agentic work,
/// at the home-base endpoint; and the frontier model, through the home base,
/// only for `best`.
pub proof fn law_route_model_fits_task(task: TaskHint, i: RouteInputsView)
    ensures
        spec_resolve_route(task, i) matches Ok(r) ==> {
            &&& r.tier == Tier::OnDevice ==> r.model == i.on_device_model && r.endpoint
                == spec_resolve_endpoint(i.on_device_endpoint)
            &&& r.tier == Tier::HomeBase ==> r.endpoint == spec_resolve_endpoint(i.firefly_endpoint)
                && (task == TaskHint::Agentic ==> r.model == i.model_chat_heavy) && (task
                == TaskHint::CodeComplete || task == TaskHint::Write || task == TaskHint::ExplainFile
                ==> r.model == i.model_code) && task != TaskHint::Private && task != TaskHint::Quick
                && task != TaskHint::Best
            &&& r.tier == Tier::Cloud ==> task == TaskHint::Best && r.model == i.model_frontier
                && r.endpoint == spec_resolve_endpoint(i.firefly_endpoint)
        },
{
}

/// A normalized endpoint begins with `http://` or `https://`.
pub proof fn law_endpoint_has_scheme(e: Seq<char>)
    ensures
        has_prefix(spec_resolve_endpoint(e), "http://"@) || has_prefix(
            spec_resolve_endpoint(e),
            "https://"@,
        ),
{
    let t = trim(e);
    assert(("http://"@ + t).take("http://"@.len() as int) =~= "http://"@);
}

/// Every chosen route's endpoint begins with `http://` or `https://`.
pub proof fn law_route_endpoint_has_scheme(task: TaskHint, i: RouteInputsView)
    ensures
        spec_resolve_route(task, i) matches Ok(r) ==> has_prefix(r.endpoint, "http://"@)
            || has_prefix(r.endpoint, "https://"@),
{
    law_endpoint_has_scheme(i.on_device_endpoint);
    law_endpoint_has_scheme(i.firefly_endpoint);
}

/// Normalizing an endpoint twice gives what normalizing it once gives.
pub proof fn law_resolve_endpoint_idempotent(e: Seq<char>)
    ensures
        spec_resolve_endpoint(spec_resolve_endpoint(e)) == spec_resolve_endpoint(e),
{
    let t = trim(e);
    lemma_trim_shape(e);
    let r = spec_resolve_endpoint(e);
    if has_prefix(t, "http://"@) || has_prefix(t, "https://"@) {
        lemma_trim_fixed(t);
    } else {
        reveal_strlit("http://");
        assert(r[0] == 'h');
        if t.len() > 0 {
            assert(r.last() == t.last());
        } else {
            assert(r.last() == '/');
        }
        lemma_trim_fixed(r);
        assert(r.take("http://"@.len() as int) =~= "http://"@);
    }
}

#[verifier::external_type_specification]
#[verifier::external_body]
pub struct ExInstant(Instant);

/// What `Instant::duration_since(later, earlier)` returns for two instants.
pub uninterp spec fn instant_since(later: Instant, earlier: Instant) -> Duration;

/// What `Duration::as_nanos` returns for a duration.
pub uninterp spec fn nanos_of(d: Duration) -> u128;

/// `Instant::duration_since`: the time from `earlier` to `later`, zero when
/// `earlier` is the later of the two; it never panics. The result depends on
/// the two instants alone, and is named `instant_since`.
#[verifier::external_body]
fn duration_since(later: Instant, earlier: Instant) -> (r: Duration)
    ensures
        r == instant_since(later, earlier),
{
    later.duration_since(earlier)
}

/// `Duration::as_nanos`: the whole nanoseconds of `d`, named `nanos_of`.
#[verifier::external_body]
fn duration_nanos(d: Duration) -> (r: u128)
    ensures
        r == nanos_of(d),
{
    d.as_nanos()
}

/// Whether a result that is `elapsed_nanos` old is still within a time to
/// live of `ttl_nanos`.
pub fn within_ttl(elapsed_nanos: u128, ttl_nanos: u128) -> (r: bool)
    ensures
        r == (elapsed_nanos < ttl_nanos),
{
    elapsed_nanos < ttl_nanos
}

/// Is a cached reachability result, taken at `checked_at`, still within its
/// time to live at `now`? Never when nothing was checked yet; otherwise the
/// time since the check, in nanoseconds, is held against the time to live
/// (`within_ttl`).
pub fn is_fresh(checked_at: Option<Instant>, now: Instant, ttl: Duration) -> (r: bool)
    ensures
        checked_at is None ==> !r,
        checked_at matches Some(t) ==> r == (nanos_of(instant_since(now, t)) < nanos_of(ttl)),
{
    match checked_at {
        Some(t) => within_ttl(duration_nanos(duration_since(now, t)), duration_nanos(ttl)),
        None => false,
    }
}

} // verus!
