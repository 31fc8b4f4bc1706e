//! CORS configuration: reading it from the environment's values, and the middleware
//! settings it calls for.

use vstd::prelude::*;
use crate::util::parse::parse_bool;
use crate::util::parse::parse_bool_spec;
use crate::util::parse::decimal_value;
use crate::util::parse::is_decimal_digits;
use crate::util::parse::parse_unsigned;
use crate::util::parse::parse_usize;
use crate::util::text::lemma_split_nonempty;
use crate::util::text::split_commas;
use crate::util::text::split_spec;
use crate::util::text::str_equals;
use crate::util::text::str_trim;
use crate::util::text::trim_spec;

verus! {

/// Either a single value or several values.
#[derive(Debug, Clone, PartialEq, Eq)]
pub enum OneOrMany {
    /// A single value (such as `"*"` or `"https://example.com"`).
    One(String),
    /// Several values.
    Many(Vec<String>),
}

/// The texts of a list of strings.
pub open spec fn texts(v: Seq<String>) -> Seq<Seq<char>> {
    v.map_values(|s: String| s@)
}

/// The abstract content of a [`OneOrMany`].
pub enum OneOrManyView {
    One(Seq<char>),
    Many(Seq<Seq<char>>),
}

impl View for OneOrMany {
    type V = OneOrManyView;

    open spec fn view(&self) -> OneOrManyView {
        match self {
            OneOrMany::One(s) => OneOrManyView::One(s@),
            OneOrMany::Many(v) => OneOrManyView::Many(texts(v@)),
        }
    }
}

/// The abstract content of an optional [`OneOrMany`].
pub open spec fn opt_view(o: Option<OneOrMany>) -> Option<OneOrManyView> {
    match o {
        Some(v) => Some(v@),
        None => None,
    }
}

/// Settings of the CORS middleware.
#[derive(Debug, Clone, PartialEq, Eq)]
pub struct CorsSettings {
    /// Allowed origins (or `*`).
    pub origins: Option<OneOrMany>,
    /// Allowed HTTP methods (or `*`).
    pub methods: Option<OneOrMany>,
    /// Allowed HTTP headers (or `*`).
    pub headers: Option<OneOrMany>,
    /// Exposed HTTP response headers (or `*`).
    pub expose_headers: Option<OneOrMany>,
    /// Whether user credentials (cookies, authorization headers) are allowed.
    pub credentials: bool,
    /// Whether the wildcard origin is sent in responses.
    pub send_wildcard: bool,
    /// How long, in seconds, preflight responses may be cached.
    pub max_age: Option<usize>,
    /// Whether requests from an origin that does not match are blocked.
    pub block_on_origin_mismatch: bool,
}

/// The environment variables that configure CORS, as found (absent when unset or not text).
#[derive(Debug, Clone)]
pub struct CorsEnv {
    /// `ENABLE_CORS`
    pub enable_cors: Option<String>,
    /// `CORS_ENABLED`, read when `ENABLE_CORS` is absent.
    pub cors_enabled: Option<String>,
    /// `CORS_ORIGINS`
    pub origins: Option<String>,
    /// `CORS_METHODS`
    pub methods: Option<String>,
    /// `CORS_HEADERS`
    pub headers: Option<String>,
    /// `CORS_EXPOSE_HEADERS`
    pub expose_headers: Option<String>,
    /// `CORS_CREDENTIALS`
    pub credentials: Option<String>,
    /// `CORS_SEND_WILDCARD`
    pub send_wildcard: Option<String>,
    /// `CORS_MAX_AGE`
    pub max_age: Option<String>,
    /// `CORS_BLOCK_ON_ORIGIN_MISMATCH`
    pub block_on_origin_mismatch: Option<String>,
}

/// The text of an optional string.
pub open spec fn opt_text(o: Option<String>) -> Option<Seq<char>> {
    match o {
        Some(s) => Some(s@),
        None => None,
    }
}

/// What a list variable holds: nothing when its trimmed text is empty, `One("*")` for a
/// lone `*`, otherwise the comma-separated values, each trimmed.
pub open spec fn list_setting_spec(s: Seq<char>) -> Option<OneOrManyView> {
    let t = trim_spec(s);
    if t.len() == 0 {
        None
    } else if t == "*"@ {
        Some(OneOrManyView::One(t))
    } else {
        Some(OneOrManyView::Many(split_spec(t, ',').map_values(|p: Seq<char>| trim_spec(p))))
    }
}

/// What an optional list variable holds.
pub open spec fn list_var(o: Option<String>) -> Option<OneOrManyView> {
    match o {
        Some(s) => list_setting_spec(s@),
        None => None,
    }
}

/// What a flag variable holds: set only by the text "true".
pub open spec fn flag_var(o: Option<String>) -> bool {
    match o {
        Some(s) => parse_bool_spec(s@) == Some(true),
        None => false,
    }
}

/// What the cache-age variable holds: its value when it spells a `usize`.
pub open spec fn max_age_var(o: Option<String>) -> Option<usize> {
    match o {
        Some(s) => match parse_unsigned(s@, usize::MAX as nat) {
            Some(v) => Some(v as usize),
            None => None,
        },
        None => None,
    }
}

/// Whether CORS is switched on or off explicitly: `ENABLE_CORS`, else `CORS_ENABLED`, when
/// it reads as a boolean.
pub open spec fn enable_var(env: CorsEnv) -> Option<bool> {
    let t = match env.enable_cors {
        Some(s) => Some(s),
        None => env.cors_enabled,
    };
    match t {
        Some(s) => parse_bool_spec(s@),
        None => None,
    }
}

/// Whether any CORS setting is given at all.
pub open spec fn any_cors_var(env: CorsEnv) -> bool {
    ||| list_var(env.origins) is Some
    ||| list_var(env.methods) is Some
    ||| list_var(env.headers) is Some
    ||| list_var(env.expose_headers) is Some
    ||| max_age_var(env.max_age) is Some
    ||| env.credentials is Some
    ||| env.send_wildcard is Some
    ||| env.block_on_origin_mismatch is Some
}

/// Whether the environment turns CORS on: as it says explicitly, or else whenever any
/// CORS setting is given.
pub open spec fn cors_enabled(env: CorsEnv) -> bool {
    match enable_var(env) {
        Some(b) => b,
        None => any_cors_var(env),
    }
}

/// The trimmed pieces of `t` between its commas, as strings.
fn trimmed_pieces(t: &str) -> (r: Vec<String>)
    ensures
        texts(r@) == split_spec(t@, ',').map_values(|p: Seq<char>| trim_spec(p)),
{
    let pieces = split_commas(t);
    let ghost want = split_spec(t@, ',').map_values(|p: Seq<char>| trim_spec(p));
    let mut r: Vec<String> = Vec::new();
    let mut i: usize = 0;
    while i < pieces.len()
        invariant
            0 <= i <= pieces@.len(),
            pieces@.len() == split_spec(t@, ',').len(),
            forall|j: int| 0 <= j < pieces@.len() ==> (#[trigger] pieces@[j])@ == split_spec(t@, ',')[j],
            want == split_spec(t@, ',').map_values(|p: Seq<char>| trim_spec(p)),
            texts(r@) == want.take(i as int),
        decreases pieces@.len() - i,
    {
        let piece = str_trim(pieces[i]).to_owned();
        assert(piece@ == want[i as int]);
        let ghost before = r@;
        r.push(piece);
        assert(texts(r@) =~= texts(before).push(piece@));
        i = i + 1;
        assert(texts(r@) =~= want.take(i as int));
    }
    assert(want.take(want.len() as int) =~= want);
    r
}

/// Reads a list variable, as `list_setting_spec` describes.
pub fn list_setting(s: &str) -> (r: Option<OneOrMany>)
    ensures
        opt_view(r) == list_setting_spec(s@),
{
    let t = str_trim(s);
    if t.is_empty() {
        None
    } else if str_equals(t, "*") {
        Some(OneOrMany::One(t.to_owned()))
    } else {
        proof {
            lemma_split_nonempty(t@, ',');
        }
        Some(OneOrMany::Many(trimmed_pieces(t)))
    }
}

fn list_var_exec(o: &Option<String>) -> (r: Option<OneOrMany>)
    ensures
        opt_view(r) == list_var(*o),
{
    match o {
        Some(s) => list_setting(s.as_str()),
        None => None,
    }
}

fn flag_var_exec(o: &Option<String>) -> (r: bool)
    ensures
        r == flag_var(*o),
{
    match o {
        Some(s) => match parse_bool(s.as_str()) {
            Some(b) => b,
            None => false,
        },
        None => false,
    }
}

impl CorsSettings {
    /// The CORS settings that the environment's values call for; `None` when CORS is off:
    /// switched off explicitly, or given no setting at all.
    pub fn from_values(env: &CorsEnv) -> (r: Option<CorsSettings>)
        ensures
            !cors_enabled(*env) ==> r is None,
            cors_enabled(*env) ==> (r matches Some(cs) && {
                &&& opt_view(cs.origins) == list_var(env.origins)
                &&& opt_view(cs.methods) == list_var(env.methods)
                &&& opt_view(cs.headers) == list_var(env.headers)
                &&& opt_view(cs.expose_headers) == list_var(env.expose_headers)
                &&& cs.credentials == flag_var(env.credentials)
                &&& cs.send_wildcard == flag_var(env.send_wildcard)
                &&& cs.max_age == max_age_var(env.max_age)
                &&& cs.block_on_origin_mismatch == flag_var(env.block_on_origin_mismatch)
            }),
    {
        let enable_text = match &env.enable_cors {
            Some(s) => Some(s),
            None => env.cors_enabled.as_ref(),
        };
        let enable: Option<bool> = match enable_text {
            Some(s) => parse_bool(s.as_str()),
            None => None,
        };
        let origins = list_var_exec(&env.origins);
        let methods = list_var_exec(&env.methods);
        let headers = list_var_exec(&env.headers);
        let expose_headers = list_var_exec(&env.expose_headers);
        let credentials = flag_var_exec(&env.credentials);
        let send_wildcard = flag_var_exec(&env.send_wildcard);
        let max_age: Option<usize> = match &env.max_age {
            Some(s) => parse_usize(s.as_str()),
            None => None,
        };
        let block_on_origin_mismatch = flag_var_exec(&env.block_on_origin_mismatch);
        let has_any_cors_config = origins.is_some() || methods.is_some() || headers.is_some()
            || expose_headers.is_some() || max_age.is_some() || env.credentials.is_some()
            || env.send_wildcard.is_some() || env.block_on_origin_mismatch.is_some();
        let is_enabled = match enable {
            Some(b) => b,
            None => has_any_cors_config,
        };
        if !is_enabled {
            return None;
        }
        Some(
            CorsSettings {
                origins,
                methods,
                headers,
                expose_headers,
                credentials,
                send_wildcard,
                max_age,
                block_on_origin_mismatch,
            },
        )
    }
}

/// One setting step of the CORS middleware.
#[derive(Debug, Clone, PartialEq, Eq)]
pub enum CorsDirective {
    AllowAnyOrigin,
    AllowedOrigin(String),
    AllowAnyMethod,
    AllowedMethods(Vec<String>),
    AllowAnyHeader,
    AllowedHeader(String),
    AllowedHeaders(Vec<String>),
    ExposeAnyHeader,
    ExposeHeaders(Vec<String>),
    SupportsCredentials,
    SendWildcard,
    MaxAge(usize),
    BlockOnOriginMismatch(bool),
}

/// The abstract content of a [`CorsDirective`].
pub enum CorsDirectiveView {
    AllowAnyOrigin,
    AllowedOrigin(Seq<char>),
    AllowAnyMethod,
    AllowedMethods(Seq<Seq<char>>),
    AllowAnyHeader,
    AllowedHeader(Seq<char>),
    AllowedHeaders(Seq<Seq<char>>),
    ExposeAnyHeader,
    ExposeHeaders(Seq<Seq<char>>),
    SupportsCredentials,
    SendWildcard,
    MaxAge(usize),
    BlockOnOriginMismatch(bool),
}

impl View for CorsDirective {
    type V = CorsDirectiveView;

    open spec fn view(&self) -> CorsDirectiveView {
        match self {
            CorsDirective::AllowAnyOrigin => CorsDirectiveView::AllowAnyOrigin,
            CorsDirective::AllowedOrigin(s) => CorsDirectiveView::AllowedOrigin(s@),
            CorsDirective::AllowAnyMethod => CorsDirectiveView::AllowAnyMethod,
            CorsDirective::AllowedMethods(v) => CorsDirectiveView::AllowedMethods(texts(v@)),
            CorsDirective::AllowAnyHeader => CorsDirectiveView::AllowAnyHeader,
            CorsDirective::AllowedHeader(s) => CorsDirectiveView::AllowedHeader(s@),
            CorsDirective::AllowedHeaders(v) => CorsDirectiveView::AllowedHeaders(texts(v@)),
            CorsDirective::ExposeAnyHeader => CorsDirectiveView::ExposeAnyHeader,
            CorsDirective::ExposeHeaders(v) => CorsDirectiveView::ExposeHeaders(texts(v@)),
            CorsDirective::SupportsCredentials => CorsDirectiveView::SupportsCredentials,
            CorsDirective::SendWildcard => CorsDirectiveView::SendWildcard,
            CorsDirective::MaxAge(a) => CorsDirectiveView::MaxAge(*a),
            CorsDirective::BlockOnOriginMismatch(b) => CorsDirectiveView::BlockOnOriginMismatch(*b),
        }
    }
}

/// The abstract contents of a list of directives.
pub open spec fn directive_views(v: Seq<CorsDirective>) -> Seq<CorsDirectiveView> {
    v.map_values(|d: CorsDirective| d@)
}

/// The steps for the allowed origins: any origin for `*`, else each origin given.
pub open spec fn origin_steps(o: Option<OneOrManyView>) -> Seq<CorsDirectiveView> {
    match o {
        None => Seq::empty(),
        Some(OneOrManyView::One(x)) => if x == "*"@ {
            seq![CorsDirectiveView::AllowAnyOrigin]
        } else {
            seq![CorsDirectiveView::AllowedOrigin(x)]
        },
        Some(OneOrManyView::Many(xs)) => xs.map_values(|x: Seq<char>| CorsDirectiveView::AllowedOrigin(x)),
    }
}

/// The step for the allowed methods: any method for `*`, else the methods given.
pub open spec fn method_steps(o: Option<OneOrManyView>) -> Seq<CorsDirectiveView> {
    match o {
        None => Seq::empty(),
        Some(OneOrManyView::One(x)) => if x == "*"@ {
            seq![CorsDirectiveView::AllowAnyMethod]
        } else {
            seq![CorsDirectiveView::AllowedMethods(seq![x])]
        },
        Some(OneOrManyView::Many(xs)) => seq![CorsDirectiveView::AllowedMethods(xs)],
    }
}

/// The step for the allowed headers: any header for `*`, else the headers given.
pub open spec fn header_steps(o: Option<OneOrManyView>) -> Seq<CorsDirectiveView> {
    match o {
        None => Seq::empty(),
        Some(OneOrManyView::One(x)) => if x == "*"@ {
            seq![CorsDirectiveView::AllowAnyHeader]
        } else {
            seq![CorsDirectiveView::AllowedHeader(x)]
        },
        Some(OneOrManyView::Many(xs)) => seq![CorsDirectiveView::AllowedHeaders(xs)],
    }
}

/// The step for the exposed headers: any header for `*`, else the headers given.
pub open spec fn expose_steps(o: Option<OneOrManyView>) -> Seq<CorsDirectiveView> {
    match o {
        None => Seq::empty(),
        Some(OneOrManyView::One(x)) => if x == "*"@ {
            seq![CorsDirectiveView::ExposeAnyHeader]
        } else {
            seq![CorsDirectiveView::ExposeHeaders(seq![x])]
        },
        Some(OneOrManyView::Many(xs)) => seq![CorsDirectiveView::ExposeHeaders(xs)],
    }
}

/// All steps that configure the middleware for `cs`, in order: origins, methods, headers,
/// exposed headers, credentials, wildcard, cache age, and last the origin-mismatch policy.
pub open spec fn cors_steps(cs: CorsSettings) -> Seq<CorsDirectiveView> {
    origin_steps(opt_view(cs.origins)) + method_steps(opt_view(cs.methods)) + header_steps(
        opt_view(cs.headers),
    ) + expose_steps(opt_view(cs.expose_headers)) + (if cs.credentials {
        seq![CorsDirectiveView::SupportsCredentials]
    } else {
        Seq::empty()
    }) + (if cs.send_wildcard {
        seq![CorsDirectiveView::SendWildcard]
    } else {
        Seq::empty()
    }) + (match cs.max_age {
        Some(a) => seq![CorsDirectiveView::MaxAge(a)],
        None => Seq::empty(),
    }) + seq![CorsDirectiveView::BlockOnOriginMismatch(cs.block_on_origin_mismatch)]
}

/// A copy of a list of strings.
fn copy_strings(v: &Vec<String>) -> (r: Vec<String>)
    ensures
        texts(r@) == texts(v@),
{
    let mut r: Vec<String> = Vec::new();
    let mut i: usize = 0;
    while i < v.len()
        invariant
            0 <= i <= v@.len(),
            texts(r@) == texts(v@).take(i as int),
        decreases v@.len() - i,
    {
        let s = v[i].clone();
        let ghost before = r@;
        r.push(s);
        i = i + 1;
        assert(texts(r@) =~= texts(before).push(s@));
        assert(texts(r@) =~= texts(v@).take(i as int));
    }
    assert(texts(v@).take(v@.len() as int) =~= texts(v@));
    r
}

/// A list holding one string.
fn single(s: &String) -> (r: Vec<String>)
    ensures
        texts(r@) == seq![s@],
{
    let mut r: Vec<String> = Vec::new();
    r.push(s.clone());
    assert(texts(r@) =~= seq![s@]);
    r
}

/// Appends `d` to `out`.
fn push_step(out: &mut Vec<CorsDirective>, d: CorsDirective)
    ensures
        directive_views(final(out)@) == directive_views(old(out)@).push(d@),
{
    out.push(d);
    assert(directive_views(out@) =~= directive_views(old(out)@).push(d@));
}

/// Appends the steps for the allowed origins.
fn push_origin_steps(out: &mut Vec<CorsDirective>, o: &Option<OneOrMany>)
    ensures
        directive_views(final(out)@) == directive_views(old(out)@) + origin_steps(opt_view(*o)),
{
    match o {
        None => {
            assert(directive_views(out@) =~= directive_views(old(out)@) + Seq::empty());
        },
        Some(OneOrMany::One(origin)) => {
            if str_equals(origin.as_str(), "*") {
                push_step(out, CorsDirective::AllowAnyOrigin);
            } else {
                push_step(out, CorsDirective::AllowedOrigin(origin.clone()));
            }
        },
        Some(OneOrMany::Many(origins)) => {
            let ghost start = directive_views(out@);
            let mut i: usize = 0;
            while i < origins.len()
                invariant
                    0 <= i <= origins@.len(),
                    directive_views(out@) == start + texts(origins@).take(i as int).map_values(
                        |x: Seq<char>| CorsDirectiveView::AllowedOrigin(x),
                    ),
                decreases origins@.len() - i,
            {
                push_step(out, CorsDirective::AllowedOrigin(origins[i].clone()));
                i = i + 1;
                assert(directive_views(out@) =~= start + texts(origins@).take(i as int).map_values(
                    |x: Seq<char>| CorsDirectiveView::AllowedOrigin(x),
                ));
            }
            assert(texts(origins@).take(origins@.len() as int) =~= texts(origins@));
        },
    }
}

/// Appends the step for the allowed methods.
fn push_method_steps(out: &mut Vec<CorsDirective>, o: &Option<OneOrMany>)
    ensures
        directive_views(final(out)@) == directive_views(old(out)@) + method_steps(opt_view(*o)),
{
    match o {
        None => {
            assert(directive_views(out@) =~= directive_views(old(out)@) + Seq::empty());
        },
        Some(OneOrMany::One(method)) => {
            if str_equals(method.as_str(), "*") {
                push_step(out, CorsDirective::AllowAnyMethod);
            } else {
                push_step(out, CorsDirective::AllowedMethods(single(method)));
            }
        },
        Some(OneOrMany::Many(methods)) => {
            push_step(out, CorsDirective::AllowedMethods(copy_strings(methods)));
        },
    }
}

/// Appends the step for the allowed headers.
fn push_header_steps(out: &mut Vec<CorsDirective>, o: &Option<OneOrMany>)
    ensures
        directive_views(final(out)@) == directive_views(old(out)@) + header_steps(opt_view(*o)),
{
    match o {
        None => {
            assert(directive_views(out@) =~= directive_views(old(out)@) + Seq::empty());
        },
        Some(OneOrMany::One(header)) => {
            if str_equals(header.as_str(), "*") {
                push_step(out, CorsDirective::AllowAnyHeader);
            } else {
                push_step(out, CorsDirective::AllowedHeader(header.clone()));
            }
        },
        Some(OneOrMany::Many(headers)) => {
            push_step(out, CorsDirective::AllowedHeaders(copy_strings(headers)));
        },
    }
}

/// Appends the step for the exposed headers.
fn push_expose_steps(out: &mut Vec<CorsDirective>, o: &Option<OneOrMany>)
    ensures
        directive_views(final(out)@) == directive_views(old(out)@) + expose_steps(opt_view(*o)),
{
    match o {
        None => {
            assert(directive_views(out@) =~= directive_views(old(out)@) + Seq::empty());
        },
        Some(OneOrMany::One(header)) => {
            if str_equals(header.as_str(), "*") {
                push_step(out, CorsDirective::ExposeAnyHeader);
            } else {
                push_step(out, CorsDirective::ExposeHeaders(single(header)));
            }
        },
        Some(OneOrMany::Many(headers)) => {
            push_step(out, CorsDirective::ExposeHeaders(copy_strings(headers)));
        },
    }
}

/// The steps that configure the CORS middleware for `settings`, as `cors_steps` lists them.
pub fn cors_directives(settings: &CorsSettings) -> (r: Vec<CorsDirective>)
    ensures
        directive_views(r@) == cors_steps(*settings),
{
    let mut out: Vec<CorsDirective> = Vec::new();
    assert(directive_views(out@) =~= Seq::empty());
    push_origin_steps(&mut out, &settings.origins);
    push_method_steps(&mut out, &settings.methods);
    push_header_steps(&mut out, &settings.headers);
    push_expose_steps(&mut out, &settings.expose_headers);
    let ghost mid = directive_views(out@);
    if settings.credentials {
        push_step(&mut out, CorsDirective::SupportsCredentials);
    }
    let ghost after_credentials = directive_views(out@);
    assert(after_credentials =~= mid + (if settings.credentials {
        seq![CorsDirectiveView::SupportsCredentials]
    } else {
        Seq::empty()
    }));
    if settings.send_wildcard {
        push_step(&mut out, CorsDirective::SendWildcard);
    }
    let ghost after_wildcard = directive_views(out@);
    assert(after_wildcard =~= after_credentials + (if settings.send_wildcard {
        seq![CorsDirectiveView::SendWildcard]
    } else {
        Seq::empty()
    }));
    match settings.max_age {
        Some(a) => push_step(&mut out, CorsDirective::MaxAge(a)),
        None => {},
    }
    let ghost after_age = directive_views(out@);
    assert(after_age =~= after_wildcard + (match settings.max_age {
        Some(a) => seq![CorsDirectiveView::MaxAge(a)],
        None => Seq::empty(),
    }));
    push_step(&mut out, CorsDirective::BlockOnOriginMismatch(settings.block_on_origin_mismatch));
    assert(directive_views(out@) =~= cors_steps(*settings));
    out
}

/// Every cache age that a `usize` can hold is taken as written: decimal digits, with or
/// without a leading `+`, set the age to their value when it is at most the largest
/// `usize`, and to nothing when it is larger.
pub proof fn lemma_cache_age_reads_every_usize(s: String, d: Seq<char>)
    requires
        is_decimal_digits(d),
        s@ == d || s@ == seq!['+'] + d,
    ensures
        decimal_value(d) <= usize::MAX ==> max_age_var(Some(s)) == Some(decimal_value(d) as usize),
        decimal_value(d) > usize::MAX ==> max_age_var(Some(s)) is None,
{
    if s@ == seq!['+'] + d {
        assert(s@.drop_first() =~= d);
    } else {
        assert('0' <= d[0] <= '9');
    }
}

/// An item of either part of a concatenation is an item of the whole.
proof fn lemma_concat_contains<A>(a: Seq<A>, b: Seq<A>, x: A)
    ensures
        a.contains(x) ==> (a + b).contains(x),
        b.contains(x) ==> (a + b).contains(x),
{
    if a.contains(x) {
        let i = choose|i: int| 0 <= i < a.len() && a[i] == x;
        assert((a + b)[i] == x);
    }
    if b.contains(x) {
        let i = choose|i: int| 0 <= i < b.len() && b[i] == x;
        assert((a + b)[a.len() + i] == x);
    }
}

/// Every setting reaches the middleware: each listed origin is allowed on its own; the
/// listed methods, headers and exposed headers are passed on whole, every one of them and
/// in the order given (`*` allows any); credentials, the wildcard and the cache age are set
/// when asked for; and the origin-mismatch policy is the last step.
pub proof fn lemma_every_setting_is_applied(cs: CorsSettings)
    ensures
        ({
            let steps = cors_steps(cs);
            &&& (opt_view(cs.origins) matches Some(OneOrManyView::Many(xs)) ==> forall|i: int|
                0 <= i < xs.len() ==> steps.contains(
                    CorsDirectiveView::AllowedOrigin(#[trigger] xs[i]),
                ))
            &&& (opt_view(cs.origins) matches Some(OneOrManyView::One(x)) ==> steps.contains(
                if x == "*"@ {
                    CorsDirectiveView::AllowAnyOrigin
                } else {
                    CorsDirectiveView::AllowedOrigin(x)
                },
            ))
            &&& (opt_view(cs.methods) matches Some(OneOrManyView::Many(xs)) ==> steps.contains(
                CorsDirectiveView::AllowedMethods(xs),
            ))
            &&& (opt_view(cs.methods) matches Some(OneOrManyView::One(x)) ==> steps.contains(
                if x == "*"@ {
                    CorsDirectiveView::AllowAnyMethod
                } else {
                    CorsDirectiveView::AllowedMethods(seq![x])
                },
            ))
            &&& (opt_view(cs.headers) matches Some(OneOrManyView::Many(xs)) ==> steps.contains(
                CorsDirectiveView::AllowedHeaders(xs),
            ))
            &&& (opt_view(cs.headers) matches Some(OneOrManyView::One(x)) ==> steps.contains(
                if x == "*"@ {
                    CorsDirectiveView::AllowAnyHeader
                } else {
                    CorsDirectiveView::AllowedHeader(x)
                },
            ))
            &&& (opt_view(cs.expose_headers) matches Some(OneOrManyView::Many(xs))
                ==> steps.contains(CorsDirectiveView::ExposeHeaders(xs)))
            &&& (opt_view(cs.expose_headers) matches Some(OneOrManyView::One(x))
                ==> steps.contains(
                if x == "*"@ {
                    CorsDirectiveView::ExposeAnyHeader
                } else {
                    CorsDirectiveView::ExposeHeaders(seq![x])
                },
            ))
            &&& (cs.credentials ==> steps.contains(CorsDirectiveView::SupportsCredentials))
            &&& (cs.send_wildcard ==> steps.contains(CorsDirectiveView::SendWildcard))
            &&& (cs.max_age matches Some(a) ==> steps.contains(CorsDirectiveView::MaxAge(a)))
            &&& steps.len() > 0
            &&& steps.last() == CorsDirectiveView::BlockOnOriginMismatch(
                cs.block_on_origin_mismatch,
            )
        }),
{
    let p1 = origin_steps(opt_view(cs.origins));
    let p2 = method_steps(opt_view(cs.methods));
    let p3 = header_steps(opt_view(cs.headers));
    let p4 = expose_steps(opt_view(cs.expose_headers));
    let p5 = if cs.credentials {
        seq![CorsDirectiveView::SupportsCredentials]
    } else {
        Seq::empty()
    };
    let p6 = if cs.send_wildcard {
        seq![CorsDirectiveView::SendWildcard]
    } else {
        Seq::empty()
    };
    let p7 = match cs.max_age {
        Some(a) => seq![CorsDirectiveView::MaxAge(a)],
        None => Seq::empty(),
    };
    let p8 = seq![CorsDirectiveView::BlockOnOriginMismatch(cs.block_on_origin_mismatch)];
    let s2 = p1 + p2;
    let s3 = s2 + p3;
    let s4 = s3 + p4;
    let s5 = s4 + p5;
    let s6 = s5 + p6;
    let s7 = s6 + p7;
    let steps = s7 + p8;
    assert(steps == cors_steps(cs));
    assert forall|x: CorsDirectiveView|
        p1.contains(x) || p2.contains(x) || p3.contains(x) || p4.contains(x) || p5.contains(x)
            || p6.contains(x) || p7.contains(x) implies #[trigger] steps.contains(x) by {
        lemma_concat_contains(p1, p2, x);
        lemma_concat_contains(s2, p3, x);
        lemma_concat_contains(s3, p4, x);
        lemma_concat_contains(s4, p5, x);
        lemma_concat_contains(s5, p6, x);
        lemma_concat_contains(s6, p7, x);
        lemma_concat_contains(s7, p8, x);
    }
    if let Some(OneOrManyView::Many(xs)) = opt_view(cs.origins) {
        assert forall|i: int| 0 <= i < xs.len() implies steps.contains(
            CorsDirectiveView::AllowedOrigin(#[trigger] xs[i]),
        ) by {
            assert(p1[i] == CorsDirectiveView::AllowedOrigin(xs[i]));
            assert(p1.contains(CorsDirectiveView::AllowedOrigin(xs[i])));
        }
    }
    if p2.len() > 0 {
        assert(p2.contains(p2[0]));
    }
    if p3.len() > 0 {
        assert(p3.contains(p3[0]));
    }
    if p4.len() > 0 {
        assert(p4.contains(p4[0]));
    }
    if p1.len() > 0 {
        assert(p1.contains(p1[0]));
    }
    if p5.len() > 0 {
        assert(p5.contains(p5[0]));
    }
    if p6.len() > 0 {
        assert(p6.contains(p6[0]));
    }
    if p7.len() > 0 {
        assert(p7.contains(p7[0]));
    }
}

} // verus!
