//! The router: an ordered table of routes, dispatch to the first route whose
//! method and pattern match a request, and the top-level request handler that
//! turns a dispatch into a response.
//!
//! Routes are tried in registration order and the first match wins — later
//! routes are never consulted, whatever their specificity. A request no route
//! matches gets the fixed not-found response and reaches no handler.

use vstd::prelude::*;
use crate::matcher::match_segments;
use crate::matcher::spec_literal_only;
use crate::matcher::spec_literal_texts;
use crate::matcher::spec_match_at;
use crate::matcher::lemma_literal_only_match;
use crate::pattern::Segment;
use crate::pattern::parse_pattern;
use crate::pattern::spec_path_segments;
use crate::pattern::spec_pattern_models;
use crate::pattern::spec_pattern_wf;
use crate::pattern::split_path;
use crate::response::FormValue;
use crate::response::FormValueModel;
use crate::response::RespModel;
use crate::response::Response;
use crate::response::bad_request_response;
use crate::response::form_field_response;
use crate::response::hello_response;
use crate::response::not_found_response;
use crate::response::spec_bad_request;
use crate::response::spec_form_field_response;
use crate::response::spec_not_found;
use crate::response::spec_ok;
use crate::response::spec_version_response;
use crate::response::version_response;
use crate::spec_greeting;

verus! {

/// The request methods the dispatcher distinguishes.
#[derive(Clone, Copy, Debug, PartialEq, Eq, Structural)]
pub enum Method {
    Get,
    Head,
    Post,
    Put,
    Delete,
    Connect,
    Options,
    Trace,
    Patch,
}

/// The handler a route dispatches to, one per route of this service: the
/// fixed greeting, the form-field extractor, the version report, and the
/// WebSocket upgrade.
#[derive(Clone, Copy, Debug, PartialEq, Eq, Structural)]
pub enum Handler {
    Hello,
    FormField,
    WorkerVersion,
    WebSocketEcho,
}

/// One registered route: a method, a parsed pattern, and the handler to
/// dispatch to. Immutable once registered.
pub struct Route {
    pub method: Method,
    pub pattern: Vec<Segment>,
    pub handler: Handler,
}

/// The ordered route table.
pub struct Router {
    pub routes: Vec<Route>,
}

/// Whether one route accepts a request: same method, matching pattern.
pub open spec fn route_matches(r: Route, method: Method, path: Seq<Seq<char>>) -> bool {
    r.method == method && spec_match_at(r.pattern.deep_view(), path) is Some
}

/// The position of the first route that accepts the request, or `None` when
/// none does.
pub open spec fn spec_first_match(routes: Seq<Route>, method: Method, path: Seq<Seq<char>>) -> Option<
    int,
>
    decreases routes.len(),
{
    if routes.len() == 0 {
        None
    } else if route_matches(routes[0], method, path) {
        Some(0)
    } else {
        match spec_first_match(routes.drop_first(), method, path) {
            Some(i) => Some(i + 1),
            None => None,
        }
    }
}

/// When no route accepts the request, there is no first match.
pub proof fn lemma_first_match_none(routes: Seq<Route>, method: Method, path: Seq<Seq<char>>)
    requires
        forall|j: int| 0 <= j < routes.len() ==> !route_matches(#[trigger] routes[j], method, path),
    ensures
        spec_first_match(routes, method, path) is None,
    decreases routes.len(),
{
    if routes.len() > 0 {
        assert forall|j: int| 0 <= j < routes.drop_first().len() implies !route_matches(
            #[trigger] routes.drop_first()[j],
            method,
            path,
        ) by {
            assert(routes.drop_first()[j] == routes[j + 1]);
        }
        lemma_first_match_none(routes.drop_first(), method, path);
    }
}

/// A route that accepts the request, with none accepting it earlier, is the
/// first match.
pub proof fn lemma_first_match_at(routes: Seq<Route>, method: Method, path: Seq<Seq<char>>, i: int)
    requires
        0 <= i < routes.len(),
        route_matches(routes[i], method, path),
        forall|j: int| 0 <= j < i ==> !route_matches(#[trigger] routes[j], method, path),
    ensures
        spec_first_match(routes, method, path) == Some(i),
    decreases i,
{
    if i > 0 {
        assert(!route_matches(routes[0], method, path));
        assert(routes.drop_first()[i - 1] == routes[i]);
        assert forall|j: int| 0 <= j < i - 1 implies !route_matches(
            #[trigger] routes.drop_first()[j],
            method,
            path,
        ) by {
            assert(routes.drop_first()[j] == routes[j + 1]);
        }
        lemma_first_match_at(routes.drop_first(), method, path, i - 1);
    }
}

/// Law: first match wins. Whenever some route accepts a request, the route
/// dispatched to stands at or before it in the table — so of two routes that
/// both accept the same request, the one registered earlier is taken,
/// independent of specificity.
pub proof fn lemma_first_match_wins(routes: Seq<Route>, method: Method, path: Seq<Seq<char>>, i: int)
    requires
        0 <= i < routes.len(),
        route_matches(routes[i], method, path),
    ensures
        match spec_first_match(routes, method, path) {
            Some(k) => 0 <= k <= i && route_matches(routes[k], method, path),
            None => false,
        },
    decreases routes.len(),
{
    if route_matches(routes[0], method, path) {
    } else {
        assert(routes.drop_first()[i - 1] == routes[i]);
        lemma_first_match_wins(routes.drop_first(), method, path, i - 1);
        match spec_first_match(routes.drop_first(), method, path) {
            Some(k) => {
                assert(routes.drop_first()[k] == routes[k + 1]);
            },
            None => {},
        }
    }
}

/// Law: a request whose method and path are exactly a literal-only route's
/// method and texts is dispatched to that route — and so to no other — as
/// long as no route registered earlier also accepts it, however large the
/// table is.
pub proof fn lemma_literal_route_dispatched(
    routes: Seq<Route>,
    method: Method,
    path: Seq<Seq<char>>,
    i: int,
)
    requires
        0 <= i < routes.len(),
        routes[i].method == method,
        spec_literal_only(routes[i].pattern.deep_view()),
        path == spec_literal_texts(routes[i].pattern.deep_view()),
        forall|j: int| 0 <= j < i ==> !route_matches(#[trigger] routes[j], method, path),
    ensures
        spec_first_match(routes, method, path) == Some(i),
{
    lemma_literal_only_match(routes[i].pattern.deep_view(), path);
    lemma_first_match_at(routes, method, path, i);
}

/// What a dispatch decides: the handler of the first matching route together
/// with the parameters its pattern bound, or that no route matched.
pub enum Dispatch {
    Matched { handler: Handler, params: Vec<(String, String)> },
    NotFound,
}

impl Router {
    /// An empty route table.
    pub fn new() -> (r: Router)
        ensures
            r.routes@.len() == 0,
    {
        Router { routes: Vec::new() }
    }

    /// Appends a route for the given method, pattern and handler. Refuses the
    /// pattern, leaving the table unchanged, exactly when the pattern is not
    /// well formed (an empty parameter or catch-all name, or a catch-all that
    /// is not the last segment).
    pub fn register(&mut self, method: Method, pattern: &str, handler: Handler) -> (ok: bool)
        ensures
            ok == spec_pattern_wf(spec_pattern_models(pattern@)),
            ok ==> {
                &&& final(self).routes@.len() == old(self).routes@.len() + 1
                &&& forall|i: int|
                    0 <= i < old(self).routes@.len() ==> final(self).routes@[i] == old(
                        self,
                    ).routes@[i]
                &&& final(self).routes@.last().method == method
                &&& final(self).routes@.last().handler == handler
                &&& final(self).routes@.last().pattern.deep_view() == spec_pattern_models(pattern@)
            },
            !ok ==> final(self).routes@ == old(self).routes@,
    {
        match parse_pattern(pattern) {
            Some(segs) => {
                self.routes.push(Route { method, pattern: segs, handler });
                true
            },
            None => false,
        }
    }

    /// Dispatches a request: tries the registered routes in order and stops
    /// at the first whose method equals the request's and whose pattern
    /// matches the request path, returning its handler and the parameters the
    /// pattern bound; with no such route, reports that none matched.
    pub fn dispatch(&self, method: Method, path: &str) -> (r: Dispatch)
        ensures
            match spec_first_match(self.routes@, method, spec_path_segments(path@)) {
                Some(k) => r matches Dispatch::Matched { handler, params } && handler
                    == self.routes@[k].handler && Some(params.deep_view()) == spec_match_at(
                    self.routes@[k].pattern.deep_view(),
                    spec_path_segments(path@),
                ),
                None => r is NotFound,
            },
    {
        let segs = split_path(path);
        let ghost sg = spec_path_segments(path@);
        let mut i: usize = 0;
        while i < self.routes.len()
            invariant
                i <= self.routes@.len(),
                sg == spec_path_segments(path@),
                segs.deep_view() == sg,
                forall|j: int|
                    0 <= j < i ==> !route_matches(#[trigger] self.routes@[j], method, sg),
            decreases self.routes@.len() - i,
        {
            let route = &self.routes[i];
            if route.method == method {
                match match_segments(&route.pattern, &segs) {
                    Some(params) => {
                        proof {
                            lemma_first_match_at(self.routes@, method, sg, i as int);
                        }
                        return Dispatch::Matched { handler: route.handler, params };
                    },
                    None => {},
                }
            }
            i = i + 1;
        }
        proof {
            lemma_first_match_none(self.routes@, method, sg);
        }
        Dispatch::NotFound
    }
}

/// What the service answers a request with: an HTTP response, or the upgrade
/// of the connection to a WebSocket, whose lifetime the relay then owns.
pub enum Outcome {
    Http(Response),
    Upgrade,
}

/// The mathematical model of an [`Outcome`].
pub enum OutcomeModel {
    Http(RespModel),
    Upgrade,
}

impl View for Outcome {
    type V = OutcomeModel;

    open spec fn view(&self) -> OutcomeModel {
        match self {
            Outcome::Http(resp) => OutcomeModel::Http(resp@),
            Outcome::Upgrade => OutcomeModel::Upgrade,
        }
    }
}

/// What a request is answered with, over the route table, the request's
/// method and path, the decoded form data (`None` when there was none or
/// decoding failed) and the configured version, both fetched by the host:
/// the not-found response when no route matches, and otherwise what the first
/// matching route's handler answers.
pub open spec fn spec_handle(
    routes: Seq<Route>,
    method: Method,
    path: Seq<char>,
    form: Option<Seq<(Seq<char>, FormValueModel)>>,
    version: Option<Seq<char>>,
) -> OutcomeModel {
    let segs = spec_path_segments(path);
    match spec_first_match(routes, method, segs) {
        None => OutcomeModel::Http(spec_not_found()),
        Some(k) => match spec_match_at(routes[k].pattern.deep_view(), segs) {
            None => OutcomeModel::Http(spec_not_found()),
            Some(params) => match routes[k].handler {
                Handler::Hello => OutcomeModel::Http(spec_ok(spec_greeting())),
                Handler::FormField => match form {
                    None => OutcomeModel::Http(spec_bad_request()),
                    Some(f) => OutcomeModel::Http(spec_form_field_response(params, f)),
                },
                Handler::WorkerVersion => OutcomeModel::Http(spec_version_response(version)),
                Handler::WebSocketEcho => OutcomeModel::Upgrade,
            },
        },
    }
}

/// Answers one request: dispatches it and runs the matched handler over the
/// values the host collaborators provided — the decoded form data and the
/// configured version.
pub fn handle_request(
    router: &Router,
    method: Method,
    path: &str,
    form: Option<&Vec<(String, FormValue)>>,
    version: Option<&String>,
) -> (r: Outcome)
    ensures
        r@ == spec_handle(router.routes@, method, path@, form.deep_view(), version.deep_view()),
{
    match router.dispatch(method, path) {
        Dispatch::NotFound => Outcome::Http(not_found_response()),
        Dispatch::Matched { handler, params } => match handler {
            Handler::Hello => Outcome::Http(hello_response()),
            Handler::FormField => match form {
                None => Outcome::Http(bad_request_response()),
                Some(f) => Outcome::Http(form_field_response(&params, f)),
            },
            Handler::WorkerVersion => Outcome::Http(version_response(version)),
            Handler::WebSocketEcho => Outcome::Upgrade,
        },
    }
}

/// Law: a request no route accepts is answered with the not-found response —
/// status 404 — and reaches no handler.
pub proof fn lemma_unmatched_not_found(
    routes: Seq<Route>,
    method: Method,
    path: Seq<char>,
    form: Option<Seq<(Seq<char>, FormValueModel)>>,
    version: Option<Seq<char>>,
)
    requires
        forall|j: int|
            0 <= j < routes.len() ==> !route_matches(
                #[trigger] routes[j],
                method,
                spec_path_segments(path),
            ),
    ensures
        spec_handle(routes, method, path, form, version) == OutcomeModel::Http(spec_not_found()),
{
    lemma_first_match_none(routes, method, spec_path_segments(path));
}

} // verus!
