//! The server's routes and the texts it answers with.
use vstd::prelude::*;

use crate::text;

verus! {

/// The verb of a request.
#[derive(Clone, Copy, Debug, PartialEq, Eq, Structural)]
pub enum Verb {
    /// GET, or HEAD, which is taken as GET.
    Get,
    Post,
    /// Any other verb.
    Other,
}

/// A route of the server.
#[derive(Clone, Copy, Debug, PartialEq, Eq, Structural)]
pub enum Route {
    /// Loads the configuration file again.
    ReloadConfig,
    /// Refreshes the session of a device.
    RefreshSession,
    /// Lists the devices.
    Devices,
    /// The actions on devices, each under this prefix.
    Actions,
    /// Opens a session.
    Login,
    /// Lists the actions.
    ActionList,
}

impl Route {
    /// The route's path, or the prefix of its paths.
    pub open spec fn at(self) -> Seq<char> {
        match self {
            Route::ReloadConfig => "/reload-config"@,
            Route::RefreshSession => "/refresh-session"@,
            Route::Devices => "/devices"@,
            Route::Actions => "/actions"@,
            Route::Login => "/login"@,
            Route::ActionList => "/actions"@,
        }
    }

    /// The verb of the requests that the route takes; none where it takes any.
    pub open spec fn takes(self) -> Option<Verb> {
        match self {
            Route::ReloadConfig => Some(Verb::Post),
            Route::RefreshSession => Some(Verb::Get),
            Route::Devices => Some(Verb::Get),
            Route::Actions => None,
            Route::Login => Some(Verb::Post),
            Route::ActionList => Some(Verb::Get),
        }
    }

    /// Whether a request with the given verb and path is for the route. The actions take the paths
    /// below their prefix, and every other route takes its own path.
    pub open spec fn serves(self, verb: Verb, path: Seq<char>) -> bool {
        &&& self.takes() is Some ==> verb == self.takes()->0
        &&& if self == Route::Actions {
            (self.at() + "/"@).is_prefix_of(path)
        } else {
            path == self.at()
        }
    }

    /// Whether the route is for authenticated clients only.
    pub open spec fn needs_session(self) -> bool {
        self != Route::Login && self != Route::ActionList
    }

    /// The route's path, or the prefix of its paths.
    pub fn path(&self) -> (r: &'static str)
        ensures
            r@ == self.at(),
    {
        match self {
            Route::ReloadConfig => "/reload-config",
            Route::RefreshSession => "/refresh-session",
            Route::Devices => "/devices",
            Route::Actions => "/actions",
            Route::Login => "/login",
            Route::ActionList => "/actions",
        }
    }

    /// The verb of the requests that the route takes. Each action has its own.
    pub fn verb(&self) -> (r: Option<Verb>)
        ensures
            r == self.takes(),
    {
        match self {
            Route::ReloadConfig => Some(Verb::Post),
            Route::RefreshSession => Some(Verb::Get),
            Route::Devices => Some(Verb::Get),
            Route::Actions => None,
            Route::Login => Some(Verb::Post),
            Route::ActionList => Some(Verb::Get),
        }
    }

    /// Whether the route is for authenticated clients only. All are but the login and the list of
    /// actions.
    pub fn is_protected(&self) -> (r: bool)
        ensures
            r == self.needs_session(),
    {
        match self {
            Route::ReloadConfig => true,
            Route::RefreshSession => true,
            Route::Devices => true,
            Route::Actions => true,
            Route::Login => false,
            Route::ActionList => false,
        }
    }
}

/// What becomes of a request for a route.
#[derive(Clone, Copy, Debug, PartialEq, Eq, Structural)]
pub enum Admission {
    /// It reaches the route's handler.
    Handle,
    /// It is refused.
    Refuse,
}

impl Route {
    /// What becomes of a request for the route, by whether it is authenticated.
    pub open spec fn admission(self, authenticated: bool) -> Admission {
        if self.needs_session() && !authenticated {
            Admission::Refuse
        } else {
            Admission::Handle
        }
    }

    /// Decides whether a request for the route reaches its handler. A protected route lets
    /// authenticated requests through only.
    pub fn decide(&self, authenticated: bool) -> (r: Admission)
        ensures
            r == self.admission(authenticated),
    {
        if self.is_protected() && !authenticated {
            Admission::Refuse
        } else {
            Admission::Handle
        }
    }
}

/// No request is for two routes, so none is for an open route and a protected one.
pub proof fn request_has_one_route(a: Route, b: Route, verb: Verb, path: Seq<char>)
    requires
        a.serves(verb, path),
        b.serves(verb, path),
    ensures
        a == b,
        a.needs_session() == b.needs_session(),
{
    reveal_strlit("/reload-config");
    reveal_strlit("/refresh-session");
    reveal_strlit("/devices");
    reveal_strlit("/actions");
    reveal_strlit("/login");
    reveal_strlit("/");
    if a == Route::Actions || b == Route::Actions {
        let below = "/actions"@ + "/"@;
        let start = path.subrange(0, below.len() as int);
        assert(start == below);
        assert(path[1] == start[1] && path[8] == start[8]);
    } else if a != b {
        assert(a.at() == b.at());
        assert(a.at().len() == b.at().len());
        assert(a.at()[1] == b.at()[1]);
        assert(a.at()[3] == b.at()[3]);
    }
}

/// A request reaches the handler of its route without a session exactly if it is `POST /login` or
/// `GET /actions`; every other one has to be authenticated, and then reaches it.
pub proof fn only_login_and_list_are_open(
    route: Route,
    verb: Verb,
    path: Seq<char>,
    authenticated: bool,
)
    requires
        route.serves(verb, path),
    ensures
        route.admission(authenticated) == Admission::Handle <==> (authenticated || (verb
            == Verb::Post && path == "/login"@) || (verb == Verb::Get && path == "/actions"@)),
{
    if verb == Verb::Post && path == "/login"@ {
        assert(Route::Login.serves(verb, path));
        request_has_one_route(route, Route::Login, verb, path);
    }
    if verb == Verb::Get && path == "/actions"@ {
        assert(Route::ActionList.serves(verb, path));
        request_has_one_route(route, Route::ActionList, verb, path);
    }
}

/// The address to serve on: the given port on every interface.
pub fn listen_address(port: u16) -> (r: String)
    ensures
        r@ == "0.0.0.0:"@ + text::decimal(port as nat),
{
    let mut r: String = "0.0.0.0:".to_owned();
    r.append(text::to_decimal(port as u64).as_str());
    r
}

/// The list of actions: their URIs, one per line.
pub fn action_list(uris: &Vec<String>) -> (r: String)
    ensures
        r@ == text::joined(text::texts(uris@), "\n"@),
{
    text::join(uris, "\n")
}

/// The answer to a request to load the configuration again.
pub fn reload_config(outcome: &Result<(), String>) -> (r: String)
    ensures
        r@ == (match *outcome {
            Ok(_) => "OK"@,
            Err(error) => "Error: "@ + error@,
        }),
{
    match outcome {
        Ok(_) => "OK".to_owned(),
        Err(error) => {
            let mut r: String = "Error: ".to_owned();
            r.append(error.as_str());
            r
        },
    }
}

} // verus!
