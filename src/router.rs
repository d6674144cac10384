//! The fixed routing table, and the lookup from a request to what it serves.
use vstd::prelude::*;
use vstd::slice::slice_to_vec;
use vstd::string::StringSliceAdditionalSpecFns;
use crate::request::RequestLine;
use crate::text::{bytes_eq, bytes_of, push_str};

verus! {

/// Path of the asset served for paths that no route matches.
pub open spec fn not_found_asset() -> Seq<u8> {
    "static/html/404.html".spec_bytes()
}

/// Path of the home page asset, stored gzip-compressed.
pub open spec fn home_asset() -> Seq<u8> {
    "static/html/main.html.gz".spec_bytes()
}

/// Path of the shared page template for city pages.
pub open spec fn template_asset() -> Seq<u8> {
    "static/html/template.html".spec_bytes()
}

/// The one method that is served.
pub open spec fn get_method() -> Seq<u8> {
    "GET".spec_bytes()
}

/// Whether a route serves a stored file or renders a city page.
#[derive(PartialEq, Eq, Structural, Clone, Copy, Debug)]
pub enum RouteKind {
    Static,
    Dynamic,
}

/// A route as values: the path it matches, its kind, its key (a file path or
/// a city key) and whether it asks for the bare time text.
pub struct RouteView {
    pub pattern: Seq<u8>,
    pub kind: RouteKind,
    pub key: Seq<u8>,
    pub alternate: bool,
}

/// One entry of the routing table.
#[derive(Debug)]
pub struct Route {
    pub pattern: Vec<u8>,
    pub kind: RouteKind,
    pub key: Vec<u8>,
    pub alternate: bool,
}

impl View for Route {
    type V = RouteView;

    open spec fn view(&self) -> RouteView {
        RouteView {
            pattern: self.pattern@,
            kind: self.kind,
            key: self.key@,
            alternate: self.alternate,
        }
    }
}

/// What a request resolves to, as values.
pub enum DescriptorView {
    Static { resource: Seq<u8> },
    Dynamic { city: Seq<u8>, alternate: bool },
}

/// What a request resolves to: a stored file, or a city page (the full page,
/// or with `alternate` the bare time text).
#[derive(Debug)]
pub enum Descriptor {
    Static { resource: Vec<u8> },
    Dynamic { city: Vec<u8>, alternate: bool },
}

impl View for Descriptor {
    type V = DescriptorView;

    open spec fn view(&self) -> DescriptorView {
        match self {
            Descriptor::Static { resource } => DescriptorView::Static { resource: resource@ },
            Descriptor::Dynamic { city, alternate } => DescriptorView::Dynamic {
                city: city@,
                alternate: *alternate,
            },
        }
    }
}

/// The descriptor of the not-found asset.
pub open spec fn not_found() -> DescriptorView {
    DescriptorView::Static { resource: not_found_asset() }
}

/// The descriptor that a matched route yields.
pub open spec fn describe(r: RouteView) -> DescriptorView {
    match r.kind {
        RouteKind::Static => DescriptorView::Static { resource: r.key },
        RouteKind::Dynamic => DescriptorView::Dynamic { city: r.key, alternate: r.alternate },
    }
}

/// Exact-match lookup: the first route whose pattern equals `path`, else the
/// not-found asset.
pub open spec fn lookup(routes: Seq<RouteView>, path: Seq<u8>) -> DescriptorView
    decreases routes.len(),
{
    if routes.len() == 0 {
        not_found()
    } else if routes[0].pattern == path {
        describe(routes[0])
    } else {
        lookup(routes.skip(1), path)
    }
}

/// Whether some route's pattern equals `path`.
pub open spec fn is_defined(routes: Seq<RouteView>, path: Seq<u8>) -> bool {
    exists|i: int| 0 <= i < routes.len() && #[trigger] routes[i].pattern == path
}

/// Routing of a method and a path: only `GET` is served.
pub open spec fn route_spec(routes: Seq<RouteView>, method: Seq<u8>, path: Seq<u8>) -> DescriptorView {
    if method == get_method() {
        lookup(routes, path)
    } else {
        not_found()
    }
}

/// Routing of what a request head yielded; no request line means not found.
pub open spec fn route_head_spec(
    routes: Seq<RouteView>,
    request: Option<(Seq<u8>, Seq<u8>)>,
) -> DescriptorView {
    match request {
        Some((m, p)) => route_spec(routes, m, p),
        None => not_found(),
    }
}

/// A route that serves a stored file.
pub open spec fn static_route(pattern: Seq<u8>, file: Seq<u8>) -> RouteView {
    RouteView { pattern, kind: RouteKind::Static, key: file, alternate: false }
}

/// The two routes of a city: its page at `/<city>`, its time at `/xml/<city>`.
pub open spec fn city_routes(city: Seq<u8>) -> Seq<RouteView> {
    seq![
        RouteView { pattern: "/".spec_bytes() + city, kind: RouteKind::Dynamic, key: city, alternate: false },
        RouteView { pattern: "/xml/".spec_bytes() + city, kind: RouteKind::Dynamic, key: city, alternate: true },
    ]
}

/// The routes of the stored assets.
pub open spec fn static_routes() -> Seq<RouteView> {
    seq![
        static_route("/".spec_bytes(), home_asset()),
        static_route("/main.css".spec_bytes(), "static/css/main.css".spec_bytes()),
        static_route("/main.js".spec_bytes(), "static/js/main.js".spec_bytes()),
        static_route("/favicon.ico".spec_bytes(), not_found_asset()),
    ]
}

/// The routing table that the server runs with.
pub open spec fn standard_routes() -> Seq<RouteView> {
    static_routes() + city_routes("za".spec_bytes()) + city_routes("ny".spec_bytes())
        + city_routes("paris".spec_bytes()) + city_routes("adel".spec_bytes()) + city_routes(
        "sao".spec_bytes(),
    ) + city_routes("beij".spec_bytes()) + city_routes("ndel".spec_bytes()) + city_routes(
        "dub".spec_bytes(),
    ) + city_routes("mosc".spec_bytes()) + city_routes("tok".spec_bytes()) + city_routes(
        "mars".spec_bytes(),
    )
}

fn copy_bytes(s: &[u8]) -> (r: Vec<u8>)
    ensures
        r@ == s@,
{
    slice_to_vec(s)
}

/// The descriptor of the not-found asset.
pub fn not_found_descriptor() -> (d: Descriptor)
    ensures
        d@ == not_found(),
{
    Descriptor::Static { resource: bytes_of("static/html/404.html") }
}

/// The read-only table of routes, built once.
#[derive(Debug)]
pub struct RouteTable {
    pub routes: Vec<Route>,
}

impl View for RouteTable {
    type V = Seq<RouteView>;

    open spec fn view(&self) -> Seq<RouteView> {
        self.routes@.map_values(|r: Route| r@)
    }
}

fn push_static(routes: &mut Vec<Route>, pattern: &str, file: &str)
    ensures
        final(routes)@.map_values(|r: Route| r@) == old(routes)@.map_values(|r: Route| r@).push(
            static_route(pattern.spec_bytes(), file.spec_bytes()),
        ),
{
    routes.push(
        Route {
            pattern: bytes_of(pattern),
            kind: RouteKind::Static,
            key: bytes_of(file),
            alternate: false,
        },
    );
    assert(routes@.map_values(|r: Route| r@) =~= old(routes)@.map_values(|r: Route| r@).push(
        static_route(pattern.spec_bytes(), file.spec_bytes()),
    ));
}

fn push_city(routes: &mut Vec<Route>, city: &str)
    ensures
        final(routes)@.map_values(|r: Route| r@) == old(routes)@.map_values(|r: Route| r@)
            + city_routes(city.spec_bytes()),
{
    let mut page = bytes_of("/");
    push_str(&mut page, city);
    let mut xml = bytes_of("/xml/");
    push_str(&mut xml, city);
    routes.push(Route { pattern: page, kind: RouteKind::Dynamic, key: bytes_of(city), alternate: false });
    routes.push(Route { pattern: xml, kind: RouteKind::Dynamic, key: bytes_of(city), alternate: true });
    assert(routes@.map_values(|r: Route| r@) =~= old(routes)@.map_values(|r: Route| r@)
        + city_routes(city.spec_bytes()));
}

impl RouteTable {
    /// The table of the server: the stored assets, then a page route and a
    /// time route for each city.
    pub fn standard() -> (t: RouteTable)
        ensures
            t@ == standard_routes(),
    {
        let mut routes: Vec<Route> = Vec::new();
        assert(routes@.map_values(|r: Route| r@) =~= Seq::<RouteView>::empty());
        push_static(&mut routes, "/", "static/html/main.html.gz");
        push_static(&mut routes, "/main.css", "static/css/main.css");
        push_static(&mut routes, "/main.js", "static/js/main.js");
        push_static(&mut routes, "/favicon.ico", "static/html/404.html");
        assert(routes@.map_values(|r: Route| r@) =~= static_routes());
        push_city(&mut routes, "za");
        push_city(&mut routes, "ny");
        push_city(&mut routes, "paris");
        push_city(&mut routes, "adel");
        push_city(&mut routes, "sao");
        push_city(&mut routes, "beij");
        push_city(&mut routes, "ndel");
        push_city(&mut routes, "dub");
        push_city(&mut routes, "mosc");
        push_city(&mut routes, "tok");
        push_city(&mut routes, "mars");
        RouteTable { routes }
    }

    /// Exact-match lookup of a path: the first route whose pattern equals it,
    /// else the not-found asset.
    pub fn lookup(&self, path: &[u8]) -> (d: Descriptor)
        ensures
            d@ == lookup(self@, path@),
    {
        let mut i: usize = 0;
        assert(self@.skip(0) =~= self@);
        while i < self.routes.len()
            invariant
                i <= self@.len(),
                self@.len() == self.routes@.len(),
                lookup(self@, path@) == lookup(self@.skip(i as int), path@),
            decreases self.routes@.len() - i,
        {
            let r = &self.routes[i];
            assert(self@.skip(i as int)[0] == r@);
            assert(self@.skip(i as int).skip(1) =~= self@.skip(i + 1));
            if bytes_eq(r.pattern.as_slice(), path) {
                return match r.kind {
                    RouteKind::Static => Descriptor::Static { resource: copy_bytes(r.key.as_slice()) },
                    RouteKind::Dynamic => Descriptor::Dynamic {
                        city: copy_bytes(r.key.as_slice()),
                        alternate: r.alternate,
                    },
                };
            }
            i = i + 1;
        }
        not_found_descriptor()
    }

    /// Routing of a method and a path; any method but `GET` is not found.
    pub fn route(&self, method: &[u8], path: &[u8]) -> (d: Descriptor)
        ensures
            d@ == route_spec(self@, method@, path@),
    {
        let get = "GET".as_bytes();
        if bytes_eq(method, get) {
            self.lookup(path)
        } else {
            not_found_descriptor()
        }
    }

    /// Routing of the request line that a request head yielded, if any.
    pub fn route_request(&self, request: &Option<RequestLine>) -> (d: Descriptor)
        ensures
            d@ == route_head_spec(
                self@,
                match request {
                    Some(rl) => Some((rl.method@, rl.target@)),
                    None => None,
                },
            ),
    {
        match request {
            Some(rl) => self.route(rl.method.as_slice(), rl.target.as_slice()),
            None => not_found_descriptor(),
        }
    }
}

/// A path that no route matches resolves to the not-found asset.
pub proof fn lemma_undefined_path_not_found(routes: Seq<RouteView>, path: Seq<u8>)
    requires
        !is_defined(routes, path),
    ensures
        lookup(routes, path) == not_found(),
    decreases routes.len(),
{
    if routes.len() > 0 {
        assert(routes[0].pattern != path);
        assert forall|i: int| 0 <= i < routes.skip(1).len() implies #[trigger] routes.skip(1)[i].pattern
            != path by {
            assert(routes.skip(1)[i] == routes[i + 1]);
        }
        lemma_undefined_path_not_found(routes.skip(1), path);
    }
}

/// A defined path resolves to what one of the routes matching it describes.
pub proof fn lemma_defined_path_matched(routes: Seq<RouteView>, path: Seq<u8>)
    requires
        is_defined(routes, path),
    ensures
        exists|i: int|
            0 <= i < routes.len() && routes[i].pattern == path && lookup(routes, path) == describe(
                #[trigger] routes[i],
            ),
    decreases routes.len(),
{
    if routes[0].pattern == path {
        assert(routes[0].pattern == path && lookup(routes, path) == describe(routes[0]));
    } else {
        let i = choose|i: int| 0 <= i < routes.len() && #[trigger] routes[i].pattern == path;
        assert(routes.skip(1)[i - 1] == routes[i]);
        lemma_defined_path_matched(routes.skip(1), path);
        let j = choose|j: int|
            0 <= j < routes.skip(1).len() && routes.skip(1)[j].pattern == path && lookup(
                routes.skip(1),
                path,
            ) == describe(#[trigger] routes.skip(1)[j]);
        assert(routes.skip(1)[j] == routes[j + 1]);
    }
}


/// Whether no two routes share a pattern.
pub open spec fn patterns_distinct(routes: Seq<RouteView>) -> bool {
    forall|i: int, j: int|
        0 <= i < routes.len() && 0 <= j < routes.len() && i != j ==> routes[i].pattern
            != routes[j].pattern
}

/// In a table without repeated patterns, a route's own pattern resolves to it.
pub proof fn lemma_distinct_lookup(routes: Seq<RouteView>, i: int)
    requires
        patterns_distinct(routes),
        0 <= i < routes.len(),
    ensures
        lookup(routes, routes[i].pattern) == describe(routes[i]),
    decreases routes.len(),
{
    if i > 0 {
        assert(routes[0].pattern != routes[i].pattern);
        let rest = routes.skip(1);
        assert(rest[i - 1] == routes[i]);
        assert forall|a: int, b: int|
            0 <= a < rest.len() && 0 <= b < rest.len() && a != b implies rest[a].pattern
                != rest[b].pattern by {
            assert(rest[a] == routes[a + 1] && rest[b] == routes[b + 1]);
        }
        lemma_distinct_lookup(rest, i - 1);
    }
}

spec fn pattern_marks(s: Seq<u8>) -> (int, u8, u8, u8) {
    (s.len() as int, s[1], s[s.len() - 1], s[s.len() - 4])
}

/// No two routes of the standard table share a pattern.
pub proof fn lemma_standard_patterns_distinct()
    ensures
        patterns_distinct(standard_routes()),
{
    broadcast use vstd::string::is_ascii_spec_bytes;
    reveal_strlit("/");
    assert(vstd::string::is_ascii("/"));
    reveal_strlit("/favicon.ico");
    assert(vstd::string::is_ascii("/favicon.ico"));
    reveal_strlit("/main.css");
    assert(vstd::string::is_ascii("/main.css"));
    reveal_strlit("/main.js");
    assert(vstd::string::is_ascii("/main.js"));
    reveal_strlit("/xml/");
    assert(vstd::string::is_ascii("/xml/"));
    reveal_strlit("adel");
    assert(vstd::string::is_ascii("adel"));
    reveal_strlit("beij");
    assert(vstd::string::is_ascii("beij"));
    reveal_strlit("dub");
    assert(vstd::string::is_ascii("dub"));
    reveal_strlit("mars");
    assert(vstd::string::is_ascii("mars"));
    reveal_strlit("mosc");
    assert(vstd::string::is_ascii("mosc"));
    reveal_strlit("ndel");
    assert(vstd::string::is_ascii("ndel"));
    reveal_strlit("ny");
    assert(vstd::string::is_ascii("ny"));
    reveal_strlit("paris");
    assert(vstd::string::is_ascii("paris"));
    reveal_strlit("sao");
    assert(vstd::string::is_ascii("sao"));
    reveal_strlit("tok");
    assert(vstd::string::is_ascii("tok"));
    reveal_strlit("za");
    assert(vstd::string::is_ascii("za"));
    let r = standard_routes();
    assert(r.len() == 26);
    assert(r[0].pattern =~= seq![47u8]);
    assert(pattern_marks(r[0].pattern).0 == 1);
    assert(r[1].pattern =~= seq![47u8, 109u8, 97u8, 105u8, 110u8, 46u8, 99u8, 115u8, 115u8]);
    assert(pattern_marks(r[1].pattern) == (9int, 109u8, 115u8, 46u8));
    assert(r[2].pattern =~= seq![47u8, 109u8, 97u8, 105u8, 110u8, 46u8, 106u8, 115u8]);
    assert(pattern_marks(r[2].pattern) == (8int, 109u8, 115u8, 110u8));
    assert(r[3].pattern =~= seq![47u8, 102u8, 97u8, 118u8, 105u8, 99u8, 111u8, 110u8, 46u8, 105u8, 99u8, 111u8]);
    assert(pattern_marks(r[3].pattern) == (12int, 102u8, 111u8, 46u8));
    assert(r[4].pattern =~= seq![47u8, 122u8, 97u8]);
    assert(pattern_marks(r[4].pattern).0 == 3);
    assert(pattern_marks(r[4].pattern).1 == 122u8 && pattern_marks(r[4].pattern).2 == 97u8);
    assert(r[5].pattern =~= seq![47u8, 120u8, 109u8, 108u8, 47u8, 122u8, 97u8]);
    assert(pattern_marks(r[5].pattern) == (7int, 120u8, 97u8, 108u8));
    assert(r[6].pattern =~= seq![47u8, 110u8, 121u8]);
    assert(pattern_marks(r[6].pattern).0 == 3);
    assert(pattern_marks(r[6].pattern).1 == 110u8 && pattern_marks(r[6].pattern).2 == 121u8);
    assert(r[7].pattern =~= seq![47u8, 120u8, 109u8, 108u8, 47u8, 110u8, 121u8]);
    assert(pattern_marks(r[7].pattern) == (7int, 120u8, 121u8, 108u8));
    assert(r[8].pattern =~= seq![47u8, 112u8, 97u8, 114u8, 105u8, 115u8]);
    assert(pattern_marks(r[8].pattern) == (6int, 112u8, 115u8, 97u8));
    assert(r[9].pattern =~= seq![47u8, 120u8, 109u8, 108u8, 47u8, 112u8, 97u8, 114u8, 105u8, 115u8]);
    assert(pattern_marks(r[9].pattern) == (10int, 120u8, 115u8, 97u8));
    assert(r[10].pattern =~= seq![47u8, 97u8, 100u8, 101u8, 108u8]);
    assert(pattern_marks(r[10].pattern) == (5int, 97u8, 108u8, 97u8));
    assert(r[11].pattern =~= seq![47u8, 120u8, 109u8, 108u8, 47u8, 97u8, 100u8, 101u8, 108u8]);
    assert(pattern_marks(r[11].pattern) == (9int, 120u8, 108u8, 97u8));
    assert(r[12].pattern =~= seq![47u8, 115u8, 97u8, 111u8]);
    assert(pattern_marks(r[12].pattern) == (4int, 115u8, 111u8, 47u8));
    assert(r[13].pattern =~= seq![47u8, 120u8, 109u8, 108u8, 47u8, 115u8, 97u8, 111u8]);
    assert(pattern_marks(r[13].pattern) == (8int, 120u8, 111u8, 47u8));
    assert(r[14].pattern =~= seq![47u8, 98u8, 101u8, 105u8, 106u8]);
    assert(pattern_marks(r[14].pattern) == (5int, 98u8, 106u8, 98u8));
    assert(r[15].pattern =~= seq![47u8, 120u8, 109u8, 108u8, 47u8, 98u8, 101u8, 105u8, 106u8]);
    assert(pattern_marks(r[15].pattern) == (9int, 120u8, 106u8, 98u8));
    assert(r[16].pattern =~= seq![47u8, 110u8, 100u8, 101u8, 108u8]);
    assert(pattern_marks(r[16].pattern) == (5int, 110u8, 108u8, 110u8));
    assert(r[17].pattern =~= seq![47u8, 120u8, 109u8, 108u8, 47u8, 110u8, 100u8, 101u8, 108u8]);
    assert(pattern_marks(r[17].pattern) == (9int, 120u8, 108u8, 110u8));
    assert(r[18].pattern =~= seq![47u8, 100u8, 117u8, 98u8]);
    assert(pattern_marks(r[18].pattern) == (4int, 100u8, 98u8, 47u8));
    assert(r[19].pattern =~= seq![47u8, 120u8, 109u8, 108u8, 47u8, 100u8, 117u8, 98u8]);
    assert(pattern_marks(r[19].pattern) == (8int, 120u8, 98u8, 47u8));
    assert(r[20].pattern =~= seq![47u8, 109u8, 111u8, 115u8, 99u8]);
    assert(pattern_marks(r[20].pattern) == (5int, 109u8, 99u8, 109u8));
    assert(r[21].pattern =~= seq![47u8, 120u8, 109u8, 108u8, 47u8, 109u8, 111u8, 115u8, 99u8]);
    assert(pattern_marks(r[21].pattern) == (9int, 120u8, 99u8, 109u8));
    assert(r[22].pattern =~= seq![47u8, 116u8, 111u8, 107u8]);
    assert(pattern_marks(r[22].pattern) == (4int, 116u8, 107u8, 47u8));
    assert(r[23].pattern =~= seq![47u8, 120u8, 109u8, 108u8, 47u8, 116u8, 111u8, 107u8]);
    assert(pattern_marks(r[23].pattern) == (8int, 120u8, 107u8, 47u8));
    assert(r[24].pattern =~= seq![47u8, 109u8, 97u8, 114u8, 115u8]);
    assert(pattern_marks(r[24].pattern) == (5int, 109u8, 115u8, 109u8));
    assert(r[25].pattern =~= seq![47u8, 120u8, 109u8, 108u8, 47u8, 109u8, 97u8, 114u8, 115u8]);
    assert(pattern_marks(r[25].pattern) == (9int, 120u8, 115u8, 109u8));
    assert forall|i: int, j: int|
        0 <= i < r.len() && 0 <= j < r.len() && i != j implies r[i].pattern != r[j].pattern by {
        if r[i].pattern == r[j].pattern {
            assert(pattern_marks(r[i].pattern) == pattern_marks(r[j].pattern));
        }
    }
}

} // verus!
