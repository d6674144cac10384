//! Serialising responses: status line, headers, blank line, then the body.
use vstd::prelude::*;
use vstd::slice::{slice_subrange, slice_to_vec};
use vstd::string::StringSliceAdditionalSpecFns;
use crate::clock::{
    city_info, city_title, display_time, generic_title, sentinel_time, time_for, title_for,
    utc_second_of_day,
};
use crate::router::{
    city_routes, describe, get_method, is_defined, lemma_defined_path_matched, lemma_distinct_lookup,
    lemma_standard_patterns_distinct, lemma_undefined_path_not_found, not_found, not_found_asset,
    route_spec, standard_routes, template_asset, Descriptor, DescriptorView, RouteKind, RouteView,
};
use crate::template::{page, render_page};
use crate::text::{
    all_digits, bytes_end_with, bytes_eq, bytes_of, decimal, digits_value, ends_with,
    lemma_decimal_round_trip, push_bytes, push_decimal, push_str,
};

verus! {

/// Status of a response.
#[derive(PartialEq, Eq, Structural, Clone, Copy, Debug)]
pub enum Status {
    Success,
    NotFound,
    ServerError,
}

/// Status line of a status, with its line terminator.
pub open spec fn status_line(s: Status) -> Seq<u8> {
    match s {
        Status::Success => "HTTP/1.1 200 OK\r\n".spec_bytes(),
        Status::NotFound => "HTTP/1.1 404 Not Found\r\n".spec_bytes(),
        Status::ServerError => "HTTP/1.1 500 Internal Server Error\r\n".spec_bytes(),
    }
}

/// Header line announcing a gzip-compressed body.
pub open spec fn gzip_header() -> Seq<u8> {
    "Content-Encoding: gzip\r\n".spec_bytes()
}

/// Everything before the body's length.
pub open spec fn head_start(s: Status) -> Seq<u8> {
    status_line(s) + "Content-Length: ".spec_bytes()
}

/// Everything after the body's length and before the body.
pub open spec fn head_end(content_type: Seq<u8>, gzip: bool) -> Seq<u8> {
    "\r\n".spec_bytes() + "Content-Type: ".spec_bytes() + content_type + "\r\n".spec_bytes() + (if gzip {
        gzip_header()
    } else {
        Seq::empty()
    }) + "Connection: close\r\n\r\n".spec_bytes()
}

/// A whole response: status line, `Content-Length`, `Content-Type`, the
/// optional `Content-Encoding`, `Connection: close`, a blank line, the body.
pub open spec fn envelope(s: Status, content_type: Seq<u8>, gzip: bool, body: Seq<u8>) -> Seq<u8> {
    head_start(s) + decimal(body.len()) + head_end(content_type, gzip) + body
}

/// Whether a resource is stored gzip-compressed: its name ends in `.gz`.
pub open spec fn is_gzip(name: Seq<u8>) -> bool {
    ends_with(name, ".gz".spec_bytes())
}

/// A resource's name without a final `.gz`.
pub open spec fn base_name(name: Seq<u8>) -> Seq<u8> {
    if is_gzip(name) {
        name.take(name.len() - ".gz".spec_bytes().len())
    } else {
        name
    }
}

/// MIME type of a resource, from the extension of its name (a final `.gz`
/// set aside).
pub open spec fn content_type(name: Seq<u8>) -> Seq<u8> {
    let base = base_name(name);
    if ends_with(base, ".html".spec_bytes()) {
        "text/html".spec_bytes()
    } else if ends_with(base, ".css".spec_bytes()) {
        "text/css".spec_bytes()
    } else if ends_with(base, ".js".spec_bytes()) {
        "text/javascript".spec_bytes()
    } else {
        "text/plain".spec_bytes()
    }
}

/// What a descriptor needs read from storage before it can be answered: the
/// file it serves, the template of a city page, or nothing for bare time text.
pub open spec fn needed_resource(d: DescriptorView) -> Option<Seq<u8>> {
    match d {
        DescriptorView::Static { resource } => Some(resource),
        DescriptorView::Dynamic { alternate, .. } => if alternate {
            None
        } else {
            Some(template_asset())
        },
    }
}

/// Whether the resource that a descriptor needs could not be read.
pub open spec fn unavailable(d: DescriptorView, loaded: Option<Seq<u8>>) -> bool {
    needed_resource(d) is Some && loaded is None
}

/// Status of the response to a descriptor.
pub open spec fn status_of(d: DescriptorView, loaded: Option<Seq<u8>>) -> Status {
    if unavailable(d, loaded) {
        Status::ServerError
    } else {
        match d {
            DescriptorView::Static { resource } => if resource == not_found_asset() {
                Status::NotFound
            } else {
                Status::Success
            },
            DescriptorView::Dynamic { .. } => Status::Success,
        }
    }
}

/// Content type of the response to a descriptor. City pages and bare time
/// text are both labelled `text/html`.
pub open spec fn type_of(d: DescriptorView, loaded: Option<Seq<u8>>) -> Seq<u8> {
    if unavailable(d, loaded) {
        "text/plain".spec_bytes()
    } else {
        match d {
            DescriptorView::Static { resource } => content_type(resource),
            DescriptorView::Dynamic { .. } => "text/html".spec_bytes(),
        }
    }
}

/// Whether the response to a descriptor is marked gzip-encoded.
pub open spec fn gzip_of(d: DescriptorView, loaded: Option<Seq<u8>>) -> bool {
    !unavailable(d, loaded) && match d {
        DescriptorView::Static { resource } => is_gzip(resource),
        DescriptorView::Dynamic { .. } => false,
    }
}

/// Body of the response to a descriptor, the UTC second of the day being `utc`.
pub open spec fn body_of(d: DescriptorView, loaded: Option<Seq<u8>>, utc: int) -> Seq<u8> {
    if unavailable(d, loaded) {
        Seq::empty()
    } else {
        match d {
            DescriptorView::Static { .. } => loaded.unwrap(),
            DescriptorView::Dynamic { city, alternate } => if alternate {
                display_time(city, utc)
            } else {
                page(loaded.unwrap(), city_title(city), city, display_time(city, utc))
            },
        }
    }
}

/// The response to a descriptor, given what was read for it and the clock.
pub open spec fn response(d: DescriptorView, loaded: Option<Seq<u8>>, utc: int) -> Seq<u8> {
    envelope(status_of(d, loaded), type_of(d, loaded), gzip_of(d, loaded), body_of(d, loaded, utc))
}

pub open spec fn loaded_view(loaded: &Option<Vec<u8>>) -> Option<Seq<u8>> {
    match loaded {
        Some(b) => Some(b@),
        None => None,
    }
}

/// Serialises a response around `body`.
pub fn build_response(status: Status, content_type: &[u8], gzip: bool, body: &[u8]) -> (r: Vec<u8>)
    ensures
        r@ == envelope(status, content_type@, gzip, body@),
{
    let mut out: Vec<u8> = Vec::new();
    match status {
        Status::Success => push_str(&mut out, "HTTP/1.1 200 OK\r\n"),
        Status::NotFound => push_str(&mut out, "HTTP/1.1 404 Not Found\r\n"),
        Status::ServerError => push_str(&mut out, "HTTP/1.1 500 Internal Server Error\r\n"),
    }
    push_str(&mut out, "Content-Length: ");
    push_decimal(&mut out, body.len());
    push_str(&mut out, "\r\n");
    push_str(&mut out, "Content-Type: ");
    push_bytes(&mut out, content_type);
    push_str(&mut out, "\r\n");
    if gzip {
        push_str(&mut out, "Content-Encoding: gzip\r\n");
    }
    push_str(&mut out, "Connection: close\r\n\r\n");
    push_bytes(&mut out, body);
    assert(out@ =~= envelope(status, content_type@, gzip, body@));
    out
}

/// Whether a resource name ends in `.gz`.
pub fn resource_is_gzip(name: &[u8]) -> (r: bool)
    ensures
        r == is_gzip(name@),
{
    bytes_end_with(name, ".gz".as_bytes())
}

/// MIME type of a resource, from its name's extension.
pub fn resource_content_type(name: &[u8]) -> (r: Vec<u8>)
    ensures
        r@ == content_type(name@),
{
    let suffix = ".gz".as_bytes();
    let base: &[u8] = if bytes_end_with(name, suffix) {
        slice_subrange(name, 0, name.len() - suffix.len())
    } else {
        name
    };
    if bytes_end_with(base, ".html".as_bytes()) {
        bytes_of("text/html")
    } else if bytes_end_with(base, ".css".as_bytes()) {
        bytes_of("text/css")
    } else if bytes_end_with(base, ".js".as_bytes()) {
        bytes_of("text/javascript")
    } else {
        bytes_of("text/plain")
    }
}

impl Descriptor {
    /// The resource that must be read from storage to answer this descriptor.
    pub fn resource_to_load(&self) -> (r: Option<Vec<u8>>)
        ensures
            loaded_view(&r) == needed_resource(self@),
    {
        match self {
            Descriptor::Static { resource } => Some(slice_to_vec(resource.as_slice())),
            Descriptor::Dynamic { alternate, .. } => if *alternate {
                None
            } else {
                Some(bytes_of("static/html/template.html"))
            },
        }
    }
}

/// The response sent when a needed resource could not be read.
pub fn unavailable_response() -> (r: Vec<u8>)
    ensures
        r@ == envelope(Status::ServerError, "text/plain".spec_bytes(), false, Seq::empty()),
{
    let empty: Vec<u8> = Vec::new();
    build_response(Status::ServerError, "text/plain".as_bytes(), false, empty.as_slice())
}

/// The response to a descriptor, given what was read for it (`None` when it
/// could not be read) and the UTC second of the day.
pub fn respond_at(d: &Descriptor, loaded: &Option<Vec<u8>>, utc: u32) -> (r: Vec<u8>)
    requires
        utc < 86400,
    ensures
        r@ == response(d@, loaded_view(loaded), utc as int),
{
    match d {
        Descriptor::Static { resource } => match loaded {
            Some(body) => {
                let status = if bytes_eq(resource.as_slice(), "static/html/404.html".as_bytes()) {
                    Status::NotFound
                } else {
                    Status::Success
                };
                let content_type = resource_content_type(resource.as_slice());
                let gzip = resource_is_gzip(resource.as_slice());
                build_response(status, content_type.as_slice(), gzip, body.as_slice())
            },
            None => unavailable_response(),
        },
        Descriptor::Dynamic { city, alternate } => {
            if *alternate {
                let time = time_for(city.as_slice(), utc);
                build_response(Status::Success, "text/html".as_bytes(), false, time.as_slice())
            } else {
                match loaded {
                    Some(template) => {
                        let time = time_for(city.as_slice(), utc);
                        let title = title_for(city.as_slice());
                        let body = render_page(
                            template.as_slice(),
                            title.as_slice(),
                            city.as_slice(),
                            time.as_slice(),
                        );
                        build_response(Status::Success, "text/html".as_bytes(), false, body.as_slice())
                    },
                    None => unavailable_response(),
                }
            }
        },
    }
}

/// The response to a descriptor now: as `respond_at` at the current UTC time
/// of day, whatever the clock reads.
pub fn respond(d: &Descriptor, loaded: &Option<Vec<u8>>) -> (r: Vec<u8>)
    ensures
        exists|utc: int| 0 <= utc < 86400 && r@ == response(d@, loaded_view(loaded), utc),
{
    let utc = utc_second_of_day();
    respond_at(d, loaded, utc)
}

/// Whether `sub` occurs in `s`.
pub open spec fn contains(s: Seq<u8>, sub: Seq<u8>) -> bool {
    exists|i: int| 0 <= i <= s.len() - sub.len() && #[trigger] s.subrange(i, i + sub.len()) == sub
}

/// A `GET` for a path that no route matches is answered `404 Not Found` with
/// the not-found asset's bytes as body; a path whose route serves anything but
/// that asset is answered `200 OK` once what it needs has been read. A
/// defined path is served as one of the routes matching it describes.
pub proof fn lemma_status_follows_route(
    routes: Seq<RouteView>,
    path: Seq<u8>,
    loaded: Seq<u8>,
    utc: int,
)
    ensures
        !is_defined(routes, path) ==> {
            let d = route_spec(routes, get_method(), path);
            &&& d == not_found()
            &&& status_of(d, Some(loaded)) == Status::NotFound
            &&& body_of(d, Some(loaded), utc) == loaded
        },
        is_defined(routes, path) ==> exists|i: int|
            0 <= i < routes.len() && routes[i].pattern == path && route_spec(
                routes,
                get_method(),
                path,
            ) == describe(#[trigger] routes[i]),
        route_spec(routes, get_method(), path) != not_found() ==> status_of(
            route_spec(routes, get_method(), path),
            Some(loaded),
        ) == Status::Success,
{
    if !is_defined(routes, path) {
        lemma_undefined_path_not_found(routes, path);
    } else {
        lemma_defined_path_matched(routes, path);
    }
}

/// In the server's table every route answers `GET` of its own path with
/// `200 OK` once what it needs has been read, except `/favicon.ico`, whose
/// route serves the not-found asset and so answers `404 Not Found`.
pub proof fn lemma_standard_routes_status(i: int, loaded: Seq<u8>)
    requires
        0 <= i < standard_routes().len(),
    ensures
        ({
            let r = standard_routes();
            let d = route_spec(r, get_method(), r[i].pattern);
            &&& d == describe(r[i])
            &&& status_of(d, Some(loaded)) == if r[i].pattern == "/favicon.ico".spec_bytes() {
                Status::NotFound
            } else {
                Status::Success
            }
        }),
{
    broadcast use vstd::string::is_ascii_spec_bytes;

    reveal_strlit("static/html/main.html.gz");
    reveal_strlit("static/css/main.css");
    reveal_strlit("static/js/main.js");
    reveal_strlit("static/html/404.html");
    assert(vstd::string::is_ascii("static/html/main.html.gz"));
    assert(vstd::string::is_ascii("static/css/main.css"));
    assert(vstd::string::is_ascii("static/js/main.js"));
    assert(vstd::string::is_ascii("static/html/404.html"));
    let r = standard_routes();
    lemma_standard_patterns_distinct();
    lemma_distinct_lookup(r, i);
    if i != 3 {
        assert(r[i].pattern != r[3].pattern);
    }
}

/// The `Content-Length` header holds the decimal length of the body that
/// follows the blank line, and reading those digits back gives that length.
pub proof fn lemma_content_length_matches_body(d: DescriptorView, loaded: Option<Seq<u8>>, utc: int)
    ensures
        ({
            let r = response(d, loaded, utc);
            let b = body_of(d, loaded, utc);
            let digits = decimal(b.len());
            &&& r == head_start(status_of(d, loaded)) + digits + head_end(
                type_of(d, loaded),
                gzip_of(d, loaded),
            ) + b
            &&& r.subrange(r.len() - b.len(), r.len() as int) == b
            &&& all_digits(digits)
            &&& digits_value(digits) == b.len()
        }),
{
    let r = response(d, loaded, utc);
    let b = body_of(d, loaded, utc);
    lemma_decimal_round_trip(b.len());
    let head = head_start(status_of(d, loaded)) + decimal(b.len()) + head_end(
        type_of(d, loaded),
        gzip_of(d, loaded),
    );
    assert(r == head + b);
    assert(r.subrange(head.len() as int, r.len() as int) =~= b);
}

/// In the server's table the time route `/xml/<city>` and the page route
/// `/<city>` of each city resolve to that city, and show the same display
/// time: the first as its whole body, the second in place of the template's
/// `{{time}}` token, once `{{title}}` and `{{country}}` have been filled.
pub proof fn lemma_city_routes_share_time(
    i: int,
    loaded: Option<Seq<u8>>,
    template: Seq<u8>,
    utc: int,
)
    requires
        0 <= i < standard_routes().len(),
        standard_routes()[i].kind == RouteKind::Dynamic,
    ensures
        ({
            let city = standard_routes()[i].key;
            let xml = DescriptorView::Dynamic { city, alternate: true };
            let html = DescriptorView::Dynamic { city, alternate: false };
            &&& route_spec(standard_routes(), get_method(), "/xml/".spec_bytes() + city) == xml
            &&& route_spec(standard_routes(), get_method(), "/".spec_bytes() + city) == html
            &&& body_of(xml, loaded, utc) == display_time(city, utc)
            &&& body_of(html, Some(template), utc) == page(
                template,
                city_title(city),
                city,
                display_time(city, utc),
            )
        }),
{
    let r = standard_routes();
    lemma_standard_patterns_distinct();
    let city = r[i].key;
    let page_at = if i % 2 == 0 {
        i
    } else {
        i - 1
    };
    assert(r[page_at] == city_routes(city)[0] && r[page_at + 1] == city_routes(city)[1]);
    lemma_distinct_lookup(r, page_at);
    lemma_distinct_lookup(r, page_at + 1);
}

/// A response for a stored file depends only on the descriptor and the bytes
/// read, never on the clock; a city response depends on the clock only
/// through the display time.
pub proof fn lemma_response_repeatable(
    d: DescriptorView,
    loaded: Option<Seq<u8>>,
    utc1: int,
    utc2: int,
)
    ensures
        d is Static ==> response(d, loaded, utc1) == response(d, loaded, utc2),
        d matches DescriptorView::Dynamic { city, .. } ==> (display_time(city, utc1) == display_time(
            city,
            utc2,
        ) ==> response(d, loaded, utc1) == response(d, loaded, utc2)),
{
}

/// A stored resource whose name ends in `.gz` is answered with a
/// `Content-Encoding: gzip` header and its bytes unchanged.
pub proof fn lemma_gzip_resource_marked(resource: Seq<u8>, bytes: Seq<u8>, utc: int)
    requires
        is_gzip(resource),
    ensures
        ({
            let d = DescriptorView::Static { resource };
            &&& gzip_of(d, Some(bytes))
            &&& contains(response(d, Some(bytes), utc), gzip_header())
            &&& body_of(d, Some(bytes), utc) == bytes
        }),
{
    let d = DescriptorView::Static { resource };
    let r = response(d, Some(bytes), utc);
    let before = head_start(status_of(d, Some(bytes))) + decimal(bytes.len()) + "\r\n".spec_bytes()
        + "Content-Type: ".spec_bytes() + type_of(d, Some(bytes)) + "\r\n".spec_bytes();
    let after = "Connection: close\r\n\r\n".spec_bytes() + bytes;
    assert(r =~= before + gzip_header() + after);
    let i = before.len() as int;
    assert(r.subrange(i, i + gzip_header().len()) =~= gzip_header());
}

/// An unknown city key shows the sentinel time under the generic title, and
/// its route is still answered `200 OK`.
pub proof fn lemma_unknown_city(city: Seq<u8>, alternate: bool, loaded: Option<Seq<u8>>, utc: int)
    requires
        city_info(city) is None,
        alternate || loaded is Some,
    ensures
        display_time(city, utc) == sentinel_time(),
        city_title(city) == generic_title(),
        status_of(DescriptorView::Dynamic { city, alternate }, loaded) == Status::Success,
{
}

} // verus!
