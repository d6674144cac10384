use world_clock::clock::{format_hms, lookup_city, shift_second, time_for, title_for};
use world_clock::request::{parse_request_line, strip_terminator, RequestReader};
use world_clock::response::{
    build_response, resource_content_type, resource_is_gzip, respond, respond_at, Status,
};
use world_clock::router::{not_found_descriptor, Descriptor, RouteTable};
use world_clock::template::{render_page, replace_bytes};
use world_clock::text::{bytes_end_with, bytes_eq, push_decimal};

const TEMPLATE: &[u8] = b"<title>{{title}}</title><h1>{{country}}</h1><p>{{time}}</p>";

fn get(path: &str) -> Descriptor {
    RouteTable::standard().route(b"GET", path.as_bytes())
}

fn header_value<'a>(response: &'a [u8], name: &str) -> Option<&'a str> {
    let end = response.windows(4).position(|w| w == b"\r\n\r\n")?;
    let head = std::str::from_utf8(&response[..end]).ok()?;
    head.split("\r\n")
        .find_map(|line| line.strip_prefix(name).and_then(|rest| rest.strip_prefix(": ")))
}

fn body_of(response: &[u8]) -> &[u8] {
    let pos = response.windows(4).position(|w| w == b"\r\n\r\n").unwrap();
    &response[pos + 4..]
}

#[test]
fn city_page_is_rendered_with_local_time() {
    let d = get("/za");
    assert!(matches!(&d, Descriptor::Dynamic { city, alternate: false } if city == b"za"));
    assert_eq!(d.resource_to_load(), Some(b"static/html/template.html".to_vec()));
    let r = respond_at(&d, &Some(TEMPLATE.to_vec()), 36000);
    let expected = b"HTTP/1.1 200 OK\r\nContent-Length: 53\r\nContent-Type: text/html\r\nConnection: close\r\n\r\n<title>South Africa</title><h1>za</h1><p>12:00:00</p>";
    assert_eq!(r, expected.to_vec());
}

#[test]
fn time_route_body_is_bare_time() {
    let d = get("/xml/za");
    assert!(matches!(&d, Descriptor::Dynamic { city, alternate: true } if city == b"za"));
    assert_eq!(d.resource_to_load(), None);
    let r = respond_at(&d, &None, 36000);
    let expected = b"HTTP/1.1 200 OK\r\nContent-Length: 8\r\nContent-Type: text/html\r\nConnection: close\r\n\r\n12:00:00";
    assert_eq!(r, expected.to_vec());
}

#[test]
fn unknown_path_serves_not_found_asset() {
    let d = get("/nonexistent");
    assert_eq!(d.resource_to_load(), Some(b"static/html/404.html".to_vec()));
    let asset = b"<h1>gone</h1>".to_vec();
    let r = respond_at(&d, &Some(asset.clone()), 0);
    assert!(r.starts_with(b"HTTP/1.1 404 Not Found\r\n"));
    assert_eq!(header_value(&r, "Content-Length"), Some("13"));
    assert_eq!(header_value(&r, "Content-Type"), Some("text/html"));
    assert_eq!(body_of(&r), asset.as_slice());
}

#[test]
fn home_page_is_sent_precompressed() {
    let d = get("/");
    assert_eq!(d.resource_to_load(), Some(b"static/html/main.html.gz".to_vec()));
    let gz = vec![0x1f, 0x8b, 0x08, 0x00, 0xff, 0x00, 0x0d, 0x0a];
    let r = respond_at(&d, &Some(gz.clone()), 0);
    assert!(r.starts_with(b"HTTP/1.1 200 OK\r\n"));
    assert_eq!(header_value(&r, "Content-Encoding"), Some("gzip"));
    assert_eq!(header_value(&r, "Content-Type"), Some("text/html"));
    assert_eq!(header_value(&r, "Content-Length"), Some("8"));
    assert_eq!(body_of(&r), gz.as_slice());
}

#[test]
fn every_route_of_the_table_answers() {
    let table = RouteTable::standard();
    assert_eq!(table.routes.len(), 26);
    for route in &table.routes {
        let d = table.route(b"GET", &route.pattern);
        let loaded = d.resource_to_load().map(|_| TEMPLATE.to_vec());
        let r = respond_at(&d, &loaded, 43200);
        if route.pattern == b"/favicon.ico" {
            assert!(r.starts_with(b"HTTP/1.1 404 Not Found\r\n"));
        } else {
            assert!(r.starts_with(b"HTTP/1.1 200 OK\r\n"), "{:?}", route.pattern);
        }
    }
}

#[test]
fn content_length_matches_body_everywhere() {
    let table = RouteTable::standard();
    for path in ["/", "/main.css", "/main.js", "/tok", "/xml/mars", "/nope"] {
        let d = table.route(b"GET", path.as_bytes());
        let loaded = d.resource_to_load().map(|_| TEMPLATE.to_vec());
        let r = respond_at(&d, &loaded, 100);
        let n: usize = header_value(&r, "Content-Length").unwrap().parse().unwrap();
        assert_eq!(n, body_of(&r).len());
        assert_eq!(header_value(&r, "Connection"), Some("close"));
    }
}

#[test]
fn sibling_routes_share_the_time() {
    let page = respond_at(&get("/beij"), &Some(TEMPLATE.to_vec()), 36000);
    let time = respond_at(&get("/xml/beij"), &None, 36000);
    assert_eq!(body_of(&time), b"18:00:00");
    assert_eq!(body_of(&page), "<title>北京 (Beijing)</title><h1>beij</h1><p>18:00:00</p>".as_bytes());
    assert_eq!(header_value(&page, "Content-Length"), Some("59"));
}

#[test]
fn static_responses_repeat_exactly() {
    let d = get("/main.css");
    let css = b"body { margin: 0 }".to_vec();
    let a = respond_at(&d, &Some(css.clone()), 5);
    let b = respond_at(&d, &Some(css.clone()), 80000);
    assert_eq!(a, b);
    assert_eq!(header_value(&a, "Content-Type"), Some("text/css"));
    assert_eq!(a, respond(&d, &Some(css)));
}

#[test]
fn gz_resources_are_marked() {
    assert!(resource_is_gzip(b"static/js/main.js.gz"));
    assert!(!resource_is_gzip(b"static/js/main.js"));
    assert!(!resource_is_gzip(b"gz"));
    let d = Descriptor::Static { resource: b"static/js/main.js.gz".to_vec() };
    let r = respond_at(&d, &Some(vec![1, 2, 3]), 0);
    assert_eq!(header_value(&r, "Content-Encoding"), Some("gzip"));
    assert_eq!(header_value(&r, "Content-Type"), Some("text/javascript"));
    assert_eq!(body_of(&r), &[1, 2, 3]);
}

#[test]
fn unknown_city_shows_sentinel() {
    assert_eq!(time_for(b"atlantis", 1000), b"not implemented".to_vec());
    assert_eq!(title_for(b"atlantis"), b"somewhere".to_vec());
    let page = Descriptor::Dynamic { city: b"atlantis".to_vec(), alternate: false };
    let r = respond_at(&page, &Some(TEMPLATE.to_vec()), 1000);
    assert!(r.starts_with(b"HTTP/1.1 200 OK\r\n"));
    assert_eq!(body_of(&r), b"<title>somewhere</title><h1>atlantis</h1><p>not implemented</p>");
    let time = Descriptor::Dynamic { city: b"atlantis".to_vec(), alternate: true };
    let r = respond_at(&time, &None, 1000);
    assert!(r.starts_with(b"HTTP/1.1 200 OK\r\n"));
    assert_eq!(body_of(&r), b"not implemented");
}

#[test]
fn other_methods_and_queries_are_not_found() {
    let table = RouteTable::standard();
    for (m, p) in [("POST", "/za"), ("get", "/za"), ("GET", "/za?x=1"), ("GET", "/ZA"), ("GET", "/za/")] {
        let d = table.route(m.as_bytes(), p.as_bytes());
        assert!(matches!(&d, Descriptor::Static { resource } if resource == b"static/html/404.html"));
    }
    assert!(matches!(table.route_request(&None), Descriptor::Static { resource } if resource == b"static/html/404.html"));
}

#[test]
fn missing_resource_gives_server_error() {
    let r = respond_at(&get("/main.js"), &None, 0);
    let expected = b"HTTP/1.1 500 Internal Server Error\r\nContent-Length: 0\r\nContent-Type: text/plain\r\nConnection: close\r\n\r\n";
    assert_eq!(r, expected.to_vec());
    let r = respond_at(&get("/paris"), &None, 0);
    assert!(r.starts_with(b"HTTP/1.1 500 Internal Server Error\r\n"));
    let r = respond_at(&get("/xml/paris"), &None, 0);
    assert!(r.starts_with(b"HTTP/1.1 200 OK\r\n"));
}

#[test]
fn request_line_tokens() {
    let rl = parse_request_line(b"GET /za HTTP/1.1").unwrap();
    assert_eq!(rl.method, b"GET");
    assert_eq!(rl.target, b"/za");
    let rl = parse_request_line(b"GET /").unwrap();
    assert_eq!(rl.target, b"/");
    let rl = parse_request_line(b"GET  /za").unwrap();
    assert_eq!(rl.target, b"");
    assert!(parse_request_line(b"GET").is_none());
    assert!(parse_request_line(b"").is_none());
    let rl = parse_request_line(b"DELETE /x y").unwrap();
    assert_eq!(rl.method, b"DELETE");
}

#[test]
fn line_terminators_are_stripped() {
    assert_eq!(strip_terminator(b"GET / HTTP/1.1\r\n"), b"GET / HTTP/1.1".to_vec());
    assert_eq!(strip_terminator(b"Host: x\n"), b"Host: x".to_vec());
    assert_eq!(strip_terminator(b"\r\n"), b"".to_vec());
    assert_eq!(strip_terminator(b"abc"), b"abc".to_vec());
}

#[test]
fn reader_uses_first_line_only() {
    let mut reader = RequestReader::new();
    assert!(!reader.feed_line(b"GET /tok HTTP/1.1\r\n"));
    assert!(!reader.feed_line(b"GET /za HTTP/1.1\r\n"));
    assert!(!reader.feed_line(b"Host: example\r\n"));
    assert!(reader.feed_line(b"\r\n"));
    assert!(reader.is_done());
    assert!(reader.feed_line(b"GET /ny HTTP/1.1\r\n"));
    let d = RouteTable::standard().route_request(&reader.request);
    assert!(matches!(&d, Descriptor::Dynamic { city, alternate: false } if city == b"tok"));
}

#[test]
fn reader_without_request_line_is_not_found() {
    let mut reader = RequestReader::new();
    assert!(reader.feed_line(b"\r\n"));
    assert!(reader.request.is_none());
    let d = RouteTable::standard().route_request(&reader.request);
    assert!(matches!(&d, Descriptor::Static { resource } if resource == b"static/html/404.html"));
    let mut reader = RequestReader::new();
    assert!(!reader.feed_line(b"BREW /pot HTCPCP/1.0\r\n"));
    assert!(reader.feed_line(b"\n"));
    let d = RouteTable::standard().route_request(&reader.request);
    assert!(matches!(&d, Descriptor::Static { resource } if resource == b"static/html/404.html"));
}

#[test]
fn offsets_and_formatting() {
    assert_eq!(format_hms(0), b"00:00:00".to_vec());
    assert_eq!(format_hms(86399), b"23:59:59".to_vec());
    assert_eq!(format_hms(3723), b"01:02:03".to_vec());
    assert_eq!(shift_second(3600, -18000), 72000);
    assert_eq!(time_for(b"ny", 3600), b"20:00:00".to_vec());
    assert_eq!(time_for(b"adel", 0), b"09:30:00".to_vec());
    assert_eq!(time_for(b"ndel", 86000), b"05:23:20".to_vec());
    assert_eq!(time_for(b"mars", 0), b"22:01:00".to_vec());
    assert_eq!(lookup_city(b"sao"), Some((-3600, "São Paulo")));
    assert_eq!(lookup_city(b"za "), None);
}

#[test]
fn content_types_by_extension() {
    assert_eq!(resource_content_type(b"a/b.html"), b"text/html".to_vec());
    assert_eq!(resource_content_type(b"a/b.html.gz"), b"text/html".to_vec());
    assert_eq!(resource_content_type(b"main.css"), b"text/css".to_vec());
    assert_eq!(resource_content_type(b"main.js"), b"text/javascript".to_vec());
    assert_eq!(resource_content_type(b"favicon.ico"), b"text/plain".to_vec());
    assert_eq!(resource_content_type(b"notes.txt.gz"), b"text/plain".to_vec());
}

#[test]
fn template_substitution() {
    assert_eq!(replace_bytes(b"a{{x}}b{{x}}", b"{{x}}", b"Z"), b"aZbZ".to_vec());
    assert_eq!(replace_bytes(b"{{x", b"{{x}}", b"Z"), b"{{x".to_vec());
    assert_eq!(replace_bytes(b"aaa", b"aa", b"b"), b"ba".to_vec());
    assert_eq!(replace_bytes(b"abc", b"", b"Z"), b"abc".to_vec());
    assert_eq!(render_page(b"no tokens", b"T", b"c", b"t"), b"no tokens".to_vec());
    assert_eq!(render_page(b"{{time}}|{{title}}|{{country}}", b"T", b"c", b"t"), b"t|T|c".to_vec());
}

#[test]
fn response_layout() {
    let r = build_response(Status::NotFound, b"text/plain", true, b"xyz");
    let expected = b"HTTP/1.1 404 Not Found\r\nContent-Length: 3\r\nContent-Type: text/plain\r\nContent-Encoding: gzip\r\nConnection: close\r\n\r\nxyz";
    assert_eq!(r, expected.to_vec());
    let big = vec![0u8; 12345];
    let r = build_response(Status::Success, b"text/plain", false, &big);
    assert_eq!(header_value(&r, "Content-Length"), Some("12345"));
}

#[test]
fn byte_helpers() {
    assert!(bytes_eq(b"abc", b"abc"));
    assert!(!bytes_eq(b"abc", b"abd"));
    assert!(!bytes_eq(b"ab", b"abc"));
    assert!(bytes_end_with(b"x.gz", b".gz"));
    assert!(!bytes_end_with(b"z", b".gz"));
    let mut out = b"n=".to_vec();
    push_decimal(&mut out, 0);
    push_decimal(&mut out, 907);
    assert_eq!(out, b"n=0907".to_vec());
    assert!(matches!(not_found_descriptor(), Descriptor::Static { resource } if resource == b"static/html/404.html"));
}

#[test]
fn live_clock_time_is_well_formed() {
    let r = respond(&get("/xml/tok"), &None);
    let body = body_of(&r);
    assert_eq!(body.len(), 8);
    assert_eq!(body[2], b':');
    assert_eq!(body[5], b':');
    assert!(body.iter().enumerate().all(|(i, c)| i == 2 || i == 5 || c.is_ascii_digit()));
    let hours: u32 = std::str::from_utf8(&body[0..2]).unwrap().parse().unwrap();
    assert!(hours < 24);
}
