use nebula::config::{config_or_default, ContentConfig, NebulaConfig, ServerConfig};
use nebula::content_type::get_content_type;
use nebula::request::{parse_http_request, parse_or_default};
use nebula::response::{
    build_response, candidate_path, classify_request, is_binary, outcome_for, render_head,
    status_line, Action, Status,
};
use nebula::sanitize::sanitize_path;
use nebula::text::{str_eq, str_starts_with};

fn test_config() -> NebulaConfig {
    NebulaConfig {
        server: ServerConfig {
            address: "127.0.0.1".to_string(),
            port: 7878,
        },
        content: ContentConfig {
            public_dir: "public".to_string(),
            default_file: "index.html".to_string(),
        },
    }
}

#[test]
fn sanitize_neutralizes_traversal() {
    assert_eq!(sanitize_path("/../../etc/passwd"), "etc/passwd");
    assert_eq!(sanitize_path("/a/./b/../c"), "a/b/c");
    assert_eq!(sanitize_path("////"), "");
}

#[test]
fn sanitize_plain_paths() {
    assert_eq!(sanitize_path("/index.html"), "index.html");
    assert_eq!(sanitize_path("abc"), "abc");
    assert_eq!(sanitize_path("a//b"), "a/b");
    assert_eq!(sanitize_path("."), "");
    assert_eq!(sanitize_path(".."), "");
    assert_eq!(sanitize_path(""), "");
    assert_eq!(sanitize_path("a/..b/c"), "a/..b/c");
}

#[test]
fn sanitize_is_idempotent_on_samples() {
    for raw in [
        "/../../etc/passwd",
        "/a/./b/../c",
        "////",
        "/images//./photo.png",
        "..",
        "weird/../../../x",
    ] {
        let once = sanitize_path(raw);
        let twice = sanitize_path(&once);
        assert_eq!(twice, once);
    }
}

#[test]
fn content_type_known_table() {
    assert_eq!(get_content_type("index.html"), "text/html");
    assert_eq!(get_content_type("style.css"), "text/css");
    assert_eq!(get_content_type("app.js"), "application/javascript");
    assert_eq!(get_content_type("data.json"), "application/json");
    assert_eq!(get_content_type("image.png"), "image/png");
    assert_eq!(get_content_type("photo.jpg"), "image/jpeg");
    assert_eq!(get_content_type("photo.jpeg"), "image/jpeg");
    assert_eq!(get_content_type("anim.gif"), "image/gif");
    assert_eq!(get_content_type("icon.svg"), "image/svg+xml");
    assert_eq!(get_content_type("favicon.ico"), "image/x-icon");
    assert_eq!(get_content_type("doc.pdf"), "application/pdf");
    assert_eq!(get_content_type("notes.txt"), "text/plain");
    assert_eq!(get_content_type("feed.xml"), "application/xml");
    assert_eq!(get_content_type("pic.webp"), "image/webp");
}

#[test]
fn content_type_defaults_to_text_plain() {
    assert_eq!(get_content_type("archive.xyz"), "text/plain");
    assert_eq!(get_content_type("no_extension"), "text/plain");
    assert_eq!(get_content_type(""), "text/plain");
    assert_eq!(get_content_type(".gitignore"), "text/plain");
    assert_eq!(get_content_type("trailing."), "text/plain");
    assert_eq!(get_content_type("case.HTML"), "text/plain");
}

#[test]
fn content_type_reads_extension_after_leading_dot() {
    assert_eq!(get_content_type(".html"), "text/html");
    assert_eq!(get_content_type("public/.png"), "image/png");
}

#[test]
fn content_type_uses_final_segment() {
    assert_eq!(get_content_type("public/site.html"), "text/html");
    assert_eq!(get_content_type("a.png/readme"), "text/plain");
    assert_eq!(get_content_type("dir.d/archive.tar.gz"), "text/plain");
    assert_eq!(get_content_type("public/img/logo.png"), "image/png");
}

#[test]
fn parse_extracts_method_and_path() {
    let raw = b"GET /index.html HTTP/1.1\r\nHost: localhost\r\n\r\n";
    let parsed = parse_http_request(raw);
    assert_eq!(parsed, Some(("GET", "/index.html")));
}

#[test]
fn parse_tolerates_extra_whitespace() {
    let raw = b"  POST   /submit  junk trailing";
    assert_eq!(parse_http_request(raw), Some(("POST", "/submit")));
}

#[test]
fn parse_needs_two_tokens() {
    assert_eq!(parse_http_request(b"GET"), None);
    assert_eq!(parse_http_request(b"GET \r\n/path"), None);
    assert_eq!(parse_http_request(b""), None);
    assert_eq!(parse_http_request(&[0u8; 1024]), None);
}

#[test]
fn parse_rejects_invalid_utf8() {
    assert_eq!(parse_http_request(&[0xFF, 0xFE, b'G', b'E', b'T']), None);
}

#[test]
fn parse_default_substitutes_root_get() {
    let (method, path) = parse_or_default(&[0xFF, 0xFE]);
    assert_eq!(method, "GET");
    assert_eq!(path, "/");
    let (method, path) = parse_or_default(b"DELETE /thing HTTP/1.1\r\n");
    assert_eq!(method, "DELETE");
    assert_eq!(path, "/thing");
}

#[test]
fn root_maps_to_default_file() {
    let config = test_config();
    assert_eq!(candidate_path("/", &config), "public/index.html");
}

#[test]
fn candidate_joins_sanitized_path() {
    let config = test_config();
    assert_eq!(candidate_path("/img/../logo.png", &config), "public/img/logo.png");
    assert_eq!(candidate_path("/../../etc/passwd", &config), "public/etc/passwd");
}

#[test]
fn binary_classification() {
    assert!(!is_binary("text/html"));
    assert!(!is_binary("text/plain"));
    assert!(!is_binary("application/javascript"));
    assert!(is_binary("image/png"));
    assert!(is_binary("application/json"));
    assert!(is_binary("application/pdf"));
}

#[test]
fn hello_route_answers_when_file_missing() {
    let action = classify_request("GET", "/hello", false, "text/plain");
    assert_eq!(action, Action::Hello);
    let (head, body) = build_response(action, None, "text/plain");
    assert_eq!(body, b"Hello, Rustacean!".to_vec());
    assert_eq!(
        head,
        "HTTP/1.1 200 OK\r\nContent-Type: text/plain\r\nContent-Length: 17\r\n\r\n"
    );
}

#[test]
fn existing_file_shadows_hello_route() {
    let action = classify_request("GET", "/hello", true, "text/plain");
    assert_eq!(action, Action::ServeFile { binary: false });
}

#[test]
fn missing_file_yields_not_found() {
    let action = classify_request("GET", "/nope", false, "text/plain");
    assert_eq!(action, Action::NotFound);
    let (head, body) = build_response(action, None, "text/plain");
    assert_eq!(body, b"Page not found".to_vec());
    assert_eq!(
        head,
        "HTTP/1.1 404 NOT FOUND\r\nContent-Type: text/plain\r\nContent-Length: 14\r\n\r\n"
    );
}

#[test]
fn non_get_is_refused_whatever_exists() {
    for exists in [false, true] {
        let action = classify_request("POST", "/anything", exists, "text/plain");
        assert_eq!(action, Action::MethodNotAllowed);
        let (head, body) = build_response(action, None, "text/plain");
        assert_eq!(body, b"Method not allowed".to_vec());
        assert!(head.starts_with("HTTP/1.1 405 METHOD NOT ALLOWED\r\n"));
    }
}

#[test]
fn binary_body_round_trips_untouched() {
    let png: Vec<u8> = vec![
        0x89, 0x50, 0x4E, 0x47, 0x0D, 0x0A, 0x1A, 0x0A, 0x00, 0x00, 0x00, 0x0D, 0x49, 0x48,
        0x44, 0x52, 0xFF, 0x00, 0x7F,
    ];
    let content_type = get_content_type("public/image.png");
    assert_eq!(content_type, "image/png");
    let action = classify_request("GET", "/image.png", true, content_type);
    assert_eq!(action, Action::ServeFile { binary: true });
    let (head, body) = build_response(action, Some(png.clone()), content_type);
    assert_eq!(body, png);
    assert_eq!(
        head,
        "HTTP/1.1 200 OK\r\nContent-Type: image/png\r\nContent-Length: 19\r\n\r\n"
    );
}

#[test]
fn failed_read_degrades_to_server_error() {
    let action = Action::ServeFile { binary: false };
    let outcome = outcome_for(action, None);
    assert_eq!(outcome.status, Status::ServerError);
    assert_eq!(outcome.body, b"Error reading file".to_vec());
    let (head, body) = build_response(action, None, "text/html");
    assert_eq!(body, b"Error reading file".to_vec());
    assert!(head.starts_with("HTTP/1.1 500 INTERNAL SERVER ERROR\r\n"));
}

#[test]
fn quirk_content_type_follows_candidate_even_on_404() {
    let (head, _) = build_response(Action::NotFound, None, "image/png");
    assert_eq!(
        head,
        "HTTP/1.1 404 NOT FOUND\r\nContent-Type: image/png\r\nContent-Length: 14\r\n\r\n"
    );
}

#[test]
fn config_falls_back_to_defaults() {
    let config = config_or_default(None);
    assert_eq!(config.server.address, "127.0.0.1");
    assert_eq!(config.server.port, 7878);
    assert_eq!(config.content.public_dir, "public");
    assert_eq!(config.content.default_file, "index.html");
}

#[test]
fn config_keeps_parsed_values() {
    let parsed = NebulaConfig {
        server: ServerConfig {
            address: "0.0.0.0".to_string(),
            port: 8080,
        },
        content: ContentConfig {
            public_dir: "www".to_string(),
            default_file: "home.html".to_string(),
        },
    };
    let config = config_or_default(Some(parsed));
    assert_eq!(config.server.address, "0.0.0.0");
    assert_eq!(config.server.port, 8080);
    assert_eq!(config.content.public_dir, "www");
    assert_eq!(config.content.default_file, "home.html");
}

#[test]
fn status_lines_are_fixed() {
    assert_eq!(status_line(Status::Success), "HTTP/1.1 200 OK");
    assert_eq!(status_line(Status::NotFound), "HTTP/1.1 404 NOT FOUND");
    assert_eq!(
        status_line(Status::MethodNotAllowed),
        "HTTP/1.1 405 METHOD NOT ALLOWED"
    );
    assert_eq!(
        status_line(Status::ServerError),
        "HTTP/1.1 500 INTERNAL SERVER ERROR"
    );
}

#[test]
fn head_carries_exact_content_length() {
    assert_eq!(
        render_head(Status::Success, "text/html", 0),
        "HTTP/1.1 200 OK\r\nContent-Type: text/html\r\nContent-Length: 0\r\n\r\n"
    );
    assert_eq!(
        render_head(Status::Success, "text/html", 1024),
        "HTTP/1.1 200 OK\r\nContent-Type: text/html\r\nContent-Length: 1024\r\n\r\n"
    );
    assert_eq!(
        render_head(Status::NotFound, "image/gif", 107),
        "HTTP/1.1 404 NOT FOUND\r\nContent-Type: image/gif\r\nContent-Length: 107\r\n\r\n"
    );
}

#[test]
fn text_helpers() {
    assert!(str_eq("abc", "abc"));
    assert!(!str_eq("abc", "abd"));
    assert!(!str_eq("abc", "ab"));
    assert!(str_starts_with("text/html", "text/"));
    assert!(!str_starts_with("application/json", "text/"));
    assert!(!str_starts_with("te", "text/"));
}
