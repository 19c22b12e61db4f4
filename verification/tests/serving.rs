use php_dev_server::backend::{
    choose_mode, plan_backend, request_environment, BackendHandle, BackendStartError,
};
use php_dev_server::binary::PhpBinary;
use php_dev_server::config::{parse_port, resolve_serve_config, ConfigError};
use php_dev_server::version::{PhpServerSapi, PhpVersion};
use php_dev_server::proxy::{
    gateway_error_response, response_for_outcome, route_request, split_query, translate_output,
    BackendError, BackendOutcome, RouteTarget,
};

#[test]
fn url_splits_at_first_question_mark() {
    let (path, query) = split_query("/users?id=5");
    assert_eq!(path, "/users");
    assert_eq!(query, "id=5");

    let (path, query) = split_query("/style.css");
    assert_eq!(path, "/style.css");
    assert_eq!(query, "");

    let (path, query) = split_query("/a?b=1?c=2");
    assert_eq!(path, "/a");
    assert_eq!(query, "b=1?c=2");
}

#[test]
fn existing_static_file_bypasses_backend() {
    match route_request("/style.css", true, "index.php") {
        RouteTarget::StaticFile { rel_path } => assert_eq!(rel_path, "/style.css"),
        RouteTarget::Script { .. } => panic!("static file was routed to the backend"),
    }
}

#[test]
fn other_requests_run_passthru_with_query() {
    match route_request("/users?id=5", false, "index.php") {
        RouteTarget::Script { script, query } => {
            assert_eq!(script, "index.php");
            assert_eq!(query, "id=5");
        }
        RouteTarget::StaticFile { .. } => panic!("script request served statically"),
    }
}

#[test]
fn backend_output_becomes_response() {
    let resp = translate_output(
        "Content-Type: text/html\nX-Custom: a:b\n\n<html>body text</html>",
    )
    .unwrap();
    assert_eq!(resp.status, 200);
    assert_eq!(resp.headers.len(), 2);
    assert_eq!(resp.headers[0].0, "Content-Type");
    assert_eq!(resp.headers[0].1, "text/html");
    assert_eq!(resp.headers[1].0, "X-Custom");
    assert_eq!(resp.headers[1].1, "a:b");
    assert_eq!(resp.body, "<html>body text</html>");
}

#[test]
fn backend_output_with_crlf_and_status() {
    let resp = translate_output("Status: 404 Not Found\r\nContent-Type: text/plain\r\n\r\nmissing")
        .unwrap();
    assert_eq!(resp.status, 404);
    assert_eq!(resp.headers.len(), 2);
    assert_eq!(resp.body, "missing");
}

#[test]
fn malformed_backend_output_is_a_request_failure() {
    for bad in [
        "no header block at all",
        "NoColonHere\n\nbody",
        ": empty name\n\nbody",
        "Status: abc\n\nbody",
    ] {
        match translate_output(bad) {
            Err(BackendError::BackendRequestFailure) => {}
            Ok(_) => panic!("accepted malformed backend output: {:?}", bad),
        }
    }
}

#[test]
fn backend_timeout_becomes_gateway_error() {
    let resp = response_for_outcome(&BackendOutcome::TimedOut);
    assert_eq!(resp.status, 502);
    let resp = response_for_outcome(&BackendOutcome::Failed);
    assert_eq!(resp.status, 502);
    let resp = response_for_outcome(&BackendOutcome::Completed {
        output: "garbage with no header block".to_string(),
    });
    assert_eq!(resp.status, 502);
    assert_eq!(gateway_error_response().status, 502);
}

#[test]
fn completed_backend_passes_through() {
    let resp = response_for_outcome(&BackendOutcome::Completed {
        output: "Content-Type: text/css\n\nbody { color: red; }".to_string(),
    });
    assert_eq!(resp.status, 200);
    assert_eq!(resp.headers[0].1, "text/css");
    assert_eq!(resp.body, "body { color: red; }");
}

#[test]
fn port_parsing() {
    assert_eq!(parse_port("8000"), Some(8000));
    assert_eq!(parse_port("80"), Some(80));
    assert_eq!(parse_port("65535"), Some(65535));
    assert_eq!(parse_port("65536"), None);
    assert_eq!(parse_port("99999999999999"), None);
    assert_eq!(parse_port(""), None);
    assert_eq!(parse_port("80a"), None);
    assert_eq!(parse_port("-1"), None);
}

#[test]
fn serve_config_defaults() {
    let c = resolve_serve_config(None, false, None, None, "/work/project".to_string()).unwrap();
    assert_eq!(c.port, 8000);
    assert!(!c.daemon);
    assert_eq!(c.document_root, "/work/project");
    assert_eq!(c.passthru, "index.php");
}

#[test]
fn serve_config_explicit_values() {
    let c = resolve_serve_config(
        Some("8080".to_string()),
        true,
        Some("/srv/www".to_string()),
        Some("app.php".to_string()),
        "/work".to_string(),
    )
    .unwrap();
    assert_eq!(c.port, 8080);
    assert!(c.daemon);
    assert_eq!(c.document_root, "/srv/www");
    assert_eq!(c.passthru, "app.php");
}

#[test]
fn serve_config_rejects_bad_port() {
    let r = resolve_serve_config(
        Some("eighty".to_string()),
        false,
        None,
        None,
        "/work".to_string(),
    );
    assert!(matches!(r, Err(ConfigError::InvalidPort)));
}

#[test]
fn serving_mode_prefers_worker_manager() {
    let mut b = PhpBinary::from_version(PhpVersion { major: 7, minor: 4, patch: 10 });
    assert_eq!(choose_mode(&b), None);
    b.add_sapi(&PhpServerSapi::CLI, "/x/php");
    assert_eq!(choose_mode(&b), Some(PhpServerSapi::CLI));
    b.add_sapi(&PhpServerSapi::CGI, "/x/php-cgi");
    assert_eq!(choose_mode(&b), Some(PhpServerSapi::CGI));
    b.add_sapi(&PhpServerSapi::FPM, "/x/php-fpm");
    assert_eq!(choose_mode(&b), Some(PhpServerSapi::FPM));
}

#[test]
fn backend_plan_per_mode() {
    let mut b = PhpBinary::from_version(PhpVersion { major: 7, minor: 4, patch: 10 });
    b.add_sapi(&PhpServerSapi::FPM, "/x/php-fpm");
    b.add_sapi(&PhpServerSapi::CLI, "/x/php");
    match plan_backend(&b, &PhpServerSapi::FPM, 9000).unwrap() {
        BackendHandle::WorkerManager { executable, port } => {
            assert_eq!(executable, "/x/php-fpm");
            assert_eq!(port, 9000);
        }
        _ => panic!("worker-manager mode planned a different handle"),
    }
    match plan_backend(&b, &PhpServerSapi::CLI, 9000).unwrap() {
        BackendHandle::DirectInvocation { executable } => assert_eq!(executable, "/x/php"),
        _ => panic!("direct mode planned a different handle"),
    }
    match plan_backend(&b, &PhpServerSapi::CGI, 9000) {
        Err(BackendStartError::NoExecutableForMode) => {}
        Ok(_) => panic!("planned a backend with no executable for the mode"),
    }
}

#[test]
fn request_environment_carries_metadata() {
    let env = request_environment("GET", "id=5", "/root/index.php");
    assert_eq!(env.len(), 4);
    assert_eq!(env[0], ("GATEWAY_INTERFACE".to_string(), "CGI/1.1".to_string()));
    assert_eq!(env[1], ("SCRIPT_FILENAME".to_string(), "/root/index.php".to_string()));
    assert_eq!(env[2], ("QUERY_STRING".to_string(), "id=5".to_string()));
    assert_eq!(env[3], ("REQUEST_METHOD".to_string(), "GET".to_string()));
}
