use es_client::error::{extract_index_from_error, parse_http_error, transport_error, ErrorDetails, ErrorType};

#[test]
fn test_connection_error() {
    let error = ErrorDetails::connection_failed("http://localhost:9200", Some("Connection refused".to_string()));
    assert_eq!(error.code, "CONNECTION_FAILED");
    assert_eq!(error.error_type, ErrorType::Connection);
    assert!(error.recoverable);
}

#[test]
fn test_index_not_found_error() {
    let error = ErrorDetails::index_not_found("test-index");
    assert_eq!(error.code, "INDEX_NOT_FOUND");
    assert_eq!(error.error_type, ErrorType::NotFound);
    assert!(!error.recoverable);
}

#[test]
fn test_parse_http_error() {
    let es_error_json = r#"{
            "error": {
                "type": "index_not_found_exception",
                "reason": "no such index [test-index]"
            }
        }"#;
    let error = parse_http_error(404, es_error_json);
    assert_eq!(error.error_type, ErrorType::NotFound);
    assert_eq!(error.code, "INDEX_NOT_FOUND");
    assert_eq!(error.message, "索引 'test-index' 不存在");
}

#[test]
fn envelope_types_map_to_classes() {
    let parsing = parse_http_error(400, r#"{"error":{"type":"parsing_exception","reason":"bad query"}}"#);
    assert_eq!(parsing.error_type, ErrorType::Validation);
    assert_eq!(parsing.code, "QUERY_SYNTAX_ERROR");
    assert_eq!(parsing.details.as_deref(), Some("bad query"));
    let security = parse_http_error(403, r#"{"error":{"type":"security_exception","reason":"denied"}}"#);
    assert_eq!(security.error_type, ErrorType::Authentication);
    let other = parse_http_error(500, r#"{"error":{"type":"boom","reason":"shard failure"}}"#);
    assert_eq!(other.error_type, ErrorType::ServerError);
    assert_eq!(other.details.as_deref(), Some("shard failure"));
}

#[test]
fn body_without_envelope_is_a_server_error() {
    let e = parse_http_error(502, "Bad Gateway");
    assert_eq!(e.code, "SERVER_ERROR");
    assert_eq!(e.details.as_deref(), Some("Bad Gateway"));
    assert!(e.recoverable);
    let unknown_index = parse_http_error(404, r#"{"error":{"type":"index_not_found_exception","reason":"gone"}}"#);
    assert_eq!(unknown_index.message, "索引 'unknown' 不存在");
}

#[test]
fn status_codes_map_to_codes() {
    let cases = [
        (400u16, "BAD_REQUEST", ErrorType::UnknownError, false),
        (401, "UNAUTHORIZED", ErrorType::Authentication, false),
        (403, "FORBIDDEN", ErrorType::Forbidden, false),
        (404, "NOT_FOUND", ErrorType::NotFound, false),
        (409, "CONFLICT", ErrorType::Conflict, false),
        (429, "RATE_LIMITED", ErrorType::RateLimited, true),
        (503, "SERVER_ERROR", ErrorType::ServerError, true),
        (418, "HTTP_ERROR", ErrorType::UnknownError, false),
    ];
    for (status, code, kind, recoverable) in cases {
        let e = ErrorDetails::server_error(status, String::new());
        assert_eq!(e.code, code);
        assert_eq!(e.error_type, kind);
        assert_eq!(e.recoverable, recoverable);
        assert_eq!(e.details, None);
    }
    assert_eq!(ErrorDetails::server_error(418, "x".to_string()).message, "HTTP 错误 418");
}

#[test]
fn timeout_details_name_the_limit() {
    let e = ErrorDetails::timeout_error("GET请求", 30000);
    assert_eq!(e.details.as_deref(), Some("操作在 30000ms 内未完成"));
    assert_eq!(e.message, "GET请求操作超时");
    assert_eq!(e.error_type, ErrorType::Timeout);
}

#[test]
fn free_text_is_classified_by_words() {
    assert_eq!(ErrorDetails::from_anyhow_error("tcp: Connection refused").error_type, ErrorType::Connection);
    assert_eq!(ErrorDetails::from_anyhow_error("request timeout").error_type, ErrorType::Timeout);
    assert_eq!(ErrorDetails::from_anyhow_error("could not parse body").error_type, ErrorType::Validation);
    assert_eq!(ErrorDetails::from_anyhow_error("HTTP 401").error_type, ErrorType::Authentication);
    let other = ErrorDetails::from_anyhow_error("disk full");
    assert_eq!(other.code, "UNKNOWN_ERROR");
    assert_eq!(other.details.as_deref(), Some("disk full"));
}

#[test]
fn validation_and_network_errors() {
    let v = ErrorDetails::validation_error("connection_id", "连接不存在");
    assert_eq!(v.message, "字段 'connection_id' 验证失败: 连接不存在");
    assert_eq!(v.code, "VALIDATION_ERROR");
    let n = ErrorDetails::network_error("reset".to_string());
    assert_eq!(n.error_type, ErrorType::Network);
    assert_eq!(n.to_string(), "网络连接错误: reset");
    let a = ErrorDetails::authentication_failed("bob");
    assert_eq!(a.message, "用户 bob 认证失败");
    let q = ErrorDetails::query_syntax_error("x".to_string());
    assert_eq!(q.code, "QUERY_SYNTAX_ERROR");
}

#[test]
fn index_name_is_read_from_message() {
    assert_eq!(extract_index_from_error("no such index [logs-2024]"), Some("logs-2024".to_string()));
    assert_eq!(extract_index_from_error("no such index [unterminated"), None);
    assert_eq!(extract_index_from_error("nothing here"), None);
    assert_eq!(extract_index_from_error("index [] empty"), Some(String::new()));
}

#[test]
fn validation_errors_are_not_recoverable() {
    assert!(!ErrorDetails::validation_error("f", "bad").recoverable);
    assert!(!ErrorDetails::query_syntax_error("x".to_string()).recoverable);
    assert!(!parse_http_error(400, r#"{"error":{"type":"parsing_exception","reason":"r"}}"#).recoverable);
}

#[test]
fn unanswered_requests_are_classified() {
    let t = transport_error(true, true, "GET请求", "http://h:9200", "deadline".to_string());
    assert_eq!(t.error_type, ErrorType::Timeout);
    let c = transport_error(false, true, "GET请求", "http://h:9200", "refused".to_string());
    assert_eq!(c.error_type, ErrorType::Connection);
    assert_eq!(c.message, "无法连接到 Elasticsearch 服务器 http://h:9200");
    assert_eq!(c.details.as_deref(), Some("refused"));
    let n = transport_error(false, false, "GET请求", "http://h:9200", "reset".to_string());
    assert_eq!(n.error_type, ErrorType::Network);
    assert!(n.recoverable);
}
