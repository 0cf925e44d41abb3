//! The structured error taxonomy reported to the user, and the reading of the
//! error envelope that Elasticsearch sends back.

use vstd::prelude::*;
use vstd::string::*;
use crate::json::{json_get, json_str, parse_json, parsed_json, Json};
use crate::text::{chars_of, decimal, decimal_text, find_from, first_at, string_of, contains_seq, contains_text};

verus! {

/// The class of a failure.
#[derive(Debug, Clone, Copy, PartialEq, Eq, Structural)]
pub enum ErrorType {
    Connection,
    Authentication,
    Network,
    Validation,
    NotFound,
    ServerError,
    Timeout,
    RateLimited,
    Conflict,
    Forbidden,
    UnknownError,
}

/// A failure as shown to the user: a stable code, a message, optional raw
/// details and a remediation hint, and whether retrying may help.
#[derive(Debug, Clone)]
pub struct ErrorDetails {
    pub error_type: ErrorType,
    pub code: String,
    pub message: String,
    pub details: Option<String>,
    pub suggestion: Option<String>,
    pub recoverable: bool,
}

/// The content of an [`ErrorDetails`], with texts as character sequences.
pub struct ErrorView {
    pub error_type: ErrorType,
    pub code: Seq<char>,
    pub message: Seq<char>,
    pub details: Option<Seq<char>>,
    pub suggestion: Option<Seq<char>>,
    pub recoverable: bool,
}

/// The characters of an optional text.
pub open spec fn opt_text(o: Option<String>) -> Option<Seq<char>> {
    match o {
        Some(s) => Some(s@),
        None => None,
    }
}

impl View for ErrorDetails {
    type V = ErrorView;

    open spec fn view(&self) -> ErrorView {
        ErrorView {
            error_type: self.error_type,
            code: self.code@,
            message: self.message@,
            details: opt_text(self.details),
            suggestion: opt_text(self.suggestion),
            recoverable: self.recoverable,
        }
    }
}

pub open spec fn connection_failed_view(url: Seq<char>, details: Option<Seq<char>>) -> ErrorView {
    ErrorView {
        error_type: ErrorType::Connection,
        code: "CONNECTION_FAILED"@,
        message: "无法连接到 Elasticsearch 服务器 "@ + url,
        details: details,
        suggestion: Some("请检查服务器地址和网络连接，确保 Elasticsearch 服务正在运行"@),
        recoverable: true,
    }
}

pub open spec fn authentication_failed_view(username: Seq<char>) -> ErrorView {
    ErrorView {
        error_type: ErrorType::Authentication,
        code: "AUTH_FAILED"@,
        message: "用户 "@ + username + " 认证失败"@,
        details: None,
        suggestion: Some("请检查用户名和密码是否正确"@),
        recoverable: true,
    }
}

pub open spec fn index_not_found_view(index: Seq<char>) -> ErrorView {
    ErrorView {
        error_type: ErrorType::NotFound,
        code: "INDEX_NOT_FOUND"@,
        message: "索引 '"@ + index + "' 不存在"@,
        details: None,
        suggestion: Some("请确认索引名称正确，或先创建该索引"@),
        recoverable: false,
    }
}

pub open spec fn query_syntax_error_view(details: Seq<char>) -> ErrorView {
    ErrorView {
        error_type: ErrorType::Validation,
        code: "QUERY_SYNTAX_ERROR"@,
        message: "查询语法错误"@,
        details: Some(details),
        suggestion: Some("请检查 DSL 查询语法，确保符合 Elasticsearch 规范"@),
        recoverable: false,
    }
}

pub open spec fn timeout_error_view(operation: Seq<char>, timeout_ms: nat) -> ErrorView {
    ErrorView {
        error_type: ErrorType::Timeout,
        code: "OPERATION_TIMEOUT"@,
        message: operation + "操作超时"@,
        details: Some("操作在 "@ + decimal(timeout_ms) + "ms 内未完成"@),
        suggestion: Some("请尝试增加超时时间或简化查询条件"@),
        recoverable: true,
    }
}

pub open spec fn network_error_view(details: Seq<char>) -> ErrorView {
    ErrorView {
        error_type: ErrorType::Network,
        code: "NETWORK_ERROR"@,
        message: "网络连接错误"@,
        details: Some(details),
        suggestion: Some("请检查网络连接状态和防火墙设置"@),
        recoverable: true,
    }
}

pub open spec fn validation_error_view(field: Seq<char>, message: Seq<char>) -> ErrorView {
    ErrorView {
        error_type: ErrorType::Validation,
        code: "VALIDATION_ERROR"@,
        message: "字段 '"@ + field + "' 验证失败: "@ + message,
        details: None,
        suggestion: Some("请检查输入内容的格式和有效性"@),
        recoverable: false,
    }
}

/// The stable code for an HTTP status.
pub open spec fn status_code_name(status: u16) -> Seq<char> {
    if status == 400 {
        "BAD_REQUEST"@
    } else if status == 401 {
        "UNAUTHORIZED"@
    } else if status == 403 {
        "FORBIDDEN"@
    } else if status == 404 {
        "NOT_FOUND"@
    } else if status == 409 {
        "CONFLICT"@
    } else if status == 429 {
        "RATE_LIMITED"@
    } else if 500 <= status <= 599 {
        "SERVER_ERROR"@
    } else {
        "HTTP_ERROR"@
    }
}

/// The message for an HTTP status.
pub open spec fn status_message(status: u16) -> Seq<char> {
    if status == 400 {
        "请求参数错误"@
    } else if status == 401 {
        "未授权访问"@
    } else if status == 403 {
        "权限不足"@
    } else if status == 404 {
        "资源不存在"@
    } else if status == 409 {
        "资源冲突"@
    } else if status == 429 {
        "请求频率过高"@
    } else if 500 <= status <= 599 {
        "服务器内部错误"@
    } else {
        "HTTP 错误 "@ + decimal(status as nat)
    }
}

/// The remediation hint for an HTTP status.
pub open spec fn status_suggestion(status: u16) -> Seq<char> {
    if status == 400 {
        "请检查请求参数的格式和内容"@
    } else if status == 401 {
        "请检查认证信息或重新登录"@
    } else if status == 403 {
        "当前用户没有执行此操作的权限"@
    } else if status == 404 {
        "请确认资源路径和名称是否正确"@
    } else if status == 409 {
        "资源已存在或操作冲突，请检查后重试"@
    } else if status == 429 {
        "请稍后重试，或调整请求频率"@
    } else if 500 <= status <= 599 {
        "请稍后重试，如果问题持续请联系管理员"@
    } else {
        "请检查请求或稍后重试"@
    }
}

/// The class of failure for an HTTP status.
pub open spec fn status_error_type(status: u16) -> ErrorType {
    if status == 401 {
        ErrorType::Authentication
    } else if status == 403 {
        ErrorType::Forbidden
    } else if status == 404 {
        ErrorType::NotFound
    } else if status == 409 {
        ErrorType::Conflict
    } else if status == 429 {
        ErrorType::RateLimited
    } else if 500 <= status <= 599 {
        ErrorType::ServerError
    } else {
        ErrorType::UnknownError
    }
}

pub open spec fn server_error_view(status: u16, body: Seq<char>) -> ErrorView {
    ErrorView {
        error_type: status_error_type(status),
        code: status_code_name(status),
        message: status_message(status),
        details: if body.len() == 0 { None } else { Some(body) },
        suggestion: Some(status_suggestion(status)),
        recoverable: status == 429 || (500 <= status <= 599),
    }
}

pub open spec fn unknown_error_view(details: Seq<char>) -> ErrorView {
    ErrorView {
        error_type: ErrorType::UnknownError,
        code: "UNKNOWN_ERROR"@,
        message: "操作失败"@,
        details: Some(details),
        suggestion: Some("请查看详细错误信息，或联系管理员"@),
        recoverable: false,
    }
}

/// How a free-form failure text is classified, by the words it contains.
pub open spec fn classified_view(text: Seq<char>) -> ErrorView {
    if contains_seq(text, "Connection refused"@) || contains_seq(text, "connection failed"@) {
        connection_failed_view(Seq::empty(), Some(text))
    } else if contains_seq(text, "timeout"@) {
        timeout_error_view("请求"@, 30000)
    } else if contains_seq(text, "JSON"@) || contains_seq(text, "parse"@) {
        validation_error_view("JSON"@, text)
    } else if contains_seq(text, "authentication"@) || contains_seq(text, "401"@) {
        authentication_failed_view(Seq::empty())
    } else {
        unknown_error_view(text)
    }
}

/// A failure to reach the cluster at all: a timeout, a refused or failed
/// connection, or another network failure.
pub open spec fn transport_view(
    timed_out: bool,
    connect_failed: bool,
    operation: Seq<char>,
    url: Seq<char>,
    message: Seq<char>,
) -> ErrorView {
    if timed_out {
        timeout_error_view(operation, 30000)
    } else if connect_failed {
        connection_failed_view(url, Some(message))
    } else {
        network_error_view(message)
    }
}

/// The index name in a message of the form `... index [name] ...`.
pub open spec fn index_in_message(msg: Seq<char>) -> Option<Seq<char>> {
    match first_at(msg, "index ["@, 0) {
        Some(p) => match first_at(msg, "]"@, p + 7) {
            Some(q) => Some(msg.subrange(p + 7, q)),
            None => None,
        },
        None => None,
    }
}

/// A member of a JSON value that is a string.
pub open spec fn member_text(j: Json, key: Seq<char>) -> Option<Seq<char>> {
    match json_get(j, key) {
        Some(v) => json_str(v),
        None => None,
    }
}

/// The error for an HTTP failure whose error envelope `{"error": {...}}` has
/// been read: its `type` and its `reason` decide.
pub open spec fn envelope_view(status: u16, envelope: Json) -> ErrorView {
    let kind = match member_text(envelope, "type"@) {
        Some(t) => t,
        None => "unknown"@,
    };
    let reason = match member_text(envelope, "reason"@) {
        Some(t) => t,
        None => "未知错误"@,
    };
    if kind == "index_not_found_exception"@ {
        index_not_found_view(
            match index_in_message(reason) {
                Some(i) => i,
                None => "unknown"@,
            },
        )
    } else if kind == "parsing_exception"@ || kind == "query_parsing_exception"@ {
        query_syntax_error_view(reason)
    } else if kind == "security_exception"@ {
        authentication_failed_view(Seq::empty())
    } else {
        server_error_view(status, reason)
    }
}

/// The error for an HTTP failure with a status and a response body.
pub open spec fn http_error_view(status: u16, body: Seq<char>) -> ErrorView {
    match parsed_json(body) {
        Some(doc) => match json_get(doc, "error"@) {
            Some(envelope) => envelope_view(status, envelope),
            None => server_error_view(status, body),
        },
        None => server_error_view(status, body),
    }
}

fn text(s: &str) -> (r: String)
    ensures
        r@ == s@,
{
    String::from_str(s)
}

impl ErrorDetails {
    pub fn connection_failed(url: &str, details: Option<String>) -> (r: Self)
        ensures
            r@ == connection_failed_view(url@, opt_text(details)),
    {
        ErrorDetails {
            error_type: ErrorType::Connection,
            code: text("CONNECTION_FAILED"),
            message: text("无法连接到 Elasticsearch 服务器 ").concat(url),
            details,
            suggestion: Some(text("请检查服务器地址和网络连接，确保 Elasticsearch 服务正在运行")),
            recoverable: true,
        }
    }

    pub fn authentication_failed(username: &str) -> (r: Self)
        ensures
            r@ == authentication_failed_view(username@),
    {
        ErrorDetails {
            error_type: ErrorType::Authentication,
            code: text("AUTH_FAILED"),
            message: text("用户 ").concat(username).concat(" 认证失败"),
            details: None,
            suggestion: Some(text("请检查用户名和密码是否正确")),
            recoverable: true,
        }
    }

    pub fn index_not_found(index: &str) -> (r: Self)
        ensures
            r@ == index_not_found_view(index@),
    {
        ErrorDetails {
            error_type: ErrorType::NotFound,
            code: text("INDEX_NOT_FOUND"),
            message: text("索引 '").concat(index).concat("' 不存在"),
            details: None,
            suggestion: Some(text("请确认索引名称正确，或先创建该索引")),
            recoverable: false,
        }
    }

    pub fn query_syntax_error(details: String) -> (r: Self)
        ensures
            r@ == query_syntax_error_view(details@),
    {
        ErrorDetails {
            error_type: ErrorType::Validation,
            code: text("QUERY_SYNTAX_ERROR"),
            message: text("查询语法错误"),
            details: Some(details),
            suggestion: Some(text("请检查 DSL 查询语法，确保符合 Elasticsearch 规范")),
            recoverable: false,
        }
    }

    pub fn server_error(status: u16, body: String) -> (r: Self)
        ensures
            r@ == server_error_view(status, body@),
    {
        let (code, message, suggestion) = if status == 400 {
            ("BAD_REQUEST", text("请求参数错误"), "请检查请求参数的格式和内容")
        } else if status == 401 {
            ("UNAUTHORIZED", text("未授权访问"), "请检查认证信息或重新登录")
        } else if status == 403 {
            ("FORBIDDEN", text("权限不足"), "当前用户没有执行此操作的权限")
        } else if status == 404 {
            ("NOT_FOUND", text("资源不存在"), "请确认资源路径和名称是否正确")
        } else if status == 409 {
            ("CONFLICT", text("资源冲突"), "资源已存在或操作冲突，请检查后重试")
        } else if status == 429 {
            ("RATE_LIMITED", text("请求频率过高"), "请稍后重试，或调整请求频率")
        } else if 500 <= status && status <= 599 {
            ("SERVER_ERROR", text("服务器内部错误"), "请稍后重试，如果问题持续请联系管理员")
        } else {
            let number = decimal_text(status as u64);
            ("HTTP_ERROR", text("HTTP 错误 ").concat(number.as_str()), "请检查请求或稍后重试")
        };
        let error_type = if status == 401 {
            ErrorType::Authentication
        } else if status == 403 {
            ErrorType::Forbidden
        } else if status == 404 {
            ErrorType::NotFound
        } else if status == 409 {
            ErrorType::Conflict
        } else if status == 429 {
            ErrorType::RateLimited
        } else if 500 <= status && status <= 599 {
            ErrorType::ServerError
        } else {
            ErrorType::UnknownError
        };
        let details = if body.as_str().is_empty() { None } else { Some(body) };
        ErrorDetails {
            error_type,
            code: text(code),
            message,
            details,
            suggestion: Some(text(suggestion)),
            recoverable: status == 429 || (500 <= status && status <= 599),
        }
    }

    pub fn timeout_error(operation: &str, timeout_ms: u64) -> (r: Self)
        ensures
            r@ == timeout_error_view(operation@, timeout_ms as nat),
    {
        let number = decimal_text(timeout_ms);
        ErrorDetails {
            error_type: ErrorType::Timeout,
            code: text("OPERATION_TIMEOUT"),
            message: text(operation).concat("操作超时"),
            details: Some(text("操作在 ").concat(number.as_str()).concat("ms 内未完成")),
            suggestion: Some(text("请尝试增加超时时间或简化查询条件")),
            recoverable: true,
        }
    }

    pub fn network_error(details: String) -> (r: Self)
        ensures
            r@ == network_error_view(details@),
    {
        ErrorDetails {
            error_type: ErrorType::Network,
            code: text("NETWORK_ERROR"),
            message: text("网络连接错误"),
            details: Some(details),
            suggestion: Some(text("请检查网络连接状态和防火墙设置")),
            recoverable: true,
        }
    }

    pub fn validation_error(field: &str, message: &str) -> (r: Self)
        ensures
            r@ == validation_error_view(field@, message@),
    {
        ErrorDetails {
            error_type: ErrorType::Validation,
            code: text("VALIDATION_ERROR"),
            message: text("字段 '").concat(field).concat("' 验证失败: ").concat(message),
            details: None,
            suggestion: Some(text("请检查输入内容的格式和有效性")),
            recoverable: false,
        }
    }

    /// Classifies a free-form failure text by the words it contains.
    pub fn from_anyhow_error(error: &str) -> (r: Self)
        ensures
            r@ == classified_view(error@),
    {
        proof {
            reveal_strlit("");
        }
        if contains_text(error, "Connection refused") || contains_text(error, "connection failed") {
            Self::connection_failed("", Some(text(error)))
        } else if contains_text(error, "timeout") {
            Self::timeout_error("请求", 30000)
        } else if contains_text(error, "JSON") || contains_text(error, "parse") {
            Self::validation_error("JSON", error)
        } else if contains_text(error, "authentication") || contains_text(error, "401") {
            Self::authentication_failed("")
        } else {
            ErrorDetails {
                error_type: ErrorType::UnknownError,
                code: text("UNKNOWN_ERROR"),
                message: text("操作失败"),
                details: Some(text(error)),
                suggestion: Some(text("请查看详细错误信息，或联系管理员")),
                recoverable: false,
            }
        }
    }

    /// The message, followed by the details when there are any.
    pub fn to_string(&self) -> (r: String)
        ensures
            r@ == match self.details {
                Some(d) => self.message@ + ": "@ + d@,
                None => self.message@,
            },
    {
        let mut out = self.message.clone();
        match &self.details {
            Some(d) => {
                out.append(": ");
                out.append(d.as_str());
            },
            None => {},
        }
        out
    }
}

/// The error for a request that never got an answer; requests time out
/// after thirty seconds.
pub fn transport_error(timed_out: bool, connect_failed: bool, operation: &str, url: &str, message: String) -> (r:
    ErrorDetails)
    ensures
        r@ == transport_view(timed_out, connect_failed, operation@, url@, message@),
{
    if timed_out {
        ErrorDetails::timeout_error(operation, 30000)
    } else if connect_failed {
        ErrorDetails::connection_failed(url, Some(message))
    } else {
        ErrorDetails::network_error(message)
    }
}

/// The index name in a message of the form `... index [name] ...`.
pub fn extract_index_from_error(error_msg: &str) -> (r: Option<String>)
    ensures
        opt_text(r) == index_in_message(error_msg@),
{
    let cs = chars_of(error_msg);
    let opening = chars_of("index [");
    let closing = chars_of("]");
    proof {
        reveal_strlit("index [");
        assert(opening@.len() == 7);
    }
    match find_from(&cs, &opening, 0) {
        Some(p) => {
            assert(p + opening@.len() <= cs@.len());
            assert(cs@.len() == cs.len());
            let start: usize = p + 7;
            match find_from(&cs, &closing, start) {
                Some(q) => {
                    let inner = string_of(&cs.as_slice()[start..q]);
                    Some(inner)
                },
                None => None,
            }
        },
        None => None,
    }
}

/// The error for an HTTP failure with a status and a response body, read from
/// Elasticsearch's error envelope where the body holds one.
pub fn parse_http_error(status: u16, body: &str) -> (r: ErrorDetails)
    ensures
        r@ == http_error_view(status, body@),
{
    proof {
        reveal_strlit("");
    }
    let parsed = parse_json(body);
    if let Some(doc) = &parsed {
        if let Some(envelope) = doc.get("error") {
            let kind: &str = match envelope.get("type") {
                Some(t) => match t.as_str() {
                    Some(s) => s.as_str(),
                    None => "unknown",
                },
                None => "unknown",
            };
            let reason: &str = match envelope.get("reason") {
                Some(t) => match t.as_str() {
                    Some(s) => s.as_str(),
                    None => "未知错误",
                },
                None => "未知错误",
            };
            if crate::json::same_text(kind, "index_not_found_exception") {
                let index = match extract_index_from_error(reason) {
                    Some(i) => i,
                    None => text("unknown"),
                };
                return ErrorDetails::index_not_found(index.as_str());
            } else if crate::json::same_text(kind, "parsing_exception") || crate::json::same_text(
                kind,
                "query_parsing_exception",
            ) {
                return ErrorDetails::query_syntax_error(text(reason));
            } else if crate::json::same_text(kind, "security_exception") {
                return ErrorDetails::authentication_failed("");
            } else {
                return ErrorDetails::server_error(status, text(reason));
            }
        }
    }
    ErrorDetails::server_error(status, text(body))
}

} // verus!
