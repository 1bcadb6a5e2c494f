use lly::cli::{parse_cli, select_mode, CliValue, Mode};
use lly::gateway::{
    content_length, failure_reply, header_content_length, header_step, is_header_end, reply_error,
    reply_status, request_args, request_target, response_head, route_name, status_reason, HeaderStep,
    Reply,
};

fn args(v: &[&str]) -> Vec<String> {
    v.iter().map(|s| s.to_string()).collect()
}

#[test]
fn request_line() {
    assert_eq!(request_target("POST /tts HTTP/1.1\r\n"), ("POST".to_string(), "/tts".to_string()));
    assert_eq!(request_target(""), (String::new(), "/".to_string()));
    assert_eq!(request_target("GET"), ("GET".to_string(), "/".to_string()));
}

#[test]
fn header_lines() {
    assert!(is_header_end("\r\n"));
    assert!(is_header_end("\n"));
    assert!(!is_header_end(" \r\n"));
    assert_eq!(header_content_length("Content-Length: 42\r\n"), Some(42));
    assert_eq!(header_content_length("CONTENT-LENGTH:7"), Some(7));
    assert_eq!(header_content_length("content-length: abc\r\n"), Some(0));
    assert_eq!(header_content_length("Host: example\r\n"), None);
    assert_eq!(header_content_length("X-Content-Length: 3"), None);
}

#[test]
fn last_content_length_wins() {
    assert_eq!(content_length(&args(&["Host: a\r\n", "Content-Length: 5\r\n", "Content-Length: 9\r\n", "Accept: */*\r\n"])), 9);
    assert_eq!(content_length(&args(&["Host: a\r\n"])), 0);
    assert_eq!(content_length(&args(&[])), 0);
}

#[test]
fn routes() {
    assert_eq!(route_name("/tts"), "tts");
    assert_eq!(route_name("//file"), "file");
    assert_eq!(route_name("/"), "");
    assert_eq!(route_name("x/y"), "x/y");
}

#[test]
fn response_heads() {
    assert_eq!(
        response_head(200, 17),
        "HTTP/1.1 200 OK\r\nContent-Type: application/json\r\nContent-Length: 17\r\nConnection: close\r\n\r\n"
    );
    assert_eq!(status_reason(400), "Bad Request");
    assert_eq!(status_reason(404), "Not Found");
    assert_eq!(status_reason(500), "Internal Server Error");
    assert!(response_head(404, 0).starts_with("HTTP/1.1 404 Not Found\r\n"));
}

#[test]
fn replies() {
    assert_eq!(reply_status(&Reply::Done), 200);
    assert_eq!(reply_status(&Reply::BadBody("e".into())), 400);
    assert_eq!(reply_status(&Reply::InvalidArgs("e".into())), 400);
    assert_eq!(reply_error(&Reply::InvalidArgs("参数错误: 缺少必填参数: text".into())), Some("参数错误: 缺少必填参数: text".to_string()));
    assert_eq!(reply_status(&failure_reply(true, "x".into())), 400);
    assert_eq!(reply_status(&failure_reply(false, "x".into())), 500);
    assert_eq!(reply_error(&failure_reply(false, "boom".into())), Some("boom".to_string()));
    assert_eq!(reply_status(&Reply::Failed("e".into())), 500);
    assert_eq!(reply_status(&Reply::UnknownTool("x".into())), 404);
    assert_eq!(reply_error(&Reply::Done), None);
    assert_eq!(reply_error(&Reply::BadBody("eof".into())), Some("body 非 JSON: eof".to_string()));
    assert_eq!(reply_error(&Reply::Failed("boom".into())), Some("boom".to_string()));
    assert_eq!(reply_error(&Reply::UnknownTool("zz".into())), Some("未知工具: zz".to_string()));
}

#[test]
fn cli_pairs() {
    let (name, entries) = parse_cli(&args(&["tts", "--text", "你好", "stray", "--n", "5", "--neg", "-3", "--t", "true", "--f", "false", "--x", "1.5", "--flag"]));
    assert_eq!(name, "tts");
    let view: Vec<(String, String)> = entries.iter().map(|(k, v)| (k.clone(), format!("{:?}", v))).collect();
    assert_eq!(
        view,
        vec![
            ("text".to_string(), format!("{:?}", CliValue::Text("你好".into()))),
            ("n".to_string(), format!("{:?}", CliValue::Int(5))),
            ("neg".to_string(), format!("{:?}", CliValue::Int(-3))),
            ("t".to_string(), format!("{:?}", CliValue::Bool(true))),
            ("f".to_string(), format!("{:?}", CliValue::Bool(false))),
            ("x".to_string(), format!("{:?}", CliValue::Text("1.5".into()))),
            ("flag".to_string(), format!("{:?}", CliValue::Bool(true))),
        ]
    );
    let (name, entries) = parse_cli(&args(&[]));
    assert_eq!(name, "");
    assert!(entries.is_empty());
    let (_, entries) = parse_cli(&args(&["file", "--path", "--action"]));
    assert_eq!(entries.len(), 1);
    assert_eq!(entries[0].0, "path");
    assert!(matches!(&entries[0].1, CliValue::Text(t) if t == "--action"));
}

#[test]
fn modes() {
    assert_eq!(select_mode(&args(&["--list", "--mcp"])), Mode::Mcp);
    assert_eq!(select_mode(&args(&["--list"])), Mode::List);
    assert_eq!(select_mode(&args(&["--serve", "8080"])), Mode::Serve(8080));
    assert_eq!(select_mode(&args(&["--serve"])), Mode::Serve(9901));
    assert_eq!(select_mode(&args(&["--serve", "abc", "--serve", "1"])), Mode::Serve(9901));
    assert_eq!(select_mode(&args(&["--serve", "70000"])), Mode::Serve(9901));
    assert_eq!(select_mode(&args(&["tts", "--text", "x"])), Mode::Run);
    assert_eq!(select_mode(&args(&[])), Mode::Run);
}

#[test]
fn request_bodies() {
    assert!(matches!(request_args(b""), Ok(None)));
    match request_args(b"{\"text\": \"hi\"}") {
        Ok(Some(v)) => assert_eq!(v, value(r#"{"text": "hi"}"#)),
        _ => panic!("body refused"),
    }
    match request_args(b"{nope") {
        Err(Reply::BadBody(m)) => assert!(!m.is_empty()),
        _ => panic!("bad body accepted"),
    }
}

#[test]
fn header_steps() {
    assert_eq!(header_step(false, "Host: a\r\n"), HeaderStep::End);
    assert_eq!(header_step(true, "\r\n"), HeaderStep::End);
    assert_eq!(header_step(true, "\n"), HeaderStep::End);
    assert_eq!(header_step(true, ""), HeaderStep::Idle);
    assert_eq!(header_step(true, "Host: a\r\n"), HeaderStep::Keep);
}

fn value(text: &str) -> serde_json::Value {
    serde_json::from_str(text).unwrap()
}
