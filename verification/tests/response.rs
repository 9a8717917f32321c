use cello::http::{Response, ResponseBody};
use cello::response::{parse_accept, parse_range_header, pick_media_type};

#[test]
fn test_parse_range_header() {
    assert_eq!(parse_range_header("bytes=0-499", 1000), Ok((0, 499)));
    assert_eq!(parse_range_header("bytes=500-", 1000), Ok((500, 999)));
    assert_eq!(parse_range_header("bytes=-100", 1000), Ok((900, 999)));
    assert!(parse_range_header("bytes=500-400", 1000).is_err());
    assert!(parse_range_header("invalid", 1000).is_err());
}

#[test]
fn test_parse_range_header_zero_length_file() {
    assert!(parse_range_header("bytes=0-", 0).is_err());
    assert!(parse_range_header("bytes=-100", 0).is_err());
    assert!(parse_range_header("bytes=0-0", 0).is_err());
}

#[test]
fn test_parse_range_header_out_of_bounds() {
    assert!(parse_range_header("bytes=0-1000", 1000).is_err());
    assert!(parse_range_header("bytes=1000-1001", 1000).is_err());
}

#[test]
fn range_header_error_messages() {
    assert_eq!(parse_range_header("items=0-1", 10), Err("Invalid range header format".to_string()));
    assert_eq!(parse_range_header("bytes=0-1-2", 10), Err("Invalid range format".to_string()));
    assert_eq!(parse_range_header("bytes=-x", 10), Err("Invalid suffix range".to_string()));
    assert_eq!(parse_range_header("bytes=a-1", 10), Err("Invalid start range".to_string()));
    assert_eq!(parse_range_header("bytes=1-b", 10), Err("Invalid end range".to_string()));
    assert_eq!(parse_range_header("bytes=0-", 0), Err("Range not satisfiable".to_string()));
    assert_eq!(parse_range_header("  bytes=-50  ", 10), Ok((0, 9)));
    assert_eq!(parse_range_header("bytes=+2-+3", 10), Ok((2, 3)));
}

#[test]
fn test_response_body_types() {
    let mut resp = Response::new(200);
    assert!(matches!(resp.body_type(), ResponseBody::Empty));

    resp.set_body(b"hello".to_vec());
    assert!(matches!(resp.body_type(), ResponseBody::Bytes(_)));

    resp.set_streaming();
    assert!(resp.is_streaming());

    let mut resp2 = Response::new(200);
    resp2.set_chunked();
    assert!(resp2.is_chunked());
    assert_eq!(resp2.get_header("Transfer-Encoding").as_deref(), Some("chunked"));
}

#[test]
fn constructors_set_type_and_status() {
    let t = Response::text("hi", None);
    assert_eq!(t.status, 200);
    assert_eq!(t.body(), b"hi".to_vec());
    assert_eq!(t.get_header("Content-Type").as_deref(), Some("text/plain; charset=utf-8"));
    let h = Response::html("<p>é</p>", Some(201));
    assert_eq!(h.status, 201);
    assert_eq!(h.content_length(), "<p>é</p>".len());
    let b = Response::binary(vec![1, 2, 3], None, None);
    assert_eq!(b.content_type, "application/octet-stream");
    let r = Response::redirect("/new", Some(true));
    assert_eq!(r.status, 301);
    assert_eq!(r.get_header("Location").as_deref(), Some("/new"));
    assert_eq!(Response::redirect("/tmp", None).status, 302);
    assert_eq!(Response::no_content().status, 204);
    assert_eq!(Response::not_found("x").status, 404);
    assert_eq!(Response::from_json_bytes(b"{}".to_vec(), 202).body_bytes(), b"{}");
}

#[test]
fn file_responses() {
    let f = Response::file_from_bytes("/srv/files/report.pdf", vec![0u8; 5], None, None);
    assert_eq!(f.content_type, "application/pdf");
    assert_eq!(
        f.get_header("Content-Disposition").as_deref(),
        Some("attachment; filename=\"report.pdf\"")
    );
    assert_eq!(f.get_header("Content-Length").as_deref(), Some("5"));
    let s = Response::sendfile_sized("/a/b.txt", 42, Some("text/x"));
    assert!(s.is_file());
    assert_eq!(s.get_header("Content-Length").as_deref(), Some("42"));
    let r = Response::file_range_sized("/a/b.bin", 1000, "bytes=100-199", None).unwrap();
    assert_eq!(r.status, 206);
    assert_eq!(r.get_header("Content-Range").as_deref(), Some("bytes 100-199/1000"));
    assert_eq!(r.get_header("X-Sendfile-Length").as_deref(), Some("100"));
    assert_eq!(r.get_header("X-Sendfile-Offset").as_deref(), Some("100"));
    assert!(Response::file_range_sized("/a/b.bin", 10, "bytes=5-20", None).is_err());
}

#[test]
fn accept_header_pieces() {
    let entries = parse_accept("text/html, application/json;q=0.9;level=1, */*; q = 1 ;q=0.1");
    assert_eq!(entries.len(), 3);
    assert_eq!(entries[0].media_type, "text/html");
    assert!(entries[0].q_values.is_empty());
    assert_eq!(entries[1].media_type, "application/json");
    assert_eq!(entries[1].q_values, vec!["0.9".to_string()]);
    assert_eq!(entries[2].media_type, "*/*");
    assert_eq!(entries[2].q_values, vec!["0.1".to_string()]);
}

#[test]
fn media_type_choice() {
    let available = vec!["application/json", "text/html", "text/plain"];
    let pick = |ms: &[&str]| pick_media_type(&ms.iter().map(|s| s.to_string()).collect(), &available);
    assert_eq!(pick(&["application/json"]), Some("application/json".to_string()));
    assert_eq!(pick(&["text/html", "application/json"]), Some("text/html".to_string()));
    assert_eq!(pick(&["*/*"]), Some("application/json".to_string()));
    assert_eq!(pick(&["text/*"]), Some("text/html".to_string()));
    assert_eq!(pick(&["image/png", "text/plain"]), Some("text/plain".to_string()));
    assert_eq!(pick(&["image/*"]), None);
    assert_eq!(pick_media_type(&vec!["*/*".to_string()], &vec![]), None);
}
