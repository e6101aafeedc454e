use cunzhi::web_text::{read_dialog_http_answer, try_decode_chunked_body};
use cunzhi::web_text::{fetched_page_content, truncate_page_text};
use cunzhi::web_text::{
    decode_chunked_body, dialog_http_request, dialog_response_body, search_in_sections,
    strip_html_tags, truncate_for_error,
};

#[test]
fn html_keeps_text_and_breaks_lines() {
    let html = "<html><head><style>p{}</style><script>var x = 1;</script></head>\n<body><h1>Title</h1><p>One <b>two</b></p>\n\n\n<div>three</div><br/>  four  </body></html>";
    assert_eq!(strip_html_tags(html), "Title\n\nOne two\n\nthree\n\nfour");
    assert_eq!(strip_html_tags("<P>Upper</P><SCRIPT>hidden</SCRIPT>shown"), "Upper\nshown");
    assert_eq!(strip_html_tags("plain"), "plain");
    assert_eq!(strip_html_tags(""), "");
}

#[test]
fn sections_are_found_by_any_word() {
    let content = "# Notes\nintro line\n## Rust tips\nuse cargo\n## Other\nnothing here";
    let found = search_in_sections(content, "CARGO missing");
    assert_eq!(found, vec!["## Rust tips\nRust tips\nuse cargo".to_string()]);
    let first = search_in_sections(content, "intro");
    assert_eq!(first, vec!["Notes\n# Notes\nintro line".to_string()]);
    assert!(search_in_sections(content, "   ").is_empty());
    let long: String = (0..20).map(|i| format!("line {}\n", i)).collect();
    let hit = search_in_sections(&format!("# T\n{}", long), "line");
    assert!(hit[0].ends_with("line 13\n..."));
    let many: String = (0..10).map(|i| format!("\n## s{} key", i)).collect();
    assert_eq!(search_in_sections(&many, "key").len(), 8);
}

#[test]
fn long_values_are_cut_for_errors() {
    assert_eq!(truncate_for_error("abcdef", 3), "abc...");
    assert_eq!(truncate_for_error("abc", 3), "abc");
    assert_eq!(truncate_for_error("日本語です", 2), "日本...");
}

#[test]
fn chunked_bodies_are_decoded() {
    assert_eq!(decode_chunked_body("4\r\nWiki\r\n5\r\npedia\r\n0\r\n\r\n"), "Wikipedia");
    assert_eq!(decode_chunked_body("  A\r\n0123456789\r\n0\r\n"), "0123456789");
    assert_eq!(decode_chunked_body("10\r\nshort"), "short");
    assert_eq!(decode_chunked_body("zz\r\nabc"), "");
    assert_eq!(decode_chunked_body(""), "");
    assert_eq!(decode_chunked_body("3\r\n日"), "日");
}

#[test]
fn the_dialog_answer_is_read() {
    assert_eq!(
        dialog_response_body("HTTP/1.1 200 OK\r\nContent-Type: application/json\r\n\r\n{\"a\":1}").unwrap(),
        "{\"a\":1}"
    );
    assert_eq!(
        dialog_response_body("HTTP/1.1 200 OK\r\nTransfer-Encoding: Chunked\r\n\r\n3\r\n{}!\r\n0\r\n\r\n").unwrap(),
        "{}!"
    );
    assert_eq!(
        dialog_response_body("HTTP/1.1 500 Internal Server Error\r\n\r\n").unwrap_err(),
        "iterate 服务器返回错误: HTTP/1.1 500 Internal Server Error"
    );
    assert_eq!(dialog_response_body("garbage").unwrap_err(), "解析 HTTP 响应失败");
    assert_eq!(
        dialog_http_request("{\"m\":\"é\"}"),
        "POST /api/dialog HTTP/1.1\r\nHost: 127.0.0.1\r\nContent-Type: application/json\r\nContent-Length: 10\r\nConnection: close\r\n\r\n{\"m\":\"é\"}"
    );
}

#[test]
fn fetched_pages_are_cut_after_their_byte_limit() {
    assert_eq!(
        fetched_page_content("abcdef", "text/plain", 3).as_deref(),
        Some("abc\n\n--- 内容已截断（共 6 字符，显示前 3 字符）---")
    );
    assert_eq!(fetched_page_content("abc", "text/plain", 3).as_deref(), Some("abc"));
    assert_eq!(
        fetched_page_content("éa", "text/plain", 2).as_deref(),
        Some("é\n\n--- 内容已截断（共 3 字符，显示前 2 字符）---")
    );
    assert_eq!(fetched_page_content("éa", "text/plain", 1), None);
    assert_eq!(truncate_page_text("hello".to_string(), 10), "hello");
}

#[test]
fn fetched_html_pages_become_plain_text() {
    let html = "<html><body><p>Hello</p><script>x()</script></body></html>";
    assert_eq!(
        fetched_page_content(html, "text/html; charset=utf-8", 1000),
        Some(cunzhi::web_text::strip_html_tags(html))
    );
    assert_eq!(fetched_page_content(html, "text/plain", 1000).as_deref(), Some(html));
}

#[test]
fn dialog_answers_with_undecodable_chunks_are_told_apart() {
    assert_eq!(try_decode_chunked_body("3\r\nabc\r\n0\r\n\r\n"), Some("abc".to_string()));
    assert_eq!(try_decode_chunked_body("1\r\né\r\n0\r\n\r\n"), None);
    assert_eq!(try_decode_chunked_body("5"), None);
    let ok = "HTTP/1.1 200 OK\r\nTransfer-Encoding: chunked\r\n\r\n2\r\n{}\r\n0\r\n\r\n";
    assert_eq!(read_dialog_http_answer(ok), Some(Ok("{}".to_string())));
    let bad = "HTTP/1.1 200 OK\r\nTransfer-Encoding: chunked\r\n\r\n1\r\né\r\n0\r\n\r\n";
    assert_eq!(read_dialog_http_answer(bad), None);
    assert_eq!(
        read_dialog_http_answer("HTTP/1.1 500 Internal\r\n\r\n"),
        Some(Err("iterate 服务器返回错误: HTTP/1.1 500 Internal".to_string()))
    );
}
