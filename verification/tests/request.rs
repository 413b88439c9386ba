use get_url::header::encode_headers;
use get_url::header::encode_line;
use get_url::header::encode_lines;
use get_url::iso_8859_1::encode_latin_1;
use get_url::iso_8859_1::latin_1_byte;
use get_url::text::copy_text;
use get_url::text::same_text;
use get_url::Error;
use get_url::Request;
use get_url::AGENT;

fn pairs(list: &[(&str, &str)]) -> Vec<(String, String)> {
    list.iter().map(|(name, value)| (name.to_string(), value.to_string())).collect()
}

/// Reads a header block back as the library's model of decoding does.
fn decode(block: &[u8]) -> Option<Vec<(String, String)>> {
    let mut headers = Vec::new();
    let mut rest = block;
    loop {
        let end = rest.windows(2).position(|pair| pair == b"\r\n")?;
        if end == 0 {
            return if rest.len() == 2 { Some(headers) } else { None };
        }
        let line = &rest[..end];
        let at = line.windows(2).position(|pair| pair == b": ")?;
        let name: String = line[..at].iter().map(|&b| b as char).collect();
        let value: String = line[at + 2..].iter().map(|&b| b as char).collect();
        headers.push((name, value));
        rest = &rest[end + 2..];
    }
}

#[test]
fn agent_is_product_and_version() {
    assert_eq!(AGENT, "get-url/0.1.0");
    let (product, version) = AGENT.split_once('/').unwrap();
    assert_eq!(product, "get-url");
    assert_eq!(version, "0.1.0");
}

#[test]
fn new_keeps_the_url_as_it_is() {
    assert_eq!(Request::new("http://example.org/a?b#c").url(), "http://example.org/a?b#c");
    assert_eq!(Request::new("not a url").url(), "not a url");
    assert_eq!(Request::new("").url(), "");
}

#[test]
fn new_seeds_accept() {
    let block = Request::new("http://example.org/").header_block().unwrap();
    assert_eq!(block, b"Accept: */*\r\nUser-Agent: get-url/0.1.0\r\n\r\n".to_vec());
}

#[test]
fn set_header_adds_at_the_end() {
    let mut request = Request::new("http://example.org/");
    request.set_header("X-Dummy", "value");
    let block = request.header_block().unwrap();
    assert_eq!(
        block,
        b"Accept: */*\r\nX-Dummy: value\r\nUser-Agent: get-url/0.1.0\r\n\r\n".to_vec()
    );
}

#[test]
fn set_header_replaces_in_place() {
    let mut request = Request::new("http://example.org/");
    request.set_header("X-Dummy", "one");
    request.set_header("Accept", "application/json");
    request.set_header("X-Dummy", "two");
    let block = request.header_block().unwrap();
    assert_eq!(
        block,
        b"Accept: application/json\r\nX-Dummy: two\r\nUser-Agent: get-url/0.1.0\r\n\r\n".to_vec()
    );
}

#[test]
fn set_header_chains() {
    let mut request = Request::new("http://example.org/");
    request.set_header("A", "1").set_header("B", "2").set_header("A", "3");
    let block = request.header_block().unwrap();
    assert_eq!(block, b"Accept: */*\r\nA: 3\r\nB: 2\r\nUser-Agent: get-url/0.1.0\r\n\r\n".to_vec());
}

#[test]
fn header_names_are_compared_exactly() {
    let request = Request::new("http://example.org/")
        .with_header("accept", "text/plain")
        .with_header("user-agent", "lower/1");
    assert_eq!(request.user_agent(), AGENT);
    let block = request.header_block().unwrap();
    assert_eq!(
        block,
        b"Accept: */*\r\naccept: text/plain\r\nuser-agent: lower/1\r\nUser-Agent: get-url/0.1.0\r\n\r\n"
            .to_vec()
    );
}

#[test]
fn with_header_does_what_set_header_does() {
    let built = Request::new("http://example.org/")
        .with_header("Accept", "application/json")
        .with_header("X-Dummy", "keiichi");
    let mut set = Request::new("http://example.org/");
    set.set_header("Accept", "application/json");
    set.set_header("X-Dummy", "keiichi");
    assert_eq!(built.url(), set.url());
    assert_eq!(built.header_block().unwrap(), set.header_block().unwrap());
}

#[test]
fn clone_is_independent() {
    let mut request = Request::new("http://example.org/");
    let copy = request.clone();
    request.set_header("X", "y");
    assert_eq!(copy.header_block().unwrap(), b"Accept: */*\r\nUser-Agent: get-url/0.1.0\r\n\r\n".to_vec());
}

#[test]
fn default_user_agent_is_agent() {
    let request = Request::new("http://example.org/").with_header("X-Dummy", "value");
    assert_eq!(request.user_agent(), AGENT);
    let headers = decode(&request.header_block().unwrap()).unwrap();
    let sent: Vec<&(String, String)> =
        headers.iter().filter(|(name, _)| name == "User-Agent").collect();
    assert_eq!(sent, vec![&("User-Agent".to_string(), AGENT.to_string())]);
}

#[test]
fn own_user_agent_wins() {
    let request = Request::new("http://example.org/").with_header("User-Agent", "custom/1");
    assert_eq!(request.user_agent(), "custom/1");
    assert_ne!(request.user_agent(), AGENT);
    let block = request.header_block().unwrap();
    assert_eq!(block, b"Accept: */*\r\nUser-Agent: custom/1\r\n\r\n".to_vec());
}

#[test]
fn own_user_agent_can_be_replaced() {
    let request = Request::new("http://example.org/")
        .with_header("User-Agent", "custom/1")
        .with_header("User-Agent", "custom/2");
    assert_eq!(request.user_agent(), "custom/2");
}

#[test]
fn latin_1_byte_is_the_code_point() {
    assert_eq!(latin_1_byte('A'), Some(0x41));
    assert_eq!(latin_1_byte('\0'), Some(0));
    assert_eq!(latin_1_byte('\u{ff}'), Some(0xff));
    assert_eq!(latin_1_byte('\u{100}'), None);
    assert_eq!(latin_1_byte('\u{10ffff}'), None);
}

#[test]
fn encode_latin_1_takes_code_points_up_to_255() {
    assert_eq!(encode_latin_1(""), Some(vec![]));
    assert_eq!(encode_latin_1("abc"), Some(vec![0x61, 0x62, 0x63]));
    assert_eq!(encode_latin_1("caf\u{e9}"), Some(vec![0x63, 0x61, 0x66, 0xe9]));
    assert_eq!(encode_latin_1("\u{ff}\u{0}"), Some(vec![0xff, 0x00]));
    assert_eq!(encode_latin_1("a\u{100}"), None);
    assert_eq!(encode_latin_1("\u{20ac}"), None);
}

#[test]
fn encode_line_is_name_colon_space_value_line_end() {
    assert_eq!(encode_line("Accept", "*/*").unwrap(), b"Accept: */*\r\n".to_vec());
    assert_eq!(encode_line("", "").unwrap(), b": \r\n".to_vec());
    assert_eq!(encode_line("N", "\u{e9}").unwrap(), vec![b'N', b':', b' ', 0xe9, b'\r', b'\n']);
}

#[test]
fn encode_line_names_the_string_that_does_not_fit() {
    assert_eq!(encode_line("N", "v\u{100}"), Err(Error::Encoding("v\u{100}".to_string())));
    assert_eq!(encode_line("N\u{100}", "v"), Err(Error::Encoding("N\u{100}".to_string())));
    assert_eq!(encode_line("N\u{100}", "v\u{101}"), Err(Error::Encoding("N\u{100}".to_string())));
}

#[test]
fn encode_headers_closes_with_an_empty_line() {
    assert_eq!(encode_headers(&pairs(&[])).unwrap(), b"\r\n".to_vec());
    assert_eq!(encode_lines(&pairs(&[])).unwrap(), Vec::<u8>::new());
    let headers = pairs(&[("Accept", "*/*"), ("X-Dummy", "value")]);
    assert_eq!(encode_lines(&headers).unwrap(), b"Accept: */*\r\nX-Dummy: value\r\n".to_vec());
    assert_eq!(encode_headers(&headers).unwrap(), b"Accept: */*\r\nX-Dummy: value\r\n\r\n".to_vec());
}

#[test]
fn encode_headers_names_the_first_string_that_does_not_fit() {
    let headers = pairs(&[("A", "ok"), ("B", "\u{3b1}"), ("C\u{100}", "x"), ("D", "\u{3b2}")]);
    assert_eq!(encode_headers(&headers), Err(Error::Encoding("\u{3b1}".to_string())));
    assert_eq!(encode_lines(&headers), Err(Error::Encoding("\u{3b1}".to_string())));
    let headers = pairs(&[("A", "ok"), ("C\u{100}", "\u{3b1}")]);
    assert_eq!(encode_headers(&headers), Err(Error::Encoding("C\u{100}".to_string())));
}

#[test]
fn header_block_round_trips() {
    let headers = pairs(&[
        ("Accept", "application/json"),
        ("X-Latin", "\u{e9}\u{ff}\u{a0}"),
        ("X-Colon", "a: b: c"),
        ("X:odd", "trailing\r"),
        ("", ""),
    ]);
    let block = encode_headers(&headers).unwrap();
    assert_eq!(decode(&block), Some(headers));
}

#[test]
fn header_block_with_a_line_end_in_a_value_does_not_round_trip() {
    let headers = pairs(&[("X", "a\r\nY: b")]);
    let block = encode_headers(&headers).unwrap();
    assert_eq!(decode(&block), Some(pairs(&[("X", "a"), ("Y", "b")])));
    let headers = pairs(&[("X: y", "z")]);
    let block = encode_headers(&headers).unwrap();
    assert_eq!(decode(&block), Some(pairs(&[("X", "y: z")])));
}

#[test]
fn request_with_a_wide_character_is_not_encoded() {
    let request = Request::new("http://example.org/").with_header("X-Dummy", "\u{4e16}\u{754c}");
    assert_eq!(request.header_block(), Err(Error::Encoding("\u{4e16}\u{754c}".to_string())));
    let request = Request::new("http://example.org/").with_header("User-Agent", "\u{100}/1");
    assert_eq!(request.header_block(), Err(Error::Encoding("\u{100}/1".to_string())));
}

#[test]
fn same_text_compares_characters() {
    assert!(same_text("", ""));
    assert!(same_text("http", "http"));
    assert!(!same_text("http", "https"));
    assert!(!same_text("https", "http"));
    assert!(!same_text("http", "HTTP"));
    assert!(same_text("\u{e9}\u{4e16}", "\u{e9}\u{4e16}"));
    assert!(!same_text("\u{e9}", "e"));
}

#[test]
fn copy_text_copies() {
    assert_eq!(copy_text(&None), None);
    assert_eq!(copy_text(&Some("secret".to_string())), Some("secret".to_string()));
}
