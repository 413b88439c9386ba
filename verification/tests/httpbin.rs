use get_url::native::Call;
use get_url::native::Reply;
use get_url::native::Stage;
use get_url::Error;
use get_url::Request;
use get_url::Response;
use rustc_serialize::json::Json;
use std::collections::BTreeMap;

/// A stand-in for the transport and for the echo service behind it: it
/// hands out handles, keeps count of them, and answers a request with what
/// the service would say about it.
struct Httpbin {
    live: Vec<usize>,
    next: usize,
    agent: String,
    host: String,
    port: u16,
    secure: bool,
    object_name: String,
    headers: Vec<(String, String)>,
    body: Vec<u8>,
    sent: usize,
}

impl Httpbin {
    fn new() -> Httpbin {
        Httpbin {
            live: Vec::new(),
            next: 0x1000,
            agent: String::new(),
            host: String::new(),
            port: 0,
            secure: false,
            object_name: String::new(),
            headers: Vec::new(),
            body: Vec::new(),
            sent: 0,
        }
    }

    fn acquire(&mut self) -> Reply {
        self.next += 8;
        self.live.push(self.next);
        Reply { value: self.next, os_error: 0 }
    }

    fn url(&self) -> String {
        let scheme = if self.secure { "https" } else { "http" };
        let default = if self.secure { 443 } else { 80 };
        if self.port == default {
            format!("{}://{}{}", scheme, self.host, self.object_name)
        } else {
            format!("{}://{}:{}{}", scheme, self.host, self.port, self.object_name)
        }
    }

    fn answer(&self) -> Json {
        let mut headers = BTreeMap::new();
        headers.insert("User-Agent".to_string(), Json::String(self.agent.clone()));
        for (name, value) in &self.headers {
            headers.insert(name.clone(), Json::String(value.clone()));
        }
        let (path, query) = match self.object_name.split_once('?') {
            Some((path, query)) => (path, query),
            None => (self.object_name.as_str(), ""),
        };
        let mut answer = BTreeMap::new();
        match path {
            "/get" => {
                let mut args = BTreeMap::new();
                for pair in query.split('&').filter(|pair| !pair.is_empty()) {
                    let (name, value) = pair.split_once('=').unwrap_or((pair, ""));
                    args.insert(name.to_string(), Json::String(value.to_string()));
                }
                answer.insert("args".to_string(), Json::Object(args));
                answer.insert("headers".to_string(), Json::Object(headers));
                answer.insert("url".to_string(), Json::String(self.url()));
            }
            "/headers" => {
                answer.insert("headers".to_string(), Json::Object(headers));
            }
            "/user-agent" => {
                let agent = headers.remove("User-Agent").unwrap();
                answer.insert("user-agent".to_string(), agent);
            }
            other => panic!("no such page: {}", other),
        }
        Json::Object(answer)
    }

    fn perform(&mut self, call: &Call, buffer: &mut [u8]) -> (Reply, u32) {
        let done = Reply { value: 1, os_error: 0 };
        match call {
            Call::OpenSession { agent } => {
                self.agent = agent.to_string();
                (self.acquire(), 0)
            }
            Call::Connect { session, endpoint } => {
                assert!(self.live.contains(&session.raw));
                self.host = endpoint.host.clone();
                self.port = endpoint.port;
                (self.acquire(), 0)
            }
            Call::OpenRequest { connection, verb, object_name, secure } => {
                assert!(self.live.contains(&connection.raw));
                assert_eq!(verb, &vec![71, 69, 84, 0]);
                self.object_name = object_name.to_string();
                self.secure = *secure;
                (self.acquire(), 0)
            }
            Call::AttachHeaders { request, headers, length } => {
                assert!(self.live.contains(&request.raw));
                assert_eq!(*length as usize, headers.len());
                let text: String = headers.iter().map(|&b| b as char).collect();
                let lines = text.strip_suffix("\r\n\r\n").unwrap();
                for line in lines.split("\r\n") {
                    let (name, value) = line.split_once(": ").unwrap();
                    self.headers.retain(|(known, _)| known != name);
                    self.headers.push((name.to_string(), value.to_string()));
                }
                (done, 0)
            }
            Call::Send { request } => {
                assert!(self.live.contains(&request.raw));
                self.body = self.answer().to_string().into_bytes();
                (done, 0)
            }
            Call::Read { request, capacity } => {
                assert!(self.live.contains(&request.raw));
                assert!(*capacity as usize <= buffer.len());
                let count = (*capacity as usize).min(self.body.len() - self.sent).min(7);
                buffer[..count].copy_from_slice(&self.body[self.sent..self.sent + count]);
                self.sent += count;
                (done, count as u32)
            }
            Call::Close { handle, .. } => {
                let at = self.live.iter().position(|&live| live == handle.raw).unwrap();
                assert_eq!(at, self.live.len() - 1);
                self.live.remove(at);
                (done, 0)
            }
        }
    }
}

fn open(net: &mut Httpbin, req: Request) -> Result<Response, Error> {
    let mut res = req.open()?;
    loop {
        let reply = match res.pending() {
            Some(call) => net.perform(&call, &mut []).0,
            None => break,
        };
        let _ = res.advance(reply);
    }
    match res.failure() {
        Some(error) => Err(error),
        None => Ok(res),
    }
}

fn read(net: &mut Httpbin, res: &mut Response, buffer: &mut [u8]) -> Result<usize, Error> {
    let (reply, count) = match res.read(buffer.len())? {
        Some(call) => net.perform(&call, buffer),
        None => return Ok(0),
    };
    res.finish_read(reply, count)
}

fn close(net: &mut Httpbin, mut res: Response) {
    res.close();
    loop {
        let reply = match res.pending() {
            Some(call) => net.perform(&call, &mut []).0,
            None => break,
        };
        let _ = res.advance(reply);
    }
    assert_eq!(res.stage(), Stage::Closed);
}

fn get_url_body(req: Request) -> Vec<u8> {
    let url = String::from(req.url());
    let mut net = Httpbin::new();
    let mut res = open(&mut net, req).expect(&format!("could not get `{}`", url));
    let mut out = vec![];
    let mut buffer = [0u8; 16];
    loop {
        let count = read(&mut net, &mut res, &mut buffer)
            .expect(&format!("could not read response from `{}`", url));
        if count == 0 {
            break;
        }
        out.extend_from_slice(&buffer[..count]);
    }
    assert_eq!(read(&mut net, &mut res, &mut buffer), Ok(0));
    close(&mut net, res);
    assert!(net.live.is_empty());
    out
}

fn get_url_body_string(req: Request) -> String {
    let url = String::from(req.url());
    String::from_utf8(get_url_body(req)).expect(&format!("non UTF-8 response from `{}`", url))
}

fn get_url_body_json(req: Request) -> Json {
    let url = String::from(req.url());
    let res = get_url_body_string(req);
    Json::from_str(&res).expect(&format!("non JSON response from `{}`", url))
}

fn jps<'a>(json: &'a Json, path: &[&str]) -> Option<&'a str> {
    json.find_path(path).and_then(Json::as_string)
}

#[test]
fn test_get() {
    let res = get_url_body_json(Request::new("https://httpbin.org/get?x=1&y=2#f"));
    assert_eq!(jps(&res, &["url"]), Some("https://httpbin.org/get?x=1&y=2"));
    assert_eq!(jps(&res, &["args", "x"]), Some("1"));
    assert_eq!(jps(&res, &["args", "y"]), Some("2"));
    assert_eq!(jps(&res, &["args", "f"]), None);
}

#[test]
fn test_headers() {
    let agent = format!("{} test_headers", get_url::AGENT);
    let req = Request::new("https://httpbin.org/headers")
        .with_header("Accept", "application/json")
        .with_header("User-Agent", &*agent)
        .with_header("X-Dummy", "keiichi");
    let res = get_url_body_json(req);

    assert_eq!(jps(&res, &["headers", "Accept"]), Some("application/json"));
    assert_eq!(jps(&res, &["headers", "User-Agent"]), Some(&*agent));
    assert_eq!(jps(&res, &["headers", "X-Dummy"]), Some("keiichi"));
}

#[test]
fn test_user_agent() {
    let res = get_url_body_json(Request::new("http://httpbin.org/user-agent"));
    assert_eq!(jps(&res, &["user-agent"]), Some(get_url::AGENT));
}

#[test]
fn get_of_example_org_reports_its_url() {
    let res = get_url_body_json(Request::new("http://example.org/get?x=1&y=2"));
    assert_eq!(jps(&res, &["url"]), Some("http://example.org/get?x=1&y=2"));
    assert_eq!(jps(&res, &["headers", "Accept"]), Some("*/*"));
    assert_eq!(jps(&res, &["headers", "User-Agent"]), Some(get_url::AGENT));
}

#[test]
fn three_overrides_are_echoed() {
    let req = Request::new("http://example.org/headers")
        .with_header("Accept", "application/json")
        .with_header("User-Agent", "custom/1")
        .with_header("X-Dummy", "value");
    let res = get_url_body_json(req);
    let mut expected = BTreeMap::new();
    expected.insert("Accept".to_string(), Json::String("application/json".to_string()));
    expected.insert("User-Agent".to_string(), Json::String("custom/1".to_string()));
    expected.insert("X-Dummy".to_string(), Json::String("value".to_string()));
    assert_eq!(res.find("headers"), Some(&Json::Object(expected)));
}

#[test]
fn session_is_opened_under_the_agent_in_use() {
    let mut net = Httpbin::new();
    let res = open(&mut net, Request::new("http://example.org/get")).unwrap();
    assert_eq!(net.agent, get_url::AGENT);
    close(&mut net, res);

    let mut net = Httpbin::new();
    let req = Request::new("http://example.org/get").with_header("User-Agent", "custom/1");
    let res = open(&mut net, req).unwrap();
    assert_eq!(net.agent, "custom/1");
    close(&mut net, res);
}

#[test]
fn port_in_the_url_is_used() {
    let res = get_url_body_json(Request::new("http://example.org:8080/get"));
    assert_eq!(jps(&res, &["url"]), Some("http://example.org:8080/get"));
    let res = get_url_body_json(Request::new("https://example.org:443/get"));
    assert_eq!(jps(&res, &["url"]), Some("https://example.org/get"));
}

#[test]
fn wide_header_is_refused_before_any_call() {
    let mut net = Httpbin::new();
    let req = Request::new("http://example.org/get").with_header("X-Dummy", "\u{4e16}");
    assert_eq!(open(&mut net, req).err(), Some(Error::Encoding("\u{4e16}".to_string())));
    assert_eq!(net.next, 0x1000);
    assert!(net.live.is_empty());
}

#[test]
fn other_schemes_are_refused_before_any_call() {
    let mut net = Httpbin::new();
    let req = Request::new("ftp://example.org/get");
    assert_eq!(open(&mut net, req).err(), Some(Error::Scheme("ftp".to_string())));
    assert_eq!(net.next, 0x1000);
    let req = Request::new("mailto:someone@example.org");
    assert_eq!(open(&mut net, req).err(), Some(Error::Scheme("mailto".to_string())));
    let req = Request::new("example.org/get");
    assert_eq!(
        open(&mut net, req).err(),
        Some(Error::Url(url::ParseError::RelativeUrlWithoutBase))
    );
    assert_eq!(net.next, 0x1000);
}

#[test]
fn url_is_looked_at_before_the_headers() {
    let mut net = Httpbin::new();
    let req = Request::new("ftp://example.org/get").with_header("X-Dummy", "\u{4e16}");
    assert_eq!(open(&mut net, req).err(), Some(Error::Scheme("ftp".to_string())));
    let req = Request::new("").with_header("X-Dummy", "\u{4e16}");
    assert_eq!(
        open(&mut net, req).err(),
        Some(Error::Url(url::ParseError::RelativeUrlWithoutBase))
    );
}
