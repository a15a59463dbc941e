use velotype::cli::{
    help_lines, parse_args, unknown_option_line, version_line, without_detach, CliAction,
};
use velotype::export::{render_pdf, ExportError};
use velotype::http_client::{
    build_get, build_post_json, BlockedHttpClient, Builder, HttpClient, HttpClientWithProxy,
    HttpClientWithUrl, HttpError, HttpRequestExt, Method, RedirectPolicy,
};
use velotype::net::{
    downloaded, gather, is_remote_image_source, response_of, transfer_options, ProxySetting,
    TransferOption,
};

fn args(list: &[&str]) -> Vec<String> {
    list.iter().map(|s| s.to_string()).collect()
}

#[test]
fn arguments() {
    assert!(matches!(parse_args(&args(&["--version"])), CliAction::Version));
    assert!(matches!(parse_args(&args(&["-v"])), CliAction::Version));
    assert!(matches!(parse_args(&args(&["a.md", "-h"])), CliAction::Help));
    match parse_args(&args(&["-d", "a.md", "b.md"])) {
        CliAction::Open { paths, detach } => {
            assert_eq!(paths, vec!["a.md", "b.md"]);
            assert!(detach);
        }
        _ => panic!("not opened"),
    }
    match parse_args(&args(&["--what"])) {
        CliAction::UnknownOption(option) => assert_eq!(option, "--what"),
        _ => panic!("option was known"),
    }
    assert_eq!(without_detach(&args(&["-d", "a.md", "--detach"])), vec!["a.md"]);
}

#[test]
fn lines_of_the_shell() {
    assert_eq!(version_line("1.2.3"), "velotype 1.2.3");
    assert_eq!(unknown_option_line("-x"), "Unknown option: -x");
    let help = help_lines("1.2.3");
    assert_eq!(help[0], "velotype 1.2.3 - A block-based Markdown editor");
    assert_eq!(help.len(), 13);
}

#[test]
fn pdf_is_refused() {
    let r = render_pdf("# a", "t", None);
    match r {
        Err(e) => {
            assert!(matches!(e, ExportError::Disabled));
            assert!(!e.message().is_empty());
        }
        Ok(_) => panic!("rendered"),
    }
}

#[test]
fn get_request_follows_redirects_when_asked() {
    let r = build_get("http://example.com/a", vec![1, 2], true).ok().unwrap();
    assert!(matches!(r.method, Method::Get));
    assert_eq!(r.uri, "http://example.com/a");
    assert!(matches!(r.redirects, Some(RedirectPolicy::FollowAll)));
    assert_eq!(r.body, vec![1, 2]);
    let r = build_get("http://example.com/a", vec![], false).ok().unwrap();
    assert!(matches!(r.redirects, Some(RedirectPolicy::NoFollow)));
}

#[test]
fn post_request_is_json() {
    let r = build_post_json("http://example.com/a", vec![]).ok().unwrap();
    assert!(matches!(r.method, Method::Post));
    assert_eq!(r.headers, vec![("content-type".to_string(), "application/json".to_string())]);
}

#[test]
fn bad_uri_is_refused() {
    let spaced = build_get("http://exa mple.com/", vec![], true);
    assert_eq!(spaced.err().unwrap().message(), "invalid uri character");
    let empty = build_post_json("", vec![]);
    assert!(matches!(&empty, Err(HttpError::InvalidUri(_))));
    assert_eq!(empty.err().unwrap().message(), "empty string");
}

#[test]
fn uri_is_parsed_by_the_builder() {
    let r = Builder::new().uri("HTTP://example.com").body(vec![]).ok().unwrap();
    assert_eq!(r.uri, "http://example.com/");
    let kept = Builder::new().with_parsed(Ok("x:".to_string())).body(vec![]).ok().unwrap();
    assert_eq!(kept.uri, "x:");
    let none = Builder::new().with_parsed(Err("no address".to_string())).body(vec![]);
    assert_eq!(none.err().unwrap().message(), "no address");
}

#[test]
fn redirect_policy_default_is_not_to_follow() {
    assert!(matches!(RedirectPolicy::default(), RedirectPolicy::NoFollow));
    let b = Builder::new().follow_redirects(RedirectPolicy::FollowLimit(3));
    let request = b.body(vec![]).ok().unwrap();
    assert!(matches!(request.redirects, Some(RedirectPolicy::FollowLimit(3))));
}

#[test]
fn blocked_client_stays_blocked() {
    let client = BlockedHttpClient::new();
    assert!(matches!(client.get("http://example.com", vec![], true), Err(HttpError::Blocked)));
    assert!(matches!(client.post_json("http://example.com", vec![]), Err(HttpError::Blocked)));
    assert!(client.user_agent().is_none());
    assert!(client.proxy().is_none());
    let front = HttpClientWithProxy::new(client, Some("http://localhost:8080".to_string()));
    assert!(matches!(front.get("http://example.com", vec![], true), Err(HttpError::Blocked)));
}

#[test]
fn proxy_is_parsed() {
    let front = HttpClientWithProxy::new(BlockedHttpClient::new(), Some("http://h:1".to_string()));
    assert_eq!(front.proxy(), Some("http://h:1/".to_string()));
    let none = HttpClientWithProxy::new(BlockedHttpClient::new(), Some("not a url".to_string()));
    assert_eq!(none.proxy(), None);
}

#[test]
fn base_url_is_put_in_front() {
    let mut client =
        HttpClientWithUrl::new(BlockedHttpClient::new(), "https://a.b".to_string(), None);
    assert_eq!(client.base_url(), "https://a.b");
    assert_eq!(client.build_url("/c"), "https://a.b/c");
    client.set_base_url("https://x".to_string());
    assert_eq!(client.build_url("/c"), "https://x/c");
}

#[test]
fn proxy_setting() {
    let mut p = ProxySetting::new();
    let first = p.get_proxy();
    p.set_proxy("http://p".to_string());
    assert_eq!(p.get_proxy(), "http://p");
    assert_ne!(first, "http://p");
}

#[test]
fn remote_images() {
    assert!(is_remote_image_source("http://a/b.png"));
    assert!(is_remote_image_source("https://a/b.png"));
    assert!(!is_remote_image_source("b.png"));
    assert!(!is_remote_image_source("file:///b.png"));
}

#[test]
fn transfer_is_set_up() {
    let options = transfer_options("http://a", "").unwrap();
    assert!(matches!(&options[0], TransferOption::Url(u) if u == "http://a"));
    assert!(!options.iter().any(|o| matches!(o, TransferOption::Proxy(_))));
    let with_proxy = transfer_options("http://a", "http://p").unwrap();
    assert!(with_proxy.iter().any(|o| matches!(o, TransferOption::Proxy(p) if p == "http://p")));
    assert_eq!(with_proxy.len(), options.len() + 1);
}

#[test]
fn chunks_are_gathered() {
    let mut all = vec![1u8];
    assert_eq!(gather(&mut all, &[2, 3], 1, 2), 2);
    assert_eq!(all, vec![1, 2, 3]);
    assert_eq!(downloaded(0, vec![7]), Some(vec![7]));
    assert_eq!(downloaded(28, vec![7]), None);
    assert_eq!(response_of("http://a", Some(vec![5])).ok().unwrap().status, 200);
    let failed = response_of("http://a", None).err().unwrap();
    assert_eq!(failed.message(), "libcurl failed to download image from: http://a");
}

#[test]
fn headers_are_read() {
    let r = Builder::new().header("X-Two_3", "a\tb").body(vec![]).ok().unwrap();
    assert_eq!(r.headers, vec![("x-two_3".to_string(), "a\tb".to_string())]);
    let e = Builder::new().header("a b", "c").body(vec![]).err().unwrap();
    assert_eq!(e.message(), "invalid HTTP header name");
    let e = Builder::new().header("", "c").body(vec![]).err().unwrap();
    assert_eq!(e.message(), "invalid HTTP header name");
    let e = Builder::new().header("a", "c\nd").body(vec![]).err().unwrap();
    assert!(matches!(&e, HttpError::InvalidHeader(_)));
    assert_eq!(e.message(), "failed to parse header value");
    let r = Builder::new().header("a", "\u{e9}").body(vec![]).ok().unwrap();
    assert_eq!(r.headers[0].1, "\u{e9}");
}

#[test]
fn first_error_of_a_request_stays() {
    let e = Builder::new().uri("").header("a b", "c").uri("/x").body(vec![]).err().unwrap();
    assert_eq!(e.message(), "empty string");
}

#[test]
fn errors_in_words() {
    assert_eq!(HttpError::Blocked.message(), "BlockedHttpClient disallowed request");
    assert_eq!(HttpError::NotImplemented.message(), "not implemented in stub");
    let reply = BlockedHttpClient::new().send_multipart_form("http://a", vec![]);
    assert!(matches!(reply, Err(HttpError::NotImplemented)));
}

#[test]
fn headers_are_taken_until_the_table_is_full() {
    let mut b = Builder::new();
    for i in 0..7000 {
        b = b.header(&format!("n{}", i), "v");
    }
    assert_eq!(b.body(vec![]).ok().unwrap().headers.len(), 7000);
    let mut b = Builder::new();
    for i in 0..25000 {
        b = b.header(&format!("n{}", i), "v");
    }
    assert_eq!(b.body(vec![]).err().unwrap().message(), "max size reached");
}
