use netcatr::banner::{
    http_request, protocol_label, read_plan, render_record, BannerGrab, BannerOpts, ReadPlan,
    CHUNK_LEN,
};
use netcatr::cli::host_from_opts;
use netcatr::extract::{extract_fields, http_field, split_lines, Field};
use netcatr::protocol::{parse_port, Protocol};
use netcatr::scan::{port_tokens, single_report, ScanReport};
use netcatr::text::{find_char, starts_with, str_eq, trim};

fn field(label: &str, value: &str) -> Field {
    Field { label: label.to_string(), value: value.to_string() }
}

fn opts(port: &str, protocol: Protocol) -> BannerOpts {
    BannerOpts {
        host: "127.0.0.1".to_string(),
        port: port.to_string(),
        timeout: 5,
        protocol,
        verbose: false,
    }
}

#[test]
fn test_host_from_opts_single_port() {
    let host = vec!["8080".to_string()];
    let result = host_from_opts(host).unwrap();
    assert_eq!(result, ("0.0.0.0".to_string(), "8080".to_string()));
}

#[test]
fn test_host_from_opts_host_port() {
    let host = vec!["192.168.1.1".to_string(), "8080".to_string()];
    let result = host_from_opts(host).unwrap();
    assert_eq!(result, ("192.168.1.1".to_string(), "8080".to_string()));
}

#[test]
fn test_host_from_opts_colon_format() {
    let host = vec!["192.168.1.1:8080".to_string()];
    let result = host_from_opts(host).unwrap();
    assert_eq!(result, ("192.168.1.1".to_string(), "8080".to_string()));
}

#[test]
fn host_from_opts_rejects_two_colons() {
    let host = vec!["a:1:2".to_string()];
    assert_eq!(host_from_opts(host), Err("Invalid host:port format".to_string()));
}

#[test]
fn host_from_opts_rejects_no_or_many_arguments() {
    assert_eq!(host_from_opts(vec![]), Err("Missing host or invalid format".to_string()));
    let three = vec!["a".to_string(), "b".to_string(), "c".to_string()];
    assert_eq!(host_from_opts(three), Err("Missing host or invalid format".to_string()));
}

#[test]
fn host_from_opts_empty_sides_of_colon() {
    let host = vec![":".to_string()];
    assert_eq!(host_from_opts(host), Ok((String::new(), String::new())));
}

#[test]
fn banner_opts_from_args() {
    let o = BannerOpts::from_args(vec!["example.org:21".to_string()], "FtP", 7, true).unwrap();
    assert_eq!(o.host, "example.org");
    assert_eq!(o.port, "21");
    assert_eq!(o.timeout, 7);
    assert!(o.verbose);
    assert_eq!(o.protocol, Protocol::FTP);
    let e = BannerOpts::from_args(vec![], "auto", 5, false).unwrap_err();
    assert_eq!(e, "Missing host or invalid format");
}

#[test]
fn hint_parse_ignores_case() {
    assert_eq!(Protocol::from_str("HTTP"), Protocol::HTTP);
    assert_eq!(Protocol::from_str("hTtPs"), Protocol::HTTPS);
    assert_eq!(Protocol::from_str("Ftp"), Protocol::FTP);
    assert_eq!(Protocol::from_str("SSH"), Protocol::SSH);
    assert_eq!(Protocol::from_str("smtp"), Protocol::SMTP);
    assert_eq!(Protocol::from_str("TELNET"), Protocol::Telnet);
    assert_eq!(Protocol::from_str("Raw"), Protocol::Raw);
    assert_eq!(Protocol::from_str("auto"), Protocol::Auto);
}

#[test]
fn unknown_hint_is_auto() {
    assert_eq!(Protocol::from_str(""), Protocol::Auto);
    assert_eq!(Protocol::from_str("gopher"), Protocol::Auto);
    assert_eq!(Protocol::from_str(" http"), Protocol::Auto);
    assert_eq!(Protocol::from_lowered("HTTP"), Protocol::Auto);
}

#[test]
fn port_table() {
    assert_eq!(Protocol::detect_from_port(21), Protocol::FTP);
    assert_eq!(Protocol::detect_from_port(22), Protocol::SSH);
    assert_eq!(Protocol::detect_from_port(23), Protocol::Telnet);
    assert_eq!(Protocol::detect_from_port(25), Protocol::SMTP);
    assert_eq!(Protocol::detect_from_port(80), Protocol::HTTP);
    assert_eq!(Protocol::detect_from_port(443), Protocol::HTTPS);
    assert_eq!(Protocol::detect_from_port(0), Protocol::Raw);
    assert_eq!(Protocol::detect_from_port(8080), Protocol::Raw);
    assert_eq!(Protocol::detect_from_port(65535), Protocol::Raw);
}

#[test]
fn default_ports() {
    assert_eq!(Protocol::HTTP.get_default_port(), 80);
    assert_eq!(Protocol::HTTPS.get_default_port(), 443);
    assert_eq!(Protocol::FTP.get_default_port(), 21);
    assert_eq!(Protocol::SSH.get_default_port(), 22);
    assert_eq!(Protocol::SMTP.get_default_port(), 25);
    assert_eq!(Protocol::Telnet.get_default_port(), 23);
    assert_eq!(Protocol::Raw.get_default_port(), 80);
    assert_eq!(Protocol::Auto.get_default_port(), 80);
}

#[test]
fn resolve_auto_by_port() {
    for (port, p) in [
        ("21", Protocol::FTP),
        ("22", Protocol::SSH),
        ("23", Protocol::Telnet),
        ("25", Protocol::SMTP),
        ("80", Protocol::HTTP),
        ("443", Protocol::HTTPS),
        ("8080", Protocol::Raw),
        ("1", Protocol::Raw),
    ] {
        assert_eq!(Protocol::resolve(Protocol::Auto, port), p);
    }
}

#[test]
fn resolve_unreadable_port_as_80() {
    assert_eq!(Protocol::resolve(Protocol::Auto, "not-a-number"), Protocol::HTTP);
    assert_eq!(
        Protocol::resolve(Protocol::Auto, "not-a-number"),
        Protocol::resolve(Protocol::Auto, "80")
    );
    assert_eq!(Protocol::resolve(Protocol::Auto, "70000"), Protocol::HTTP);
}

#[test]
fn resolve_keeps_explicit_hint() {
    assert_eq!(Protocol::resolve(Protocol::SSH, "80"), Protocol::SSH);
    assert_eq!(Protocol::resolve(Protocol::Raw, "21"), Protocol::Raw);
}

#[test]
fn parse_port_edges() {
    assert_eq!(parse_port("0"), Some(0));
    assert_eq!(parse_port("+80"), Some(80));
    assert_eq!(parse_port("0022"), Some(22));
    assert_eq!(parse_port("65535"), Some(65535));
    assert_eq!(parse_port("65536"), None);
    assert_eq!(parse_port("99999999999"), None);
    assert_eq!(parse_port(""), None);
    assert_eq!(parse_port("+"), None);
    assert_eq!(parse_port("-1"), None);
    assert_eq!(parse_port(" 80"), None);
    assert_eq!(parse_port("8a"), None);
    for p in [0u16, 1, 21, 443, 8080, 65535] {
        assert_eq!(parse_port(&p.to_string()), p.to_string().parse::<u16>().ok());
    }
}

#[test]
fn http_server_field() {
    let banner = "HTTP/1.1 200 OK\r\nServer: TestSrv\r\n\r\n";
    let fields = extract_fields(Protocol::HTTP, banner);
    assert_eq!(fields, vec![field("Server", "TestSrv")]);
}

#[test]
fn http_fields_in_line_order() {
    let banner = "HTTP/1.1 200 OK\r\nX-Powered-By: PHP/8\r\nSERVER:  nginx \r\nserver: two\n";
    let fields = extract_fields(Protocol::HTTPS, banner);
    assert_eq!(
        fields,
        vec![field("Powered by", "PHP/8"), field("Server", "nginx"), field("Server", "two")]
    );
}

#[test]
fn http_field_of_one_line() {
    assert_eq!(http_field("Server: a", "server: a"), Some(field("Server", "a")));
    assert_eq!(http_field("Server", "server:"), Some(field("Server", "")));
    assert_eq!(http_field("Date: x", "date: x"), None);
}

#[test]
fn ssh_version_field() {
    let fields = extract_fields(Protocol::SSH, "SSH-2.0-TestServer\r\n");
    assert_eq!(fields, vec![field("SSH Version", "SSH-2.0-TestServer")]);
    assert_eq!(extract_fields(Protocol::SSH, "ssh-2.0-x\r\n"), vec![]);
    assert_eq!(extract_fields(Protocol::SSH, "hello\r\nSSH-2.0-x\r\n"), vec![]);
}

#[test]
fn ftp_ready_field() {
    let fields = extract_fields(Protocol::FTP, "220 Test FTP Ready\r\n");
    assert_eq!(fields, vec![field("FTP Ready", "220 Test FTP Ready")]);
    assert_eq!(extract_fields(Protocol::FTP, "421 Service unavailable"), vec![]);
}

#[test]
fn no_fields_for_other_protocols() {
    assert_eq!(extract_fields(Protocol::SMTP, "220 mail ESMTP\r\n"), vec![]);
    assert_eq!(extract_fields(Protocol::Telnet, "Server: x\r\n"), vec![]);
    assert_eq!(extract_fields(Protocol::Raw, "SSH-2.0-x"), vec![]);
}

#[test]
fn line_splitting() {
    assert_eq!(split_lines(""), Vec::<String>::new());
    assert_eq!(split_lines("a\r\nb\n\nc"), vec!["a", "b", "", "c"]);
    assert_eq!(split_lines("a\n"), vec!["a"]);
    assert_eq!(split_lines("a\r"), vec!["a\r"]);
    assert_eq!(split_lines("\n"), vec![""]);
    let s = "x\r\ny\nz\r\n\r\nw";
    assert_eq!(split_lines(s), s.lines().collect::<Vec<_>>());
}

#[test]
fn text_helpers() {
    assert_eq!(trim("  \t a b \r\n"), "a b");
    assert_eq!(trim("\u{3000}x\u{a0}"), "x");
    assert_eq!(trim("   "), "");
    assert!(str_eq("abc", "abc"));
    assert!(!str_eq("abc", "abd"));
    assert!(!str_eq("ab", "abc"));
    assert!(starts_with("SSH-2.0", "SSH-"));
    assert!(!starts_with("SS", "SSH-"));
    assert_eq!(find_char("a,b,c", ',', 0), 1);
    assert_eq!(find_char("a,b,c", ',', 2), 3);
    assert_eq!(find_char("abc", ',', 0), 3);
}

#[test]
fn port_list_skips_empty_entries() {
    assert_eq!(port_tokens("21,,22, 23"), vec!["21", "22", "23"]);
    assert_eq!(port_tokens(""), Vec::<String>::new());
    assert_eq!(port_tokens(" , ,"), Vec::<String>::new());
    assert_eq!(port_tokens("80,80"), vec!["80", "80"]);
}

#[test]
fn report_has_one_section_per_port_in_order() {
    let mut report = ScanReport::new("h");
    for port in port_tokens("21,,22, 23") {
        report.add(&port, &Ok(format!("record {}\n", port)));
    }
    assert_eq!(report.sections.len(), 3);
    let text = report.render();
    let a = text.find("h:21").unwrap();
    let b = text.find("h:22").unwrap();
    let c = text.find("h:23").unwrap();
    assert!(a < b && b < c);
}

#[test]
fn report_keeps_failed_port_between_successes() {
    let sep = "=".repeat(50);
    let mut report = ScanReport::new("host");
    report.add("21", &Ok("ok21\n".to_string()));
    report.add("22", &Err("connection timed out".to_string()));
    report.add("23", &Ok("ok23\n".to_string()));
    let expected = format!(
        "\n=== Banner for host:21\n{sep}\nok21\n\n\
         \n=== Banner for host:22\n{sep}\nError: connection timed out\n\n\
         \n=== Banner for host:23\n{sep}\nok23\n\n"
    );
    assert_eq!(report.render(), expected);
}

#[test]
fn single_report_text() {
    assert_eq!(single_report("h", "80", "R\n"), "Banner grab results for h:80\nR\n");
}

#[test]
fn labels_and_plans() {
    assert_eq!(protocol_label(Protocol::HTTPS), "HTTP");
    assert_eq!(protocol_label(Protocol::Auto), "Raw");
    assert_eq!(protocol_label(Protocol::Telnet), "Telnet");
    assert_eq!(read_plan(Protocol::HTTP), ReadPlan::HeaderLines);
    assert_eq!(read_plan(Protocol::SMTP), ReadPlan::OneLine);
    assert_eq!(read_plan(Protocol::FTP), ReadPlan::OneLine);
    assert_eq!(read_plan(Protocol::SSH), ReadPlan::Chunk);
    assert_eq!(read_plan(Protocol::Raw), ReadPlan::Chunk);
    assert_eq!(CHUNK_LEN, 1024);
}

#[test]
fn http_request_text() {
    assert_eq!(
        http_request("example.org"),
        "HEAD / HTTP/1.1\r\nHost: example.org\r\nUser-Agent: netcatr/1.0\r\nConnection: close\r\n\r\n"
    );
}

#[test]
fn options_for_another_port() {
    let base = opts("80", Protocol::Auto);
    let o = base.with_port("22");
    assert_eq!(o.host, "127.0.0.1");
    assert_eq!(o.port, "22");
    assert_eq!(o.address(), "127.0.0.1:22");
    assert_eq!(o.resolved_protocol(), Protocol::SSH);
}

#[test]
fn http_grab_collects_until_blank_line() {
    let mut g = BannerGrab::start(&opts("80", Protocol::Auto));
    assert_eq!(g.protocol, Protocol::HTTP);
    assert!(g.request("127.0.0.1").is_some());
    assert!(g.feed(b"HTTP/1.1 200 OK\r\n"));
    assert!(g.feed(b"Server: TestSrv\r\n"));
    assert!(!g.feed(b"\r\n"));
    assert!(!g.feed(b"ignored\r\n"));
    assert_eq!(g.text, "HTTP/1.1 200 OK\r\nServer: TestSrv\r\n");
    assert_eq!(
        g.record(),
        "Protocol: HTTP\nBanner:\nHTTP/1.1 200 OK\r\nServer: TestSrv\nServer: TestSrv\n"
    );
}

#[test]
fn http_grab_stops_at_end_of_stream() {
    let mut g = BannerGrab::start(&opts("443", Protocol::Auto));
    assert!(g.feed(b"HTTP/1.1 301\r\n"));
    assert!(!g.feed(b""));
    assert_eq!(g.text, "HTTP/1.1 301\r\n");
}

#[test]
fn single_read_grabs() {
    let mut g = BannerGrab::start(&opts("22", Protocol::Auto));
    assert!(g.request("h").is_none());
    assert_eq!(g.plan(), ReadPlan::Chunk);
    assert!(!g.feed(b"SSH-2.0-TestServer\r\n"));
    assert_eq!(
        g.record(),
        "Protocol: SSH\nBanner:\nSSH-2.0-TestServer\nSSH Version: SSH-2.0-TestServer\n"
    );
    let mut f = BannerGrab::start(&opts("2121", Protocol::FTP));
    assert_eq!(f.plan(), ReadPlan::OneLine);
    assert!(!f.feed(b"220 Test FTP Ready\r\n"));
    assert_eq!(
        f.record(),
        "Protocol: FTP\nBanner:\n220 Test FTP Ready\nFTP Ready: 220 Test FTP Ready\n"
    );
}

#[test]
fn invalid_bytes_decode_lossily() {
    let mut g = BannerGrab::start(&opts("9999", Protocol::Auto));
    assert!(!g.feed(&[b'o', b'k', 0xff, b'!']));
    assert_eq!(g.text, "ok\u{fffd}!");
}

#[test]
fn record_without_fields() {
    assert_eq!(
        render_record(Protocol::SMTP, "220 mail ESMTP\r\n"),
        "Protocol: SMTP\nBanner:\n220 mail ESMTP\n"
    );
}
