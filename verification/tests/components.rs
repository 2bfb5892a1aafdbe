use rserver::CliOption;
use rserver::Config;
use rserver::Headers;
use rserver::ProxyError;
use rserver::Server;
use rserver::bytes_to_string;
use rserver::get_request_headers;
use rserver::server::READ_CHUNK_SIZE;
use rserver::server::read_step;

#[test]
fn read_step_empty_read_ends_message() {
    let mut buffer: Vec<u8> = b"so far".to_vec();
    let chunk = vec![0u8; READ_CHUNK_SIZE];
    let more = read_step(&mut buffer, &chunk, 0);
    assert!(!more);
    assert_eq!(buffer, b"so far".to_vec());
}

#[test]
fn read_step_short_read_appends_and_ends() {
    let mut buffer: Vec<u8> = Vec::new();
    let mut chunk = vec![0u8; READ_CHUNK_SIZE];
    chunk[0] = b'h';
    chunk[1] = b'i';
    let more = read_step(&mut buffer, &chunk, 2);
    assert!(!more);
    assert_eq!(buffer, b"hi".to_vec());
}

#[test]
fn read_step_full_read_appends_and_continues() {
    let mut buffer: Vec<u8> = Vec::new();
    let chunk = vec![7u8; READ_CHUNK_SIZE];
    let more = read_step(&mut buffer, &chunk, READ_CHUNK_SIZE);
    assert!(more);
    assert_eq!(buffer.len(), READ_CHUNK_SIZE);
    assert_eq!(buffer, chunk);
}

#[test]
fn headers_insert_and_get() {
    let mut headers = Headers::new();
    headers.insert("A".to_string(), "1".to_string());
    headers.insert("B".to_string(), "2".to_string());
    headers.insert("A".to_string(), "3".to_string());
    assert_eq!(headers.get(&"A".to_string()).unwrap().as_str(), "3");
    assert_eq!(headers.get(&"B".to_string()).unwrap().as_str(), "2");
    assert!(headers.get(&"C".to_string()).is_none());
}

#[test]
fn get_request_headers_collects_until_blank_line() {
    let lines: Vec<Vec<u8>> = vec![
        b"GET / HTTP/1.1".to_vec(),
        b"Host: example.com".to_vec(),
        b"Accept: */*".to_vec(),
        b"Accept: text/plain".to_vec(),
        b"".to_vec(),
        b"ignored".to_vec(),
    ];
    let headers = get_request_headers(&lines).unwrap();
    assert_eq!(headers.get(&"Host".to_string()).unwrap().as_str(), "example.com");
    assert_eq!(headers.get(&"Accept".to_string()).unwrap().as_str(), "text/plain");
    assert!(headers.get(&"ignored".to_string()).is_none());
}

#[test]
fn get_request_headers_rejects_colonless_line() {
    let lines: Vec<Vec<u8>> = vec![
        b"GET / HTTP/1.1".to_vec(),
        b"no colon here".to_vec(),
        b"".to_vec(),
    ];
    assert_eq!(get_request_headers(&lines).err().unwrap(), ProxyError::MalformedRequest);
}

#[test]
fn bytes_to_string_keeps_ascii() {
    let v = b"GET /index.html".to_vec();
    assert_eq!(bytes_to_string(&v), "GET /index.html");
}

#[test]
fn config_new_keeps_fields() {
    let c = Config::new("0.0.0.0".to_string(), 9999, true, "p.example".to_string(), 3128);
    assert_eq!(c.host, "0.0.0.0");
    assert_eq!(c.port, 9999);
    assert!(c.enable_proxy);
    assert_eq!(c.proxy_host, "p.example");
    assert_eq!(c.proxy_port, 3128);
}

#[test]
fn config_default_values() {
    let c = Config::default();
    assert_eq!(c.host, "127.0.0.1");
    assert_eq!(c.port, 8080);
    assert!(!c.enable_proxy);
    assert_eq!(c.proxy_host, "");
    assert_eq!(c.proxy_port, 0);
}

#[test]
fn config_from_cli_enabled() {
    let cli = CliOption {
        host: "127.0.0.1".to_string(),
        port: 8080,
        enable_proxy: "true".to_string(),
        proxy_host: Some("up.example".to_string()),
        proxy_port: Some(8888),
    };
    let c = Config::from_cli(cli);
    assert!(c.enable_proxy);
    assert_eq!(c.proxy_host, "up.example");
    assert_eq!(c.proxy_port, 8888);
}

#[test]
fn config_from_cli_disabled_defaults() {
    let cli = CliOption {
        host: "127.0.0.1".to_string(),
        port: 8080,
        enable_proxy: "false".to_string(),
        proxy_host: None,
        proxy_port: None,
    };
    let c = Config::from_cli(cli);
    assert!(!c.enable_proxy);
    assert_eq!(c.proxy_host, "");
    assert_eq!(c.proxy_port, 0);
}

#[test]
fn server_new_keeps_config() {
    let config = Config::new("10.0.0.1".to_string(), 1234, false, String::new(), 0);
    let server = Server::new(config);
    assert_eq!(server.config.host, "10.0.0.1");
    assert_eq!(server.config.port, 1234);
}
