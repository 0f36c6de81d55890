use enclave_demos::http_request::http_get_request;

#[test]
fn http_get_request_for_google() {
    assert_eq!(
        http_get_request("google.com"),
        "GET / HTTP/1.1\r\nHost: google.com\r\nConnection: close\r\nAccept-Encoding: identity\r\n\r\n"
    );
}

#[test]
fn http_get_request_empty_host() {
    assert_eq!(
        http_get_request(""),
        "GET / HTTP/1.1\r\nHost: \r\nConnection: close\r\nAccept-Encoding: identity\r\n\r\n"
    );
}
