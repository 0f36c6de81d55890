use vstd::prelude::*;

verus! {

/// The text of a plain HTTP/1.1 `GET /` request for `host` that asks the
/// server to close the connection after the answer and not to compress it.
pub open spec fn http_get_request_text(host: Seq<char>) -> Seq<char> {
    "GET / HTTP/1.1\r\nHost: "@ + host + "\r\nConnection: close\r\nAccept-Encoding: identity\r\n\r\n"@
}

/// The request that the TLS client sends once the session is up.
pub fn http_get_request(host: &str) -> (res: String)
    ensures
        res@ == http_get_request_text(host@),
        res@.len() == 72 + host@.len(),
        res@.take(22) == seq!['G', 'E', 'T', ' ', '/', ' ', 'H', 'T', 'T', 'P', '/', '1', '.', '1', '\r', '\n', 'H', 'o', 's', 't', ':', ' '],
        res@.subrange(22, 22 + host@.len() as int) == host@,
        res@.skip(22 + host@.len() as int) == seq!['\r', '\n', 'C', 'o', 'n', 'n', 'e', 'c', 't', 'i', 'o', 'n', ':', ' ', 'c', 'l', 'o', 's', 'e', '\r', '\n', 'A', 'c', 'c', 'e', 'p', 't', '-', 'E', 'n', 'c', 'o', 'd', 'i', 'n', 'g', ':', ' ', 'i', 'd', 'e', 'n', 't', 'i', 't', 'y', '\r', '\n', '\r', '\n'],
{
    let mut request = String::from_str("GET / HTTP/1.1\r\nHost: ");
    request.append(host);
    request.append("\r\nConnection: close\r\nAccept-Encoding: identity\r\n\r\n");
    proof {
        lemma_http_get_request_layout(host@);
    }
    request
}

/// The request is the fixed request line and `Host: ` header name, then the
/// host exactly as given, then the fixed `Connection` and `Accept-Encoding`
/// headers and the blank line that ends the request.
pub proof fn lemma_http_get_request_layout(host: Seq<char>)
    ensures
        http_get_request_text(host).len() == 72 + host.len(),
        http_get_request_text(host).take(22) == seq!['G', 'E', 'T', ' ', '/', ' ', 'H', 'T', 'T', 'P', '/', '1', '.', '1', '\r', '\n', 'H', 'o', 's', 't', ':', ' '],
        http_get_request_text(host).subrange(22, 22 + host.len() as int) == host,
        http_get_request_text(host).skip(22 + host.len() as int) == seq!['\r', '\n', 'C', 'o', 'n', 'n', 'e', 'c', 't', 'i', 'o', 'n', ':', ' ', 'c', 'l', 'o', 's', 'e', '\r', '\n', 'A', 'c', 'c', 'e', 'p', 't', '-', 'E', 'n', 'c', 'o', 'd', 'i', 'n', 'g', ':', ' ', 'i', 'd', 'e', 'n', 't', 'i', 't', 'y', '\r', '\n', '\r', '\n'],
{
    reveal_strlit("GET / HTTP/1.1\r\nHost: ");
    reveal_strlit("\r\nConnection: close\r\nAccept-Encoding: identity\r\n\r\n");
    let t = http_get_request_text(host);
    let p = "GET / HTTP/1.1\r\nHost: "@;
    let q = "\r\nConnection: close\r\nAccept-Encoding: identity\r\n\r\n"@;
    assert(p =~= seq!['G', 'E', 'T', ' ', '/', ' ', 'H', 'T', 'T', 'P', '/', '1', '.', '1', '\r', '\n', 'H', 'o', 's', 't', ':', ' ']);
    assert(q =~= seq!['\r', '\n', 'C', 'o', 'n', 'n', 'e', 'c', 't', 'i', 'o', 'n', ':', ' ', 'c', 'l', 'o', 's', 'e', '\r', '\n', 'A', 'c', 'c', 'e', 'p', 't', '-', 'E', 'n', 'c', 'o', 'd', 'i', 'n', 'g', ':', ' ', 'i', 'd', 'e', 'n', 't', 'i', 't', 'y', '\r', '\n', '\r', '\n']);
    assert(t.take(22) =~= p);
    assert(t.subrange(22, 22 + host.len() as int) =~= host);
    assert(t.skip(22 + host.len() as int) =~= q);
}

} // verus!
