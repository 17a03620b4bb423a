use mqtt_server::http::messages::{
    content_headers, resource_for, response_for, HttpRequest, HttpResponse, HttpStatusCode, HttpVersion, Request,
    Resource,
};
use mqtt_server::iomock::IOMock;

#[test]
fn empty_request_invalid() {
    let request = HttpRequest::read_from("".as_bytes());
    assert!(request.is_err());
}

#[test]
fn post_method_unsopported() {
    let request = HttpRequest::read_from(
        "POST / HTTP/1.1\r\n
        Host: foo.com\r\n
        Content-Type: application/x-www-form-urlencoded\r\n
        Content-Length: 13\r\n
        \r\n
        say=Hi&to=Mom"
            .as_bytes(),
    );
    assert!(request.is_err());
}

#[test]
fn invalid_uri() {
    let request = HttpRequest::read_from("GET /index.html HTTP/1.1\r\n".as_bytes());
    assert!(request.is_err());
}

#[test]
fn valid_request_empty() {
    let request = HttpRequest::read_from("GET /favicon.ico HTTP/1.1\r\n".as_bytes());

    assert!(request.is_ok());
    let request = request.unwrap();
    assert!(matches!(request.request(), Request::Favicon));
    assert!(matches!(request.version(), HttpVersion::V1_1));
    assert!(request.headers().is_empty());
    assert!(request.body().is_empty());
}

#[test]
fn valid_request_with_headers() {
    let request = HttpRequest::read_from("GET / HTTP/1.1\r\nsoy un header\r\n:D".as_bytes());

    assert!(request.is_ok());
    let request = request.unwrap();
    assert!(matches!(request.request(), Request::Index));
    assert!(matches!(request.version(), HttpVersion::V1_1));
    let headers = request.headers();
    assert_eq!(headers.len(), 2);
    assert_eq!(headers[0], "soy un header");
    assert_eq!(headers[1], ":D");
    assert!(request.body().is_empty());
}

#[test]
fn valid_request_with_headers_and_body() {
    let request = HttpRequest::read_from("GET /resources/image/foto HTTP/1.1\r\nheader\r\n\r\nbody".as_bytes());

    assert!(request.is_ok());
    let request = request.unwrap();
    if let Request::Image(ref resource) = request.request() {
        assert_eq!(resource, "foto");
    } else {
        panic!("Request incorrecto");
    }
    assert!(matches!(request.version(), HttpVersion::V1_1));
    let headers = request.headers();
    assert_eq!(headers.len(), 1);
    assert_eq!(headers[0], "header");
    let body = request.body();
    assert_eq!(body.len(), 1);
    assert_eq!(body[0], "body");
}

#[test]
fn request_errors_name_what_is_missing() {
    assert_eq!(HttpRequest::read_from(b"").err().unwrap().msg(), "Request tiene formato incorrecto");
    assert_eq!(HttpRequest::read_from(b"\r\nx").err().unwrap().msg(), "No se pudo obtener método");
    assert_eq!(HttpRequest::read_from(b"PUT / HTTP/1.1").err().unwrap().msg(), "Solo se soporta el método GET");
    assert_eq!(HttpRequest::read_from(b"GET").err().unwrap().msg(), "No se pudo obtener URI");
    assert_eq!(HttpRequest::read_from(b"GET /x").err().unwrap().msg(), "URI invalida: /x");
    assert_eq!(HttpRequest::read_from(b"GET /").err().unwrap().msg(), "No se pudo obtener versión HTTP");
    assert_eq!(
        HttpRequest::read_from(b"GET / HTTP/1.0").err().unwrap().msg(),
        "Http version not supported: HTTP/1.0"
    );
}

#[test]
fn request_for_data_and_css() {
    let request = HttpRequest::read_from(b"GET /data HTTP/1.1").unwrap();
    assert!(matches!(request.request(), Request::Data));
    let request = HttpRequest::read_from(b"GET /resources/css/style.css HTTP/1.1\r\n").unwrap();
    match request.request() {
        Request::Css(file) => assert_eq!(file, "style.css"),
        _ => panic!("expected a stylesheet"),
    }
}

#[test]
fn only_the_first_kilobyte_is_read() {
    let mut bytes = b"GET / HTTP/1.1\r\n".to_vec();
    bytes.extend(std::iter::repeat(b'a').take(2000));
    let request = HttpRequest::read_from(&bytes).unwrap();
    assert_eq!(request.headers().len(), 1);
    assert_eq!(request.headers()[0].len(), 1024 - 16);
}

#[test]
fn resources_of_requests() {
    match resource_for(&Request::Index) {
        Resource::File { path, content_type } => {
            assert_eq!(path, "page/index.html");
            assert_eq!(content_type, "text/html");
        }
        Resource::Data => panic!("expected a file"),
    }
    match resource_for(&Request::Image(String::from("foto"))) {
        Resource::File { path, content_type } => {
            assert_eq!(path, "page/resources/image/foto");
            assert_eq!(content_type, "image/png");
        }
        Resource::Data => panic!("expected a file"),
    }
    assert!(matches!(resource_for(&Request::Data), Resource::Data));
    assert_eq!(content_headers("text/css"), "Content-Type: text/css\r\nCache-Control: max-age=3600\r\n");
}

#[test]
fn response_encoding_with_headers() {
    let response = HttpResponse::new(
        HttpStatusCode::NotFound,
        HttpVersion::V1_0,
        Some(b"X: y\r\n".to_vec()),
        None,
    );
    assert_eq!(response.body_len(), 0);
    assert_eq!(response.encode(), b"HTTP/1.0 Not Found 404\r\nContent-Length: 0\r\nX: y\r\n\r\n".to_vec());
    let other = HttpResponse::new(HttpStatusCode::Other(418, String::from("Teapot")), HttpVersion::V1_1, None, None);
    assert_eq!(other.encode(), b"HTTP/1.1 Teapot 418\r\nContent-Length: 0\r\n\r\n".to_vec());
}

#[test]
fn response_is_sent_whole_to_the_stream() {
    let response = HttpResponse::new(HttpStatusCode::NotFound, HttpVersion::V1_1, None, Some(b"abc".to_vec()));
    let mut out = IOMock::new();
    out.buf.extend_from_slice(b"before ");
    assert!(response.send_to(&mut out).is_ok());
    assert_eq!(out.buf, b"before HTTP/1.1 Not Found 404\r\nContent-Length: 3\r\n\r\nabc".to_vec());
    let response = HttpResponse::new(HttpStatusCode::OK, HttpVersion::V1_0, Some(b"H: v\r\n".to_vec()), Some(b"x".to_vec()));
    let mut out = IOMock::new();
    assert!(response.send_to(&mut out).is_ok());
    assert_eq!(out.buf, b"HTTP/1.0 200 OK 200\r\nContent-Length: 1\r\nH: v\r\n\r\nx".to_vec());
}

#[test]
fn response_to_a_closed_stream_fails() {
    let response = HttpResponse::new(HttpStatusCode::OK, HttpVersion::V1_1, None, None);
    let mut out = IOMock::new();
    out.closed = true;
    assert!(response.send_to(&mut out).is_err());
    assert!(out.buf.is_empty());
}

#[test]
fn responses_for_files_and_data() {
    let css = response_for(&Request::Css(String::from("a.css")), b"body{}".to_vec());
    assert_eq!(
        css.encode(),
        b"HTTP/1.1 200 OK 200\r\nContent-Length: 6\r\nContent-Type: text/css\r\nCache-Control: max-age=3600\r\n\r\nbody{}"
            .to_vec()
    );
    let data = response_for(&Request::Data, b"42".to_vec());
    assert_eq!(data.encode(), b"HTTP/1.1 200 OK 200\r\nContent-Length: 2\r\n\r\n42".to_vec());
}

#[test]
fn request_parsed_from_decoded_text() {
    let request = HttpRequest::from_text("GET /data HTTP/1.1\r\nHost: x\r\n\r\nhello").unwrap();
    assert!(matches!(request.request(), Request::Data));
    assert_eq!(request.headers(), &vec![String::from("Host: x")]);
    assert_eq!(request.body(), &vec![String::from("hello")]);
    let error = HttpRequest::from_text("POST / HTTP/1.1").err().unwrap();
    assert_eq!(error.msg(), HttpRequest::from_text("PUT /x HTTP/1.1").err().unwrap().msg());
}

#[test]
fn request_read_from_valid_utf8_bytes() {
    let request = HttpRequest::read_from("GET /resources/css/á.css HTTP/1.1\r\n".as_bytes()).unwrap();
    match request.request() {
        Request::Css(name) => assert_eq!(name, "á.css"),
        _ => panic!("expected a stylesheet"),
    }
}
