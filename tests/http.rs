use webserver_book::http::{response, route, Route};

#[test]
fn route_home() {
    assert_eq!(route(b"GET / HTTP/1.1"), Route::Home);
}

#[test]
fn route_sleep() {
    assert_eq!(route(b"GET /sleep HTTP/1.1"), Route::Sleep);
}

#[test]
fn route_anything_else_is_not_found() {
    assert_eq!(route(b"GET /other HTTP/1.1"), Route::NotFound);
    assert_eq!(route(b""), Route::NotFound);
    assert_eq!(route(b"GET / HTTP/1.0"), Route::NotFound);
    assert_eq!(route(b"GET / HTTP/1.1 "), Route::NotFound);
}

#[test]
fn route_status_file_and_pause() {
    assert_eq!(Route::Home.status_line(), "HTTP/1.1 200 OK");
    assert_eq!(Route::Sleep.status_line(), "HTTP/1.1 200 OK");
    assert_eq!(Route::NotFound.status_line(), "HTTP/1.1 404 NOT FOUND");
    assert_eq!(Route::Home.file_name(), "hello.html");
    assert_eq!(Route::Sleep.file_name(), "hello.html");
    assert_eq!(Route::NotFound.file_name(), "404.html");
    assert!(!Route::Home.pauses());
    assert!(Route::Sleep.pauses());
    assert!(!Route::NotFound.pauses());
}

#[test]
fn response_framing() {
    let r = response(b"HTTP/1.1 200 OK", b"<p>hi</p>");
    assert_eq!(r, b"HTTP/1.1 200 OK\r\nContent-Length: 9\r\n\r\n<p>hi</p>".to_vec());
}

#[test]
fn response_with_empty_body() {
    let r = response(b"HTTP/1.1 404 NOT FOUND", b"");
    assert_eq!(r, b"HTTP/1.1 404 NOT FOUND\r\nContent-Length: 0\r\n\r\n".to_vec());
}

#[test]
fn response_length_with_several_digits() {
    let body = vec![b'x'; 1234];
    let r = response(b"S", &body);
    let mut expected = b"S\r\nContent-Length: 1234\r\n\r\n".to_vec();
    expected.extend_from_slice(&body);
    assert_eq!(r, expected);
    let body = vec![b'y'; 10];
    let r = response(b"S", &body);
    assert!(r.starts_with(b"S\r\nContent-Length: 10\r\n\r\n"));
}
