use pull_trigger::decimal::decimal_text;
use pull_trigger::response::{
    format_response, Response, BAD_REQUEST, END_OF_HEADER, LENGTH_HEADER, NOT_FOUND, OK,
};

#[test]
fn status_lines() {
    assert_eq!(OK, "HTTP/1.1 200 OK");
    assert_eq!(BAD_REQUEST, "HTTP/1.1 400 BAD REQUEST");
    assert_eq!(NOT_FOUND, "HTTP/1.1 404 NOT FOUND");
}

#[test]
fn header_pieces() {
    assert_eq!(LENGTH_HEADER, "\r\nContent-Length: ");
    assert_eq!(END_OF_HEADER, "\r\n\r\n");
}

#[test]
fn decimal_of_single_digits() {
    let expected = ["0", "1", "2", "3", "4", "5", "6", "7", "8", "9"];
    for (n, text) in expected.iter().enumerate() {
        assert_eq!(decimal_text(n), *text);
    }
}

#[test]
fn decimal_of_larger_numbers() {
    assert_eq!(decimal_text(10), "10");
    assert_eq!(decimal_text(11), "11");
    assert_eq!(decimal_text(99), "99");
    assert_eq!(decimal_text(100), "100");
    assert_eq!(decimal_text(1024), "1024");
    assert_eq!(decimal_text(9_876_543_210), "9876543210");
}

#[test]
fn decimal_of_largest_number() {
    assert_eq!(decimal_text(usize::MAX), usize::MAX.to_string());
}

#[test]
fn decimal_agrees_with_std() {
    for n in 0usize..2000 {
        assert_eq!(decimal_text(n), n.to_string());
    }
}

#[test]
fn decimal_reads_back() {
    for n in [0usize, 5, 42, 1000, 65535, 1 << 40] {
        assert_eq!(decimal_text(n).parse::<usize>().unwrap(), n);
    }
}

#[test]
fn format_of_not_found() {
    assert_eq!(
        format_response("HTTP/1.1 404 NOT FOUND", "404"),
        "HTTP/1.1 404 NOT FOUND\r\nContent-Length: 3\r\n\r\n404"
    );
}

#[test]
fn format_of_empty_body() {
    assert_eq!(format_response(OK, ""), "HTTP/1.1 200 OK\r\nContent-Length: 0\r\n\r\n");
}

#[test]
fn format_counts_bytes_not_characters() {
    assert_eq!(
        format_response(OK, "Repo: /caf\u{e9}"),
        "HTTP/1.1 200 OK\r\nContent-Length: 12\r\n\r\nRepo: /caf\u{e9}"
    );
}

#[test]
fn format_keeps_body_verbatim() {
    let body = "line one\r\n\r\nline two\n";
    let wire = format_response(OK, body);
    assert_eq!(wire, format!("HTTP/1.1 200 OK\r\nContent-Length: {}\r\n\r\n{}", body.len(), body));
    assert!(wire.ends_with(body));
}

#[test]
fn format_of_long_body() {
    let body = "x".repeat(12345);
    let wire = format_response(OK, &body);
    assert!(wire.starts_with("HTTP/1.1 200 OK\r\nContent-Length: 12345\r\n\r\nxxx"));
    assert_eq!(wire.len(), "HTTP/1.1 200 OK\r\nContent-Length: 12345\r\n\r\n".len() + 12345);
}

#[test]
fn response_new_copies_both_parts() {
    let response = Response::new(OK, "Repo: /");
    assert_eq!(response.status, "HTTP/1.1 200 OK");
    assert_eq!(response.body, "Repo: /");
}

#[test]
fn response_to_wire() {
    let response = Response::new(BAD_REQUEST, "400");
    assert_eq!(response.to_wire(), "HTTP/1.1 400 BAD REQUEST\r\nContent-Length: 3\r\n\r\n400");
}
