use route_server::connection::{follow_route, handle_connection, Step};
use route_server::response::{render_result, serve_file, HttpResult};
use route_server::route::{Route, RouteAction, RouteTable};

fn routes() -> RouteTable {
    RouteTable::build(
        "\"/\" : open \"index.html\"\n\"/f\" : open \"f.txt\"\n\"/odd\" : frobnicate \"x\"\n",
    )
    .expect("the configuration is well formed")
}

#[test]
fn request_without_request_line_is_ignored() {
    assert_eq!(handle_connection(b"", &routes()), Step::Ignore);
    assert_eq!(handle_connection(b"POST / HTTP/1.1\r\n", &routes()), Step::Ignore);
    assert_eq!(handle_connection(b"GET /f HTTP/1.0\r\n", &routes()), Step::Ignore);
    assert_eq!(handle_connection(&[0u8; 512], &routes()), Step::Ignore);
}

#[test]
fn unmatched_path_is_not_found() {
    let step = handle_connection(b"GET /nowhere HTTP/1.1\r\n\r\n", &routes());
    assert_eq!(
        step,
        Step::Reply(HttpResult::HttpNotFound(String::from("Route at /nowhere, not found!")))
    );
    match step {
        Step::Reply(result) => assert_eq!(
            render_result(result),
            "HTTP/1.1 404 Not Found\r\n\r\nRoute at /nowhere, not found!"
        ),
        _ => unreachable!(),
    }
}

#[test]
fn every_path_is_not_found_under_the_empty_table() {
    let empty = RouteTable::build("").expect("nothing can be malformed");
    assert_eq!(
        handle_connection(b"GET / HTTP/1.1\r\n", &empty),
        Step::Reply(HttpResult::HttpNotFound(String::from("Route at /, not found!")))
    );
}

#[test]
fn open_rule_asks_for_its_file() {
    assert_eq!(
        handle_connection(b"GET / HTTP/1.1\r\n\r\n", &routes()),
        Step::ReadFile(String::from("index.html"))
    );
    assert_eq!(
        handle_connection(b"GET /f HTTP/1.1\r\nHost: localhost\r\n\r\n", &routes()),
        Step::ReadFile(String::from("f.txt"))
    );
}

#[test]
fn file_that_was_read_is_answered_with_its_contents() {
    let file = match handle_connection(b"GET /f HTTP/1.1\r\n\r\n", &routes()) {
        Step::ReadFile(file) => file,
        other => panic!("expected a file to read, got {:?}", other),
    };
    assert_eq!(
        render_result(serve_file(&file, Some(String::from("hello")))),
        "HTTP/1.1 200 Ok\r\n\r\nhello"
    );
    assert_eq!(
        render_result(serve_file(&file, None)),
        "HTTP/1.1 500 Server Error\r\n\r\nFile f.txt not found!"
    );
}

#[test]
fn rule_without_a_meaning_abandons_the_connection() {
    assert_eq!(
        handle_connection(b"GET /odd HTTP/1.1\r\n\r\n", &routes()),
        Step::Abandon(String::from("/odd"))
    );
}

#[test]
fn first_rule_that_matches_decides() {
    let table = RouteTable::build("\"/.*\" : nothing \"x\"\n\"/f\" : open \"f.txt\"\n")
        .expect("the configuration is well formed");
    assert_eq!(
        handle_connection(b"GET /f HTTP/1.1\r\n", &table),
        Step::Abandon(String::from("/f"))
    );
    let table = RouteTable::build("\"/f\" : open \"f.txt\"\n\"/.*\" : nothing \"x\"\n")
        .expect("the configuration is well formed");
    assert_eq!(
        handle_connection(b"GET /f HTTP/1.1\r\n", &table),
        Step::ReadFile(String::from("f.txt"))
    );
}

#[test]
fn path_without_a_rule_is_answered_with_404() {
    assert_eq!(
        follow_route(String::from("/x/y.z"), None),
        Step::Reply(HttpResult::HttpNotFound(String::from("Route at /x/y.z, not found!")))
    );
    assert_eq!(
        follow_route(String::new(), None),
        Step::Reply(HttpResult::HttpNotFound(String::from("Route at , not found!")))
    );
}

#[test]
fn rule_decides_the_step() {
    let open = Route {
        pattern: String::from("^/$"),
        action: RouteAction::Open(String::from("index.html")),
    };
    let odd = Route { pattern: String::from("^/$"), action: RouteAction::Unhandled };
    assert_eq!(
        follow_route(String::from("/"), Some(&open)),
        Step::ReadFile(String::from("index.html"))
    );
    assert_eq!(follow_route(String::from("/"), Some(&odd)), Step::Abandon(String::from("/")));
}

#[test]
fn request_is_read_up_to_the_limit_only() {
    let table = routes();
    let mut request = vec![b' '; 600];
    request[..16].copy_from_slice(b"GET /f HTTP/1.1\r");
    assert_eq!(handle_connection(&request, &table), Step::ReadFile(String::from("f.txt")));

    let mut long = Vec::from(&b"GET /"[..]);
    long.resize(510, b'a');
    long.extend_from_slice(b" HTTP/1.1\r\n");
    assert_eq!(handle_connection(&long, &table), Step::Ignore);

    let mut fits = Vec::from(&b"GET /"[..]);
    fits.resize(503, b'a');
    fits.extend_from_slice(b" HTTP/1.1\r\n");
    assert_eq!(fits.len(), 514);
    match handle_connection(&fits, &table) {
        Step::Reply(HttpResult::HttpNotFound(message)) => {
            assert_eq!(message.len(), "Route at , not found!".len() + 499)
        }
        other => panic!("expected a 404, got {:?}", other),
    }
}

#[test]
fn path_that_a_pattern_covers_in_part_is_not_found() {
    assert_eq!(
        handle_connection(b"GET /fa HTTP/1.1\r\n\r\n", &routes()),
        Step::Reply(HttpResult::HttpNotFound(String::from("Route at /fa, not found!")))
    );
    assert_eq!(
        handle_connection(b"GET /odd/ HTTP/1.1\r\n\r\n", &routes()),
        Step::Reply(HttpResult::HttpNotFound(String::from("Route at /odd/, not found!")))
    );
}
