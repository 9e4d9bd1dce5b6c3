use frame_responder::motor::ControlState;
use frame_responder::server::CHUNK_SIZE;
use frame_responder::server::ChunkStep;
use frame_responder::server::build_index_header;
use frame_responder::server::build_status_body;
use frame_responder::server::build_status_header;
use frame_responder::server::control_for_route;
use frame_responder::server::next_chunk;

#[test]
fn response_headers_are_byte_exact() {
    assert_eq!(
        build_index_header(),
        b"HTTP/1.1 200 OK\r\nContent-Encoding: br\r\n\r\n".to_vec()
    );
    assert_eq!(
        build_status_header(),
        b"HTTP/1.1 200 OK\r\nAccess-Control-Allow-Origin: http://192.168.1.2\r\n\r\n".to_vec()
    );
    assert_eq!(
        build_status_body(),
        b"{\r\n\t\"state\": \"false\",\r\n\t\"count\": false\r\n}\r\n".to_vec()
    );
}

#[test]
fn routes_map_to_motor_control() {
    assert_eq!(control_for_route(&b"/f".to_vec()), ControlState::Forward);
    assert_eq!(control_for_route(&b"/r".to_vec()), ControlState::Reverse);
    assert_eq!(control_for_route(&b"/s".to_vec()), ControlState::Idle);
    assert_eq!(control_for_route(&b"/x".to_vec()), ControlState::Idle);
    assert_eq!(control_for_route(&b"".to_vec()), ControlState::Idle);
}

#[test]
fn chunk_cursor_walks_the_body() {
    let body_len = 2 * CHUNK_SIZE + 10;
    let (step, cursor) = next_chunk(0, body_len);
    assert_eq!(step, ChunkStep::Send { start: 0, end: CHUNK_SIZE });
    let (step, cursor) = next_chunk(cursor, body_len);
    assert_eq!(step, ChunkStep::Send { start: CHUNK_SIZE, end: 2 * CHUNK_SIZE });
    let (step, cursor) = next_chunk(cursor, body_len);
    assert_eq!(step, ChunkStep::Send { start: 2 * CHUNK_SIZE, end: body_len });
    let (step, cursor) = next_chunk(cursor, body_len);
    assert_eq!(step, ChunkStep::Close);
    assert_eq!(cursor, 0);
}

#[test]
fn chunk_cursor_closes_on_exact_boundary() {
    // a remainder of exactly one chunk is not sent: the transfer closes
    let (step, cursor) = next_chunk(CHUNK_SIZE, 2 * CHUNK_SIZE);
    assert_eq!(step, ChunkStep::Close);
    assert_eq!(cursor, 0);
}
