use linedb::{
    build_index, err_response, get_line, get_response, plan_frame, shutdown_response, DbError,
    Plan,
};

#[test]
fn zero_length_read_closes_silently() {
    // a disconnected peer never gets an ERR reply
    let buf: Vec<u8> = Vec::new();
    assert_eq!(plan_frame(&buf), Plan::Disconnect);
}

#[test]
fn malformed_frame_is_rejected() {
    let buf: Vec<u8> = vec![0x30, 0x00, 0x00];
    assert_eq!(plan_frame(&buf), Plan::Reject);
    let bad_checksum: Vec<u8> = vec![0x30, 0x00, 0x00, 0x00, 0x01, 0x30, 0x0A];
    assert_eq!(plan_frame(&bad_checksum), Plan::Reject);
}

#[test]
fn get_frame_plans_a_fetch() {
    let buf: Vec<u8> = vec![0x30, 0x00, 0x00, 0x00, 0x01, 0x31, 0x0A];
    assert_eq!(plan_frame(&buf), Plan::Fetch(1));
}

#[test]
fn quit_and_shutdown_frames_plan_closing() {
    let quit: Vec<u8> = vec![0x31, 0x00, 0x00, 0x00, 0x00, 0x31, 0x0A];
    assert_eq!(plan_frame(&quit), Plan::Quit);
    let shutdown: Vec<u8> = vec![0x32, 0x00, 0x00, 0x00, 0x00, 0x32, 0x0A];
    assert_eq!(plan_frame(&shutdown), Plan::Shutdown);
}

#[test]
fn get_line_one_replies_ok_alpha() {
    // GET line 1, checksum = (0x30 + 0 + 0 + 0 + 1) mod 256 = 0x31
    let data = b"alpha\nbeta\ngamma\n";
    let index = build_index(data);
    let wire: Vec<u8> = vec![0x30, 0x00, 0x00, 0x00, 0x01, 0x31, 0x0A];
    match plan_frame(&wire) {
        Plan::Fetch(n) => {
            let fetched = get_line(data, &index, n as u64);
            let reply = get_response(&fetched);
            assert_eq!(reply, b"OK\r\nalpha\n".to_vec());
        },
        other => panic!("expected a fetch plan, got {:?}", other),
    }
}

#[test]
fn missing_line_replies_err() {
    let data = b"alpha\n";
    let index = build_index(data);
    let fetched = get_line(data, &index, 9);
    assert_eq!(fetched, Err(DbError::LineNotFound));
    assert_eq!(get_response(&fetched), b"ERR\r\n".to_vec());
}

#[test]
fn response_banners() {
    assert_eq!(err_response(), b"ERR\r\n".to_vec());
    assert_eq!(shutdown_response(), b"SHUTDOWN\r\n".to_vec());
    assert_eq!(get_response(&Ok(b"beta\n".to_vec())), b"OK\r\nbeta\n".to_vec());
    assert_eq!(get_response(&Ok(Vec::new())), b"OK\r\n".to_vec());
}
