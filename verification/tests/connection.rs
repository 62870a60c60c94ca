use frame_server::connection::{Connection, FrameReadError, ReadOutcome, Step};

fn proceeds_to(step: Step) -> Connection {
    match step {
        Step::Proceed(next) => next,
        other => panic!("expected Proceed, got {:?}", other),
    }
}

fn publishes(step: Step) -> (Vec<u8>, Connection) {
    match step {
        Step::Publish(frame, next) => (frame, next),
        other => panic!("expected Publish, got {:?}", other),
    }
}

fn closes_with(step: Step) -> FrameReadError {
    match step {
        Step::Close(error) => error,
        other => panic!("expected Close, got {:?}", other),
    }
}

#[test]
fn new_connection_awaits_a_header() {
    let conn = Connection::new();
    assert_eq!(conn, Connection::AwaitingHeader);
    assert_eq!(conn.wanted(), 8);
}

#[test]
fn header_announces_the_body() {
    let conn = Connection::new();
    let next = proceeds_to(conn.on_read(ReadOutcome::Data(vec![64, 0, 0, 0, 0, 0, 0, 0])));
    assert_eq!(next, Connection::AwaitingBody { len: 64 });
    assert_eq!(next.wanted(), 64);
}

#[test]
fn large_header_is_taken_as_it_is() {
    let conn = Connection::new();
    let next = proceeds_to(conn.on_read(ReadOutcome::Data(vec![0xff; 8])));
    assert_eq!(next, Connection::AwaitingBody { len: u64::MAX });
    assert_eq!(next.wanted(), u64::MAX);
}

#[test]
fn whole_body_is_published() {
    let conn = Connection::AwaitingBody { len: 3 };
    let (frame, next) = publishes(conn.on_read(ReadOutcome::Data(vec![7, 8, 9])));
    assert_eq!(frame, vec![7, 8, 9]);
    assert_eq!(next, Connection::AwaitingHeader);
    assert_eq!(next.wanted(), 8);
}

#[test]
fn empty_body_is_published() {
    let conn = Connection::new();
    let next = proceeds_to(conn.on_read(ReadOutcome::Data(vec![0; 8])));
    assert_eq!(next, Connection::AwaitingBody { len: 0 });
    assert_eq!(next.wanted(), 0);
    let (frame, next) = publishes(next.on_read(ReadOutcome::Data(Vec::new())));
    assert_eq!(frame, Vec::<u8>::new());
    assert_eq!(next, Connection::AwaitingHeader);
}

#[test]
fn failed_header_read_closes() {
    let conn = Connection::new();
    assert_eq!(closes_with(conn.on_read(ReadOutcome::Failed)), FrameReadError::Header);
}

#[test]
fn short_header_closes() {
    let conn = Connection::new();
    assert_eq!(
        closes_with(conn.on_read(ReadOutcome::Data(vec![64, 0, 0, 0, 0, 0, 0]))),
        FrameReadError::Header
    );
    let conn = Connection::new();
    assert_eq!(closes_with(conn.on_read(ReadOutcome::Data(Vec::new()))), FrameReadError::Header);
}

#[test]
fn overlong_header_closes() {
    let conn = Connection::new();
    assert_eq!(
        closes_with(conn.on_read(ReadOutcome::Data(vec![1, 0, 0, 0, 0, 0, 0, 0, 0]))),
        FrameReadError::Header
    );
}

#[test]
fn failed_body_read_closes() {
    let conn = Connection::AwaitingBody { len: 64 };
    assert_eq!(closes_with(conn.on_read(ReadOutcome::Failed)), FrameReadError::Body);
}

#[test]
fn short_body_closes() {
    let conn = Connection::AwaitingBody { len: 64 };
    assert_eq!(closes_with(conn.on_read(ReadOutcome::Data(vec![1; 63]))), FrameReadError::Body);
    let conn = Connection::AwaitingBody { len: 64 };
    assert_eq!(closes_with(conn.on_read(ReadOutcome::Data(vec![1; 65]))), FrameReadError::Body);
    let conn = Connection::AwaitingBody { len: 1 };
    assert_eq!(closes_with(conn.on_read(ReadOutcome::Data(Vec::new()))), FrameReadError::Body);
}

#[test]
fn frames_follow_one_another() {
    let mut conn = Connection::new();
    let mut published: Vec<Vec<u8>> = Vec::new();
    let reads: Vec<Vec<u8>> = vec![
        vec![2, 0, 0, 0, 0, 0, 0, 0],
        vec![0xA1, 0xA2],
        vec![0, 0, 0, 0, 0, 0, 0, 0],
        vec![],
        vec![1, 0, 0, 0, 0, 0, 0, 0],
        vec![0xC1],
    ];
    for read in reads {
        match conn.on_read(ReadOutcome::Data(read)) {
            Step::Proceed(next) => conn = next,
            Step::Publish(frame, next) => {
                published.push(frame);
                conn = next;
            }
            Step::Close(error) => panic!("closed with {:?}", error),
        }
    }
    assert_eq!(published, vec![vec![0xA1, 0xA2], vec![], vec![0xC1]]);
    assert_eq!(conn, Connection::AwaitingHeader);
}
