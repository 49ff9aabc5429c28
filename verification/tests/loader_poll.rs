use cbz_viewer::viewer::loader_poll::LoaderPoll;

/// How many of the waiting answers a frame takes, and how often it asks.
fn poll(worker_count: usize, waiting: usize) -> (usize, usize) {
    let mut poll = LoaderPoll::new(worker_count);
    let (mut taken, mut asked) = (0, 0);
    while poll.wants_answer() {
        let answered = taken < waiting;
        asked += 1;
        taken += usize::from(answered);
        poll.note(answered);
    }
    (taken, asked)
}

#[test]
fn a_frame_takes_no_more_than_its_share() {
    assert_eq!(poll(3, 100), (9, 9));
    assert_eq!(poll(1, 100), (1, 1));
    assert_eq!(poll(0, 100), (1, 1));
}

#[test]
fn an_empty_pass_is_the_last() {
    assert_eq!(poll(3, 0), (0, 1));
    // The second pass ends early, and the third finds nothing.
    assert_eq!(poll(3, 4), (4, 6));
    assert_eq!(poll(3, 3), (3, 4));
}
