use nexus_engine::cli::status_board::StatusBoard;

fn text(bytes: &[u8]) -> String {
    String::from_utf8(bytes.to_vec()).unwrap()
}

const UP: &str = "\x1b[A";
const LINE: &str = "\r\x1b[K";

#[test]
fn first_frame_draws_every_slot() {
    let mut board = StatusBoard::new(2);
    board.start("a", "echo a");
    let frame = text(&board.render());
    assert_eq!(
        frame,
        format!("{LINE}[0] \x1b[94m>\x1b[0m a: \n{LINE}[1] idle\n")
    );
}

#[test]
fn later_frames_back_up_over_the_last() {
    let mut board = StatusBoard::new(2);
    let _ = board.render();
    board.start("a", "cmd");
    let frame = text(&board.chunk("a", "  working  ").expect("a runs"));
    assert_eq!(
        frame,
        format!("{UP}{UP}{LINE}[0] \x1b[94m>\x1b[0m a: working\n{LINE}[1] idle\n")
    );
}

#[test]
fn completion_and_failure_are_shown() {
    let mut board = StatusBoard::new(2);
    board.start("a", "x");
    board.start("b", "y");
    let _ = board.complete("a").expect("a shown");
    let frame = text(&board.fail("b").expect("b shown"));
    assert_eq!(
        frame,
        format!(
            "{UP}{UP}{LINE}[0] \x1b[92mv\x1b[0m a: completed\n{LINE}[1] \x1b[91mx\x1b[0m b: failed\n"
        )
    );
}

#[test]
fn updates_for_unknown_nodes_draw_nothing() {
    let mut board = StatusBoard::new(1);
    assert!(board.chunk("z", "text").is_none());
    assert!(board.complete("z").is_none());
    board.start("a", "x");
    assert!(board.chunk("a", "   ").is_none(), "blank chunk changes nothing");
    board.start("b", "y");
    assert!(board.complete("b").is_none(), "no slot was free for b");
}

#[test]
fn clear_erases_the_last_frame() {
    let mut board = StatusBoard::new(2);
    assert!(board.clear().is_empty());
    let _ = board.render();
    assert_eq!(text(&board.clear()), format!("{UP}{UP}{LINE}\n{LINE}\n"));
}

#[test]
fn long_commands_are_truncated() {
    assert_eq!(StatusBoard::truncate_command("echo hi"), "echo hi");
    let long = "/usr/local/bin/python3 scripts/some_long_script_name.py --flag";
    assert_eq!(StatusBoard::truncate_command(long), "python3 ...");
    let no_space = "x".repeat(50);
    assert_eq!(StatusBoard::truncate_command(&no_space), no_space);
}
