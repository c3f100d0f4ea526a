use progress_cli::Registry;
use progress_cli::RoomStep;
use progress_cli::TermCommand;

fn ids(r: &Registry) -> Vec<usize> {
    let mut out = Vec::new();
    let mut i = 0;
    while i < r.len() {
        out.push(r.line_id(i));
        i += 1;
    }
    out
}

fn texts(r: &Registry) -> Vec<String> {
    let mut out = Vec::new();
    let mut i = 0;
    while i < r.len() {
        out.push(r.line_text(i).clone());
        i += 1;
    }
    out
}

fn assert_render(cmds: &[TermCommand], motion_check: impl FnOnce(&TermCommand), text: &str) {
    assert_eq!(cmds.len(), 3);
    motion_check(&cmds[0]);
    match &cmds[1] {
        TermCommand::Print(s) => assert_eq!(s.as_str(), text),
        _ => panic!("expected a print"),
    }
    assert!(matches!(cmds[2], TermCommand::ClearToLineEnd));
}

#[test]
fn new_registry_is_empty() {
    let r = Registry::new(4);
    assert_eq!(r.len(), 0);
    assert!(r.has_room());
    assert_eq!(r.cursor_line(), None);
    assert!(!r.contains(0));
}

#[test]
fn insert_renders_the_new_bottom_row() {
    let mut r = Registry::new(3);
    let (a, cmds) = r.insert_line(String::from("task A"));
    // Cursor was in scroll space: no parking, just the render one row up.
    assert_render(&cmds, |m| assert!(matches!(m, TermCommand::MoveUp(1))), "task A");
    assert_eq!(r.cursor_line(), Some(a));
    assert_eq!(r.line_text(0).as_str(), "task A");
    assert!(!r.line_finalized(0));

    let (b, cmds) = r.insert_line(String::from("task B"));
    // Cursor sat on the bottom line: park it below, then render.
    assert_eq!(cmds.len(), 5);
    assert!(matches!(cmds[0], TermCommand::MoveDown(0)));
    assert!(matches!(cmds[1], TermCommand::LineBreak));
    assert!(matches!(cmds[2], TermCommand::MoveUp(1)));
    match &cmds[3] {
        TermCommand::Print(s) => assert_eq!(s.as_str(), "task B"),
        _ => panic!("expected a print"),
    }
    assert!(matches!(cmds[4], TermCommand::ClearToLineEnd));
    assert_ne!(a, b);
    assert_eq!(ids(&r), vec![a, b]);
}

#[test]
fn update_line_moves_the_cursor_onto_the_line() {
    let mut r = Registry::new(3);
    let (a, _) = r.insert_line(String::from("aa"));
    let (b, _) = r.insert_line(String::from("bb"));
    // Cursor is on the bottom line; the top line is one row up.
    let cmds = r.update_line(a);
    assert_render(&cmds, |m| assert!(matches!(m, TermCommand::MoveUp(1))), "aa");
    assert_eq!(r.cursor_line(), Some(a));
    // Redrawing the line under the cursor needs no vertical motion.
    let cmds = r.update_line(a);
    assert_render(&cmds, |m| assert!(matches!(m, TermCommand::MoveToColumnStart)), "aa");
    assert_eq!(r.cursor_line(), Some(a));
    // The bottom line is one row down again.
    let cmds = r.update_line(b);
    assert_render(&cmds, |m| assert!(matches!(m, TermCommand::MoveDown(1))), "bb");
    assert_eq!(r.cursor_line(), Some(b));
}

#[test]
fn replace_rewrites_in_place() {
    let mut r = Registry::new(2);
    let (a, _) = r.insert_line(String::from("old"));
    let cmds = r.replace(a, String::from("new"));
    assert_render(&cmds, |m| assert!(matches!(m, TermCommand::MoveToColumnStart)), "new");
    assert_eq!(r.line_text(0).as_str(), "new");
    assert_eq!(r.cursor_line(), Some(a));
}

#[test]
fn replace_twice_with_same_text_is_idempotent() {
    let mut r = Registry::new(2);
    let (a, _) = r.insert_line(String::from("start"));
    let _ = r.insert_line(String::from("other"));
    let _first = r.replace(a, String::from("same"));
    let texts_once = texts(&r);
    let ids_once = ids(&r);
    let cursor_once = r.cursor_line();
    let second = r.replace(a, String::from("same"));
    // The state is unchanged, and the only output is the redundant write.
    assert_eq!(texts(&r), texts_once);
    assert_eq!(ids(&r), ids_once);
    assert_eq!(r.cursor_line(), cursor_once);
    assert_render(&second, |m| assert!(matches!(m, TermCommand::MoveToColumnStart)), "same");
}

#[test]
fn full_registry_with_no_finalized_line_must_wait() {
    let mut r = Registry::new(2);
    let _ = r.insert_line(String::from("a"));
    let _ = r.insert_line(String::from("b"));
    assert!(!r.has_room());
    let (step, cmds) = r.make_room_step();
    assert!(matches!(step, RoomStep::MustWait));
    assert!(cmds.is_empty());
    assert_eq!(r.len(), 2);
}

#[test]
fn eviction_removes_only_the_finalized_top_line() {
    // Budget 2: create A and B, fill the screen, then ask for room.
    let mut r = Registry::new(2);
    let (a, _) = r.insert_line(String::from("task A"));
    let (b, _) = r.insert_line(String::from("task B"));
    let (step, _) = r.make_room_step();
    assert!(matches!(step, RoomStep::MustWait));
    r.finalize(a);
    assert!(r.line_finalized(0));
    // The top line is finalized now: one step evicts exactly row 0.
    let (step, _) = r.make_room_step();
    assert!(matches!(step, RoomStep::Evicted));
    assert_eq!(ids(&r), vec![b]);
    let (step, _) = r.make_room_step();
    assert!(matches!(step, RoomStep::HasRoom));
    let (c, _) = r.insert_line(String::from("task C"));
    assert_eq!(ids(&r), vec![b, c]);
    assert_eq!(texts(&r), vec![String::from("task B"), String::from("task C")]);
}

#[test]
fn finalized_top_line_is_evicted_in_one_step() {
    // Budget 3: A finalized immediately, B and C still active.
    let mut r = Registry::new(3);
    let (a, _) = r.insert_line(String::from("A"));
    let (b, _) = r.insert_line(String::from("B"));
    let (c, _) = r.insert_line(String::from("C"));
    r.finalize(a);
    let (step, _) = r.make_room_step();
    assert!(matches!(step, RoomStep::Evicted));
    let (step, _) = r.make_room_step();
    assert!(matches!(step, RoomStep::HasRoom));
    let (d, _) = r.insert_line(String::from("D"));
    assert_eq!(ids(&r), vec![b, c, d]);
}

#[test]
fn buried_finalized_line_is_relocated_then_evicted() {
    // Budget 3: A active, B finalized, C active, in that order.
    let mut r = Registry::new(3);
    let (a, _) = r.insert_line(String::from("line A"));
    let (b, _) = r.insert_line(String::from("line B"));
    let (c, _) = r.insert_line(String::from("line C"));
    r.finalize(b);
    let (step, cmds) = r.make_room_step();
    assert!(matches!(step, RoomStep::Relocated));
    // B moved to the top; rows 0 and 1 are repainted so the screen shows the
    // same content as before the internal reordering.
    assert_eq!(ids(&r), vec![b, a, c]);
    assert_eq!(cmds.len(), 6);
    match &cmds[1] {
        TermCommand::Print(s) => assert_eq!(s.as_str(), "line B"),
        _ => panic!("expected a print"),
    }
    match &cmds[4] {
        TermCommand::Print(s) => assert_eq!(s.as_str(), "line A"),
        _ => panic!("expected a print"),
    }
    let (step, _) = r.make_room_step();
    assert!(matches!(step, RoomStep::Evicted));
    assert_eq!(ids(&r), vec![a, c]);
    let (step, _) = r.make_room_step();
    assert!(matches!(step, RoomStep::HasRoom));
    let (d, _) = r.insert_line(String::from("line D"));
    assert_eq!(ids(&r), vec![a, c, d]);
}

#[test]
fn evicting_the_cursor_line_steps_the_cursor_onto_the_next_line() {
    let mut r = Registry::new(2);
    let (a, _) = r.insert_line(String::from("a"));
    let (b, _) = r.insert_line(String::from("b"));
    r.finalize(a);
    let _ = r.update_line(a);
    assert_eq!(r.cursor_line(), Some(a));
    let (step, cmds) = r.make_room_step();
    assert!(matches!(step, RoomStep::Evicted));
    assert_eq!(cmds.len(), 1);
    assert!(matches!(cmds[0], TermCommand::MoveDown(1)));
    assert_eq!(r.cursor_line(), Some(b));
}

#[test]
fn evicting_the_only_line_parks_the_cursor_in_scroll_space() {
    let mut r = Registry::new(1);
    let (a, _) = r.insert_line(String::from("only"));
    r.finalize(a);
    let (step, cmds) = r.make_room_step();
    assert!(matches!(step, RoomStep::Evicted));
    assert_eq!(cmds.len(), 1);
    assert!(matches!(cmds[0], TermCommand::LineBreak));
    assert_eq!(r.cursor_line(), None);
    assert_eq!(r.len(), 0);
}

#[test]
fn evicting_a_line_the_cursor_is_not_on_moves_nothing() {
    let mut r = Registry::new(2);
    let (a, _) = r.insert_line(String::from("a"));
    let (b, _) = r.insert_line(String::from("b"));
    r.finalize(a);
    assert_eq!(r.cursor_line(), Some(b));
    let (step, cmds) = r.make_room_step();
    assert!(matches!(step, RoomStep::Evicted));
    assert!(cmds.is_empty());
    assert_eq!(r.cursor_line(), Some(b));
}

#[test]
fn teardown_moves_below_the_managed_lines() {
    let mut r = Registry::new(3);
    let (a, _) = r.insert_line(String::from("a"));
    let _ = r.insert_line(String::from("b"));
    let _ = r.insert_line(String::from("c"));
    let _ = r.update_line(a);
    let cmds = r.teardown_commands();
    assert_eq!(cmds.len(), 2);
    assert!(matches!(cmds[0], TermCommand::MoveDown(2)));
    assert!(matches!(cmds[1], TermCommand::LineBreak));
}

#[test]
fn teardown_in_scroll_space_emits_nothing() {
    let r = Registry::new(3);
    assert!(r.teardown_commands().is_empty());
}

#[test]
fn ids_stay_distinct_as_lines_come_and_go() {
    let mut r = Registry::new(2);
    let (a, _) = r.insert_line(String::from("a"));
    let (b, _) = r.insert_line(String::from("b"));
    assert_ne!(a, b);
    r.finalize(a);
    let (step, _) = r.make_room_step();
    assert!(matches!(step, RoomStep::Evicted));
    let (c, _) = r.insert_line(String::from("c"));
    assert_ne!(b, c);
    assert!(r.contains(b));
    assert!(r.contains(c));
    assert!(!r.contains(a));
}

#[test]
fn inserting_parks_the_cursor_from_any_row() {
    let mut r = Registry::new(3);
    let (a, _) = r.insert_line(String::from("a"));
    let _ = r.insert_line(String::from("b"));
    let _ = r.update_line(a);
    // Cursor on the top row: park it below both lines, then render the new
    // bottom row.
    let (_, cmds) = r.insert_line(String::from("c"));
    assert_eq!(cmds.len(), 5);
    assert!(matches!(cmds[0], TermCommand::MoveDown(1)));
    assert!(matches!(cmds[1], TermCommand::LineBreak));
    assert!(matches!(cmds[2], TermCommand::MoveUp(1)));
    match &cmds[3] {
        TermCommand::Print(s) => assert_eq!(s.as_str(), "c"),
        _ => panic!("expected a print"),
    }
    assert!(matches!(cmds[4], TermCommand::ClearToLineEnd));
}

#[test]
fn line_count_never_exceeds_the_budget() {
    let mut r = Registry::new(2);
    let (mut oldest, _) = r.insert_line(String::from("first"));
    assert!(r.len() <= 2);
    let mut round = 0;
    while round < 10 {
        if r.has_room() {
            let (_, _) = r.insert_line(String::from("filler"));
        } else {
            r.finalize(oldest);
            loop {
                let (step, _) = r.make_room_step();
                assert!(r.len() <= 2);
                match step {
                    RoomStep::HasRoom => break,
                    RoomStep::MustWait => panic!("a finalized line was forgotten"),
                    _ => {}
                }
            }
            let (id, _) = r.insert_line(String::from("fresh"));
            oldest = r.line_id(0);
            assert_ne!(oldest, id);
        }
        assert!(r.len() <= 2);
        round += 1;
    }
}
