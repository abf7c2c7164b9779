use terminite::ancestry::{pane_from_pid, ShellPid};
use terminite::animation::{Frame, TabAnimation};
use terminite::comms;
use terminite::files::{FileWaiters, FILE_WAITERS_CAP};
use terminite::floor::{
    compose_line, flatten, Floor, SlugPane, Surroundings, HUMAN_TYPING_WINDOW, PTY_IDLE,
    PTY_RETRY, PTY_SUBMIT_DELAY,
};
use terminite::renderer::{BellStyle, Renderer, Settings};
use terminite::room::{
    directed, resolve, Actor, Push, Room, RoomMessage, DELIVERY_MAX, DELIVERY_WINDOW_MS,
    MAX_REDELIVERY, PENDING_CAP, STALL_DEADLINE,
};

fn empty() -> Room {
    Room { actors: Vec::new() }
}

fn window(delivery: bool) -> Renderer {
    let config = Settings {
        bell_style: BellStyle::Visual,
        cursor_blink: true,
        comms_delivery: delivery,
    };
    Renderer::new(80, 24, (800, 600), Vec::new(), config, 0, 0)
}

fn message(id: u64, text: &str) -> RoomMessage {
    RoomMessage { message_id: id, from: "kimi-1".into(), text: text.into() }
}

fn actor<'a>(r: &'a Room, slug: &str) -> &'a Actor {
    r.actors.iter().find(|a| a.slug == slug).unwrap()
}

fn slug_pane(slug: &str, pane: u64) -> SlugPane {
    SlugPane { slug: slug.into(), pane }
}

/// Kimi says something to Codex, which is recorded under an id.
fn tell(room: &mut Room, text: &str, id: u64, on: bool) -> Option<Push> {
    room.emit_directed(&directed("kimi-1", Some("codex-1"), text), id, on, 0, 0)
}

/// Hand out a batch to receivers that take it, or do not.
fn hand_out(room: &mut Room, mut batch: Vec<Push>, taken: bool, now: u64) -> Vec<(u64, String)> {
    let mut out = Vec::new();
    while let Some(p) = room.next_push(&mut batch) {
        room.push_answered(&p.target, p.conn, taken, now);
        out.push((p.conn, p.message.text));
    }
    out
}

#[test]
fn a_message_waits_for_its_addressee() {
    let mut room = empty();
    let m = directed("kimi-1", Some("codex-1"), "hi");
    assert_eq!((m.actor.as_str(), m.agent_name.as_str()), ("kimi-1", "Kimi"));
    assert_eq!((m.to.as_deref(), m.text.as_str()), (Some("codex-1"), "hi"));
    assert_eq!(room.emit_directed(&m, 41, true, 0, 7), None);
    assert_eq!(actor(&room, "codex-1").pending, vec![41]);
    assert_eq!(actor(&room, "kimi-1").last_activity, Some(7));
    // Without a receiver nothing is watched, but the attempt counts.
    assert!(actor(&room, "codex-1").watch.is_none());
    assert_eq!(actor(&room, "codex-1").log, vec![0]);
}

#[test]
fn a_message_to_nobody_is_only_recorded() {
    let mut room = empty();
    let m = directed("kimi-1", None, "hi");
    assert_eq!(m.to, None);
    assert_eq!(room.emit_directed(&m, 1, true, 0, 7), None);
    assert_eq!(room.actors.len(), 1);
}

#[test]
fn a_message_goes_to_its_receiver() {
    let mut room = empty();
    room.room_subscribe(9, "codex-1", &Vec::new(), true, 0);
    let p = tell(&mut room, "hi", 4, true).unwrap();
    assert_eq!((p.target.as_str(), p.conn), ("codex-1", 9));
    assert_eq!(p.message, message(4, "hi"));
    // Silence counts from when it was taken.
    assert!(actor(&room, "codex-1").watch.is_none());
    room.push_answered("codex-1", 9, true, 5);
    assert_eq!(actor(&room, "codex-1").watch.as_ref().unwrap().deadline, 5 + STALL_DEADLINE);
}

#[test]
fn catch_up_is_complete() {
    let mut room = empty();
    for (i, text) in ["a", "b", "c"].into_iter().enumerate() {
        assert_eq!(tell(&mut room, text, i as u64 + 1, true), None);
    }
    let store = vec![message(1, "a"), message(2, "b"), message(3, "c")];
    let batch = room.room_subscribe(9, "codex-1", &store, true, 0);
    let want: Vec<(u64, String)> =
        vec![(9, "a".into()), (9, "b".into()), (9, "c".into())];
    assert_eq!(hand_out(&mut room, batch, true, 5), want);
    let a = actor(&room, "codex-1");
    assert_eq!(a.conn, Some(9));
    assert_eq!(a.watch.as_ref().unwrap().deadline, 5 + STALL_DEADLINE);
    // They stay queued until they are acknowledged.
    assert_eq!(a.pending, vec![1, 2, 3]);
    room.room_ack("codex-1", 2);
    assert_eq!(actor(&room, "codex-1").pending, vec![1, 3]);
}

#[test]
fn an_acknowledged_message_is_not_delivered_again() {
    let mut room = empty();
    tell(&mut room, "a", 1, true);
    room.room_ack("codex-1", 1);
    let store = vec![message(1, "a")];
    assert!(room.room_subscribe(9, "codex-1", &store, true, 0).is_empty());
    assert_eq!(actor(&room, "codex-1").conn, Some(9));
}

#[test]
fn a_receiver_that_hung_up_is_forgotten() {
    let mut room = empty();
    let store = vec![message(1, "a"), message(2, "b")];
    tell(&mut room, "a", 1, true);
    tell(&mut room, "b", 2, true);
    let batch = room.room_subscribe(9, "codex-1", &store, true, 0);
    assert_eq!(batch.len(), 2);
    // After the one that failed nothing more goes there.
    assert_eq!(hand_out(&mut room, batch, false, 0), vec![(9, "a".to_string())]);
    assert_eq!(actor(&room, "codex-1").conn, None);
    assert!(actor(&room, "codex-1").watch.is_none());
    room.room_subscribe(10, "codex-1", &Vec::new(), true, 0);
    // An answer of the one before does not count against the new one.
    room.push_answered("codex-1", 9, false, 0);
    assert_eq!(actor(&room, "codex-1").conn, Some(10));
    room.drop_connection(9);
    assert_eq!(actor(&room, "codex-1").conn, Some(10));
    room.drop_connection(10);
    assert_eq!(actor(&room, "codex-1").conn, None);
}

#[test]
fn delivery_has_its_rate() {
    let mut room = empty();
    room.room_subscribe(9, "codex-1", &Vec::new(), true, 0);
    let mut sent = 0;
    for i in 0..20 {
        sent += room.push_room_message("codex-1", message(i, "a"), true, 100).iter().count();
    }
    assert_eq!(sent, DELIVERY_MAX);
    assert_eq!(actor(&room, "codex-1").log.len(), DELIVERY_MAX);
    let later = 100 + DELIVERY_WINDOW_MS;
    assert_eq!(room.push_room_message("codex-1", message(99, "a"), true, later - 1), None);
    let p = room.push_room_message("codex-1", message(99, "a"), true, later).unwrap();
    assert_eq!((p.target.as_str(), p.conn, p.message.message_id), ("codex-1", 9, 99));
    assert_eq!(actor(&room, "codex-1").log, vec![later]);
}

#[test]
fn catch_up_keeps_to_the_rate() {
    let mut room = empty();
    let store: Vec<RoomMessage> = (1..20).map(|i| message(i, "a")).collect();
    for i in 1..20 {
        tell(&mut room, "a", i, false);
    }
    assert_eq!(room.room_subscribe(9, "codex-1", &store, true, 0).len(), DELIVERY_MAX);
    assert!(room.deliver_pending("codex-1", &store, true, 1).is_empty());
    let later = room.deliver_pending("codex-1", &store, true, DELIVERY_WINDOW_MS);
    assert_eq!(later.len(), DELIVERY_MAX);
    assert_eq!(later[0].message.message_id, 1);
}

#[test]
fn delivery_that_is_off_sends_nothing() {
    let mut room = empty();
    room.room_subscribe(9, "codex-1", &Vec::new(), false, 0);
    assert_eq!(tell(&mut room, "a", 1, false), None);
    assert_eq!(actor(&room, "codex-1").pending, vec![1]);
    assert!(actor(&room, "codex-1").log.is_empty());
    let store = vec![message(1, "a")];
    assert!(room.deliver_pending("codex-1", &store, false, 0).is_empty());
    // Switched on again, it catches up.
    assert_eq!(room.deliver_pending("codex-1", &store, true, 0).len(), 1);
    room.push_answered("codex-1", 9, true, 0);
    assert!(room.check_stalls(&store, false, 0, STALL_DEADLINE).is_empty());
}

#[test]
fn the_queue_keeps_the_newest() {
    let mut room = empty();
    for i in 1..PENDING_CAP as u64 + 3 {
        tell(&mut room, "a", i, false);
    }
    let want: Vec<u64> = (3..PENDING_CAP as u64 + 3).collect();
    assert_eq!(actor(&room, "codex-1").pending, want);
}

#[test]
fn redelivery_ends() {
    let mut room = empty();
    let store = vec![message(1, "a")];
    room.room_subscribe(9, "codex-1", &store, true, 0);
    let first: Vec<Push> = tell(&mut room, "a", 1, true).into_iter().collect();
    assert_eq!(hand_out(&mut room, first, true, 0).len(), 1);
    let mut now = 0;
    assert!(room.check_stalls(&store, true, 0, now).is_empty());
    for i in 0..MAX_REDELIVERY {
        now += STALL_DEADLINE;
        let batch = room.check_stalls(&store, true, now, now);
        assert_eq!(hand_out(&mut room, batch, true, now), vec![(9, "a".to_string())]);
        assert_eq!(actor(&room, "codex-1").watch.as_ref().unwrap().retries, i + 1);
    }
    now += STALL_DEADLINE;
    assert!(room.check_stalls(&store, true, now, now).is_empty());
    assert!(actor(&room, "codex-1").watch.is_none());
}

#[test]
fn an_actor_that_acts_is_not_stalled() {
    let mut room = empty();
    room.room_subscribe(9, "codex-1", &Vec::new(), true, 0);
    room.push_room_message("codex-1", message(1, "a"), true, 0);
    room.push_answered("codex-1", 9, true, 0);
    assert!(actor(&room, "codex-1").watch.is_some());
    room.wake("codex-1", 3);
    assert!(actor(&room, "codex-1").watch.is_none());
    assert_eq!(actor(&room, "codex-1").last_activity, Some(3));
}

#[test]
fn messages_that_are_gone_are_passed_over() {
    let store = vec![message(1, "a"), message(3, "c"), message(3, "d")];
    let texts: Vec<String> =
        resolve(&store, &vec![3, 2, 1]).iter().map(|m| m.text.clone()).collect();
    assert_eq!(texts, vec!["c", "a"]);
    let mut room = empty();
    assert!(room.deliver_pending("codex-1", &store, true, 0).is_empty());
}

#[test]
fn waiters_stand_in_line() {
    let mut w = FileWaiters::new();
    w.join("a.rs", "kimi-1");
    w.join("a.rs", "codex-1");
    w.join("a.rs", "kimi-1");
    w.join("b.rs", "kimi-1");
    assert_eq!(w.queues.len(), 2);
    assert_eq!(w.queues[0].waiters, vec!["kimi-1", "codex-1"]);
    let freed = w.take_freed(&vec!["b.rs".to_string()]);
    assert_eq!(freed.len(), 1);
    assert_eq!(freed[0].path, "a.rs");
    assert_eq!(w.queues.len(), 1);
    for i in 0..FILE_WAITERS_CAP + 1 {
        w.join("b.rs", &format!("x{i}"));
    }
    // The oldest go where the line is full.
    assert_eq!(w.queues[0].waiters.len(), FILE_WAITERS_CAP);
    assert_eq!(w.queues[0].waiters[0], "x1");
}

#[test]
fn waiters_are_told() {
    let mut w = FileWaiters::new();
    w.join("a.rs", "kimi-1");
    w.join("b.rs", "codex-1");
    let told = comms::notify_freed_waiters(&mut w, &vec!["b.rs".to_string()]);
    assert_eq!(told.len(), 1);
    let r = &told[0];
    assert_eq!((r.actor.as_str(), r.agent_name.as_str()), ("terminite", "Terminite"));
    assert_eq!((r.to.as_deref(), r.text.as_str()), (Some("kimi-1"), "file is now free: a.rs"));
    assert_eq!(w.queues.len(), 1);
}

#[test]
fn floor_lines_are_one_line() {
    assert_eq!(flatten("a\nb\r\nc"), "a b  c");
    let ms = vec![message(1, "x\ny"), message(2, "z")];
    assert_eq!(compose_line(&ms), "[terminite room] [kimi-1] x y  ·  [kimi-1] z");
    assert_eq!(compose_line(&ms[..0].iter().map(|m| m.copy()).collect()), "[terminite room] ");
}

#[test]
fn a_typing_human_is_at_the_pane() {
    let mut f = Floor::new();
    let here = |now: u64| Surroundings { focused: true, active_tab: 3, now };
    assert!(!f.human_at_pane(&here(0), 3));
    f.note_human_input(3, 10);
    assert!(f.human_at_pane(&here(10), 3));
    assert!(f.human_at_pane(&here(9 + HUMAN_TYPING_WINDOW), 3));
    assert!(!f.human_at_pane(&here(10 + HUMAN_TYPING_WINDOW), 3));
    assert!(!f.human_at_pane(&here(10), 4));
    assert!(!f.human_at_pane(&Surroundings { focused: false, ..here(10) }, 3));
}

#[test]
fn the_floor_types_once() {
    let mut r = window(true);
    tell(&mut r.room, "hi", 1, true);
    let panes = vec![slug_pane("codex-1", 0)];
    let store = vec![message(1, "hi")];
    assert!(r.has_pending_pty_work(&panes));
    assert!(!r.has_pending_pty_work(&Vec::new()));
    assert_eq!(r.next_wakeup(&panes, 50), Some(50 + PTY_RETRY));
    // Not while the human types there.
    r.note_human_input(100);
    assert!(r.try_pty_deliveries(&panes, &store, 200).is_empty());
    let now = 100 + HUMAN_TYPING_WINDOW;
    let typed = r.try_pty_deliveries(&panes, &store, now);
    assert_eq!(typed.len(), 1);
    assert_eq!((typed[0].pane, typed[0].line.as_str()), (0, "[terminite room] [kimi-1] hi"));
    assert!(!r.has_pending_pty_work(&panes));
    assert!(r.try_pty_deliveries(&panes, &store, now).is_empty());
    // The Enter comes a beat later, once.
    assert_eq!(r.next_wakeup(&panes, now), Some(now + PTY_SUBMIT_DELAY));
    assert!(r.flush_pty_submits(now).is_empty());
    assert_eq!(r.flush_pty_submits(now + PTY_SUBMIT_DELAY), vec![0]);
    assert!(r.flush_pty_submits(now + PTY_SUBMIT_DELAY).is_empty());
    assert_eq!(r.next_wakeup(&panes, now), None);
}

#[test]
fn the_floor_waits_for_an_idle_actor() {
    let mut r = window(true);
    r.room.wake("codex-1", 10);
    tell(&mut r.room, "hi", 1, true);
    let panes = vec![slug_pane("codex-1", 0)];
    let store = vec![message(1, "hi")];
    assert!(r.try_pty_deliveries(&panes, &store, 10 + PTY_IDLE).is_empty());
    assert_eq!(r.try_pty_deliveries(&panes, &store, 11 + PTY_IDLE).len(), 1);
}

#[test]
fn a_receiver_goes_before_the_floor() {
    let mut r = window(true);
    r.room.room_subscribe(9, "codex-1", &Vec::new(), true, 0);
    let p = tell(&mut r.room, "hi", 1, true).unwrap();
    r.push_answered(&p.target, p.conn, true, 0);
    let panes = vec![slug_pane("codex-1", 0)];
    assert!(!r.has_pending_pty_work(&panes));
    assert!(r.try_pty_deliveries(&panes, &vec![message(1, "hi")], 0).is_empty());
    // What is left is the watch on the silence.
    assert_eq!(r.next_wakeup(&panes, 0), Some(STALL_DEADLINE));
}

#[test]
fn the_floor_is_off_with_delivery() {
    let mut r = window(false);
    tell(&mut r.room, "hi", 1, false);
    let panes = vec![slug_pane("codex-1", 0)];
    assert!(r.try_pty_deliveries(&panes, &vec![message(1, "hi")], 0).is_empty());
    assert!(r.has_pending_pty_work(&panes));
}

#[test]
fn stalls_and_waiters_through_the_window() {
    let mut r = window(true);
    r.room.room_subscribe(9, "codex-1", &Vec::new(), true, 0);
    let m = directed("kimi-1", Some("codex-1"), "a");
    let p = r.message_recorded(&m, 1, 0, 0).unwrap();
    assert_eq!(p.message, message(1, "a"));
    r.push_answered(&p.target, p.conn, true, 0);
    let mut batch = r.check_stalls(&vec![message(1, "a")], STALL_DEADLINE, STALL_DEADLINE);
    assert_eq!(actor(&r.room, "codex-1").watch.as_ref().unwrap().retries, 1);
    assert_eq!(r.next_push(&mut batch).unwrap().message, message(1, "a"));
    assert!(r.next_push(&mut batch).is_none());
    r.file_waiters.join("a.rs", "codex-1");
    let told = r.notify_freed_waiters(&Vec::new());
    assert_eq!(told[0].text, "file is now free: a.rs");
    assert!(r.message_recorded(&told[0], 2, STALL_DEADLINE, STALL_DEADLINE).is_some());
    assert_eq!(actor(&r.room, "codex-1").pending, vec![1, 2]);
    assert!(r.file_waiters.queues.is_empty());
    // Human off: the same message stays put.
    let mut off = window(false);
    off.room.room_subscribe(9, "codex-1", &Vec::new(), false, 0);
    assert!(off.message_recorded(&m, 1, 0, 0).is_none());
}

#[test]
fn the_earliest_moment_wakes_the_loop() {
    let mut r = window(true);
    assert_eq!(r.next_wakeup(&Vec::new(), 0), None);
    r.bell_flash_until = Some(50);
    r.next_blink_deadline = Some(40);
    r.next_autoscroll_deadline = Some(60);
    assert_eq!(r.next_wakeup(&Vec::new(), 0), Some(40));
    r.next_surface_retry_deadline = Some(30);
    assert_eq!(r.next_wakeup(&Vec::new(), 0), Some(30));
    let frame = |texture: u64, delay: u64| Frame { texture, width: 4, height: 3, delay };
    let frames = vec![frame(1, 10), frame(2, 20)];
    let mut r = window(true);
    r.ws.active_tab_mut().animation = Some(TabAnimation::of_frames(&frames, 30, 0));
    assert_eq!(r.next_wakeup(&Vec::new(), 12_000_000), Some(12_000_000 + 18_000_000));
}

#[test]
fn a_process_belongs_to_the_pane_of_its_shell() {
    let shells = vec![
        ShellPid { pid: 100, tab_id: 1 },
        ShellPid { pid: 200, tab_id: 2 },
    ];
    let parent = |p: i32| match p {
        5 => Some(4),
        4 => Some(200),
        7 => Some(7),
        _ => None,
    };
    assert_eq!(pane_from_pid(&shells, 5, &parent), Some(2));
    assert_eq!(pane_from_pid(&shells, 100, &parent), Some(1));
    assert_eq!(pane_from_pid(&shells, 9, &parent), None);
    assert_eq!(pane_from_pid(&shells, 7, &parent), None);
}
