use mineserv::broadcast::{LineBroadcaster, PollMsg, Subscription};
use mineserv::process::ServerProcess;
use mineserv::types::{Property, ServerConfig, ServerType};

fn line(b: &mut LineBroadcaster, s: &Subscription) -> Option<String> {
    match b.poll(s) {
        PollMsg::Line(l) => Some(l),
        _ => None,
    }
}

#[test]
fn late_subscriber_sees_no_history() {
    let mut b = LineBroadcaster::new(16);
    b.push_line("one".to_string());
    b.push_line("two".to_string());
    b.push_line("three".to_string());
    let s = b.subscribe();
    // nothing produced before the subscription is replayed
    assert!(matches!(b.poll(&s), PollMsg::Empty));
    b.push_line("four".to_string());
    assert_eq!(line(&mut b, &s), Some("four".to_string()));
    assert!(matches!(b.poll(&s), PollMsg::Empty));
}

#[test]
fn subscribers_receive_in_production_order() {
    let mut b = LineBroadcaster::new(16);
    let s = b.subscribe();
    b.push_line("a".to_string());
    b.push_line("b".to_string());
    assert_eq!(line(&mut b, &s), Some("a".to_string()));
    assert_eq!(line(&mut b, &s), Some("b".to_string()));
}

#[test]
fn subscribers_are_independent() {
    let mut b = LineBroadcaster::new(16);
    let s1 = b.subscribe();
    b.push_line("a".to_string());
    let s2 = b.subscribe();
    b.push_line("b".to_string());
    assert_eq!(line(&mut b, &s1), Some("a".to_string()));
    assert_eq!(line(&mut b, &s1), Some("b".to_string()));
    // the later subscriber missed nothing it was entitled to
    assert_eq!(line(&mut b, &s2), Some("b".to_string()));
    assert!(matches!(b.poll(&s2), PollMsg::Empty));
}

#[test]
fn slow_subscriber_drops_oldest_and_learns_how_many() {
    let mut b = LineBroadcaster::new(2);
    let s = b.subscribe();
    b.push_line("one".to_string());
    b.push_line("two".to_string());
    b.push_line("three".to_string());
    // capacity 2: "one" was dropped for the slow subscriber
    match b.poll(&s) {
        PollMsg::Lagged(n) => assert_eq!(n, 1),
        _ => panic!("expected lag"),
    }
    // the stream resumes at the oldest retained line
    assert_eq!(line(&mut b, &s), Some("two".to_string()));
    assert_eq!(line(&mut b, &s), Some("three".to_string()));
    assert!(matches!(b.poll(&s), PollMsg::Empty));
}

#[test]
fn producer_is_never_blocked_by_absent_consumers() {
    let mut b = LineBroadcaster::new(4);
    let _s = b.subscribe();
    for i in 0..100u32 {
        b.push_line(format!("line {}", i));
    }
    assert_eq!(b.subscriber_count(), 1);
}

#[test]
fn stderr_lines_are_tagged_in_the_console_stream() {
    let config = ServerConfig {
        id: "a".to_string(),
        name: "alpha".to_string(),
        server_type: ServerType::Paper,
        minecraft_version: "1.21.1".to_string(),
        port: 25565,
        max_players: 20,
        memory_mb: 2048,
        auto_start: false,
        properties: Vec::<Property>::new(),
    };
    let mut p = ServerProcess::new(config, "/srv".to_string());
    let s = p.subscribe();
    p.push_output("ready", false);
    p.push_output("bad things", true);
    match p.poll_console(&s) {
        PollMsg::Line(l) => assert_eq!(l, "ready"),
        _ => panic!("expected a line"),
    }
    match p.poll_console(&s) {
        PollMsg::Line(l) => assert_eq!(l, "[ERROR] bad things"),
        _ => panic!("expected a line"),
    }
}
