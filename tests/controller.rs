use r503_aura::catalog::{Color, LedConfig, LightPattern};
use r503_aura::control::{Action, Controller, Event, Level, Phase, Profile};
use r503_aura::reply::{ReplyBuffer, REPLY_CAPACITY};

fn transmitted(a: Action) -> [u8; 16] {
    match a {
        Action::Transmit(f) => f,
        _ => panic!("expected a transmission"),
    }
}

fn breathing(color: Color) -> [u8; 16] {
    LedConfig::new(LightPattern::Breathing, 0xFF, color, 0).frame()
}

#[test]
fn finger_scan_profile() {
    let p = Profile::finger_scan();
    assert_eq!(p.in_progress_level, Level::Low);
    assert_eq!(p.in_progress, LedConfig::new(LightPattern::Breathing, 0xFF, Color::Cyan, 0));
    assert_eq!(p.idle, LedConfig::new(LightPattern::Breathing, 0xFF, Color::Blue, 0));
    assert_eq!(p.acknowledge, LedConfig::new(LightPattern::AlwaysOn, 0, Color::Green, 0));
}

#[test]
fn rising_edge_sends_one_command() {
    let mut c = Controller::new(Profile::finger_scan());
    assert_eq!(c.phase(), Phase::WaitingForEdge);
    let f = transmitted(c.step(Event::Edge(Level::High)));
    assert_eq!(f, breathing(Color::Blue));
    assert!(matches!(c.step(Event::WriteDone), Action::ReadByte));
    assert!(matches!(c.step(Event::ByteRead(0xEF)), Action::ReadByte));
    assert!(matches!(c.step(Event::ReadTimeout), Action::AwaitEdge));
    assert_eq!(c.phase(), Phase::WaitingForEdge);
    assert_eq!(c.reply(), &[0xEF]);
}

#[test]
fn falling_edge_sends_command_and_acknowledgement() {
    let mut c = Controller::new(Profile::finger_scan());
    let f = transmitted(c.step(Event::Edge(Level::Low)));
    assert_eq!(f, breathing(Color::Cyan));
    assert!(matches!(c.step(Event::WriteDone), Action::ReadByte));
    let ack = transmitted(c.step(Event::ReadTimeout));
    assert_eq!(ack, LedConfig::new(LightPattern::AlwaysOn, 0, Color::Green, 0).frame());
    assert_eq!(c.phase(), Phase::SendingFollowUp);
    assert!(matches!(c.step(Event::WriteDone), Action::AwaitEdge));
    assert_eq!(c.phase(), Phase::WaitingForEdge);
}

#[test]
fn two_edges_one_primary_each() {
    let mut c = Controller::new(Profile::finger_scan());
    let mut sent: Vec<[u8; 16]> = Vec::new();
    for level in [Level::High, Level::Low] {
        let events = [Event::Edge(level), Event::WriteDone, Event::ReadTimeout, Event::WriteDone];
        for e in events {
            if let Action::Transmit(f) = c.step(e) {
                sent.push(f);
            }
        }
        assert_eq!(c.phase(), Phase::WaitingForEdge);
    }
    assert_eq!(sent.len(), 3);
    assert_eq!(sent[0], breathing(Color::Blue));
    assert_eq!(sent[1], breathing(Color::Cyan));
    assert_eq!(sent[2], LedConfig::new(LightPattern::AlwaysOn, 0, Color::Green, 0).frame());
}

#[test]
fn write_failure_does_not_stop_the_loop() {
    let mut c = Controller::new(Profile::finger_scan());
    c.step(Event::Edge(Level::Low));
    assert!(matches!(c.step(Event::WriteFailed), Action::ReadByte));
    assert!(matches!(c.step(Event::ReadTimeout), Action::Transmit(_)));
    assert!(matches!(c.step(Event::WriteFailed), Action::AwaitEdge));
    assert_eq!(c.write_failures(), 2);
    assert_eq!(c.phase(), Phase::WaitingForEdge);
}

#[test]
fn events_out_of_turn_are_ignored() {
    let mut c = Controller::new(Profile::finger_scan());
    assert!(matches!(c.step(Event::ReadTimeout), Action::Ignored));
    assert!(matches!(c.step(Event::ByteRead(1)), Action::Ignored));
    assert!(matches!(c.step(Event::WriteDone), Action::Ignored));
    c.step(Event::Edge(Level::High));
    assert!(matches!(c.step(Event::Edge(Level::Low)), Action::Ignored));
    assert_eq!(c.phase(), Phase::SendingPrimary { follow_up: false });
}

fn drain(n: usize) -> Controller {
    let mut c = Controller::new(Profile::finger_scan());
    c.step(Event::Edge(Level::High));
    c.step(Event::WriteDone);
    for i in 0..n {
        assert!(matches!(c.step(Event::ByteRead(i as u8)), Action::ReadByte));
    }
    assert!(matches!(c.step(Event::ReadTimeout), Action::AwaitEdge));
    c
}

#[test]
fn drain_keeps_every_byte_until_the_stall() {
    for n in [0usize, 1, 12, 63, 64] {
        let c = drain(n);
        let expected: Vec<u8> = (0..n).map(|i| i as u8).collect();
        assert_eq!(c.reply(), &expected[..]);
        assert!(!c.reply_overrun());
    }
}

#[test]
fn drain_reports_overrun_at_capacity() {
    let c = drain(REPLY_CAPACITY + 10);
    let expected: Vec<u8> = (0..REPLY_CAPACITY).map(|i| i as u8).collect();
    assert_eq!(c.reply(), &expected[..]);
    assert!(c.reply_overrun());
}

#[test]
fn reply_is_cleared_for_each_transaction() {
    let mut c = drain(REPLY_CAPACITY + 1);
    assert!(c.reply_overrun());
    c.step(Event::Edge(Level::High));
    c.step(Event::WriteDone);
    assert_eq!(c.reply(), &[] as &[u8]);
    assert!(!c.reply_overrun());
}

#[test]
fn reply_buffer_holds_up_to_capacity() {
    let mut b = ReplyBuffer::new();
    assert_eq!(b.as_slice(), &[] as &[u8]);
    for i in 0..REPLY_CAPACITY {
        assert!(b.push(i as u8 + 1));
    }
    assert!(!b.overrun());
    assert!(!b.push(0));
    assert!(b.overrun());
    assert_eq!(b.as_slice().len(), REPLY_CAPACITY);
    assert_eq!(b.as_slice()[0], 1);
    assert_eq!(b.as_slice()[REPLY_CAPACITY - 1], REPLY_CAPACITY as u8);
    b.clear();
    assert_eq!(b.as_slice(), &[] as &[u8]);
    assert!(!b.overrun());
}
