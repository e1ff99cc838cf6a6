use ready_reminder::callback::CallBack;
use ready_reminder::ready_queue::ReadyQueue;
use ready_reminder::reminder::{Entry, ReadyReminderServer};
use ready_reminder::remote_reminder::ReadyReminderServer as RemoteServer;

const SEC: i128 = 1_000_000_000;

fn content(e: &Entry) -> String {
    e.callback().content().clone()
}

#[test]
fn hello_before_goodbye() {
    let now: i128 = 1_700_000_000 * SEC;
    let mut r = ReadyReminderServer::new();
    r.submit_event(CallBack::new("Goodbye".to_string()), now + 6 * SEC);
    r.submit_event(CallBack::new("Hello".to_string()), now + 3 * SEC);
    assert!(r.poll(now).is_none());
    assert!(r.poll(now + 3 * SEC - 1).is_none());
    let first = r.poll(now + 3 * SEC).unwrap();
    assert_eq!(content(&first), "Hello");
    assert!(r.poll(now + 5 * SEC).is_none());
    let second = r.poll(now + 7 * SEC).unwrap();
    assert_eq!(content(&second), "Goodbye");
    assert_eq!(r.len(), 0);
    assert!(r.poll(now + 100 * SEC).is_none());
}

#[test]
fn past_entry_fires_on_first_check() {
    let now: i128 = 1_700_000_000 * SEC;
    let mut r = ReadyReminderServer::new();
    r.submit_event(CallBack::new("late".to_string()), now - SEC);
    let e = r.poll(now).unwrap();
    assert_eq!(content(&e), "late");
    assert_eq!(e.get_time(), now - SEC);
    assert_eq!(r.len(), 0);
}

#[test]
fn equal_times_both_fire_before_later() {
    let now: i128 = 0;
    let mut r = ReadyReminderServer::new();
    r.submit_event(CallBack::new("two".to_string()), now + 2 * SEC);
    r.submit_event(CallBack::new("one-a".to_string()), now + SEC);
    r.submit_event(CallBack::new("one-b".to_string()), now + SEC);
    let a = content(&r.poll(now + 2 * SEC).unwrap());
    let b = content(&r.poll(now + 2 * SEC).unwrap());
    let c = content(&r.poll(now + 2 * SEC).unwrap());
    let mut firsts = vec![a, b];
    firsts.sort();
    assert_eq!(firsts, vec!["one-a".to_string(), "one-b".to_string()]);
    assert_eq!(c, "two");
    assert!(r.poll(now + 2 * SEC).is_none());
}

#[test]
fn remote_entry_keeps_its_address() {
    let mut r = RemoteServer::new();
    r.submit_event(CallBack::new("first".to_string()), "10.0.0.1:1".to_string(), 10);
    r.submit_event(CallBack::new("second".to_string()), "10.0.0.2:2".to_string(), 20);
    assert!(r.poll(9).is_none());
    let e = r.poll(15).unwrap();
    assert_eq!(e.callback().content(), "first");
    assert_eq!(e.callback_addr(), "10.0.0.1:1");
    let e = r.poll(20).unwrap();
    assert_eq!(e.callback().content(), "second");
    assert_eq!(e.callback_addr(), "10.0.0.2:2");
    assert_eq!(r.len(), 0);
}

#[test]
fn peek_leaves_queue_alone() {
    let mut r = ReadyReminderServer::new();
    assert!(r.peek().is_none());
    r.submit_event(CallBack::new("b".to_string()), 9);
    r.submit_event(CallBack::new("a".to_string()), 4);
    for _ in 0..3 {
        let h = r.peek().unwrap();
        assert_eq!(h.get_time(), 4);
        assert_eq!(r.len(), 2);
    }
    assert!(r.poll(3).is_none());
    assert_eq!(r.len(), 2);
    assert_eq!(r.poll(4).unwrap().get_time(), 4);
    assert_eq!(r.len(), 1);
    assert_eq!(r.peek().unwrap().get_time(), 9);
}

#[test]
fn queue_hands_out_earliest_first() {
    let mut q: ReadyQueue<Entry> = ReadyQueue::new();
    assert!(q.is_empty());
    assert!(q.pop().is_none());
    let times: Vec<i128> = vec![5, -2, 9, 5, 0, i128::MAX, i128::MIN];
    for (i, t) in times.iter().enumerate() {
        q.insert(Entry::new(CallBack::new(format!("e{}", i)), *t));
        assert_eq!(q.len(), i + 1);
    }
    let mut out: Vec<i128> = Vec::new();
    let mut n = q.len();
    while let Some(e) = q.pop() {
        n -= 1;
        assert_eq!(q.len(), n);
        out.push(e.get_time());
    }
    assert_eq!(out, vec![i128::MIN, -2, 0, 5, 5, 9, i128::MAX]);
}

#[test]
fn queue_pop_ready_respects_now() {
    let mut q: ReadyQueue<Entry> = ReadyQueue::new();
    assert!(q.pop_ready(i128::MAX).is_none());
    q.insert(Entry::new(CallBack::new("x".to_string()), 10));
    assert!(q.pop_ready(9).is_none());
    assert_eq!(q.len(), 1);
    assert_eq!(q.peek().unwrap().get_time(), 10);
    assert_eq!(q.pop_ready(10).unwrap().get_time(), 10);
    assert!(q.is_empty());
}
