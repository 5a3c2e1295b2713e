use message_registry::Message;
use message_registry::feed::Broadcaster;

fn sample(id: u64, key: &str, body: &str) -> Message {
    Message { id, key: key.to_string(), body: body.to_string() }
}

#[test]
fn fresh_feed_accepts_subscribers() {
    let feed = Broadcaster::new(4);
    assert!(feed.can_subscribe());
}

#[test]
fn late_subscriber_misses_history_receives_later_in_order() {
    let mut feed = Broadcaster::new(16);
    let early = feed.subscribe();
    feed.publish(&sample(0, "k0", "before one"));
    feed.publish(&sample(1, "k1", "before two"));

    let late = feed.subscribe();
    feed.publish(&sample(2, "k2", "after one"));
    feed.publish(&sample(3, "k3", "after two"));

    let late_msgs = feed.drain(late).expect("live handle must drain");
    assert_eq!(late_msgs.len(), 2);
    assert_eq!(late_msgs[0].id, 2);
    assert_eq!(late_msgs[0].body, "after one");
    assert_eq!(late_msgs[1].id, 3);
    assert_eq!(late_msgs[1].body, "after two");

    let early_msgs = feed.drain(early).expect("live handle must drain");
    assert_eq!(early_msgs.len(), 4);
    assert_eq!(early_msgs[0].id, 0);
    assert_eq!(early_msgs[3].id, 3);
}

#[test]
fn full_queue_drops_oldest() {
    let mut feed = Broadcaster::new(2);
    let h = feed.subscribe();
    feed.publish(&sample(10, "a", "one"));
    feed.publish(&sample(11, "b", "two"));
    feed.publish(&sample(12, "c", "three"));
    let msgs = feed.drain(h).expect("live handle must drain");
    assert_eq!(msgs.len(), 2);
    assert_eq!(msgs[0].id, 11);
    assert_eq!(msgs[1].id, 12);
}

#[test]
fn drain_empties_the_queue() {
    let mut feed = Broadcaster::new(8);
    let h = feed.subscribe();
    feed.publish(&sample(1, "a", "x"));
    let first = feed.drain(h).expect("live handle must drain");
    assert_eq!(first.len(), 1);
    let second = feed.drain(h).expect("live handle must drain");
    assert_eq!(second.len(), 0);
}

#[test]
fn unsubscribe_frees_the_handle() {
    let mut feed = Broadcaster::new(8);
    let h = feed.subscribe();
    assert!(feed.unsubscribe(h));
    assert!(feed.drain(h).is_none());
    assert!(!feed.unsubscribe(h));
}

#[test]
fn subscribers_see_the_same_publish_order() {
    let mut feed = Broadcaster::new(8);
    let h1 = feed.subscribe();
    let h2 = feed.subscribe();
    feed.publish(&sample(1, "a", "x"));
    feed.publish(&sample(2, "b", "y"));
    let m1 = feed.drain(h1).expect("live handle must drain");
    let m2 = feed.drain(h2).expect("live handle must drain");
    assert_eq!(m1.len(), 2);
    assert_eq!(m2.len(), 2);
    assert_eq!(m1[0].id, m2[0].id);
    assert_eq!(m1[1].id, m2[1].id);
}
