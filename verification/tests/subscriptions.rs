use tokio_console_web::addr::ConsoleAddr;
use tokio_console_web::subscriptions::{endpoint, Subscribe, Subscriptions};

fn addr(ip: &str, port: &str) -> ConsoleAddr {
    ConsoleAddr { ip: ip.to_string(), port: port.to_string() }
}

#[test]
fn endpoint_of_an_address() {
    assert_eq!(endpoint(&addr("127.0.0.1", "6669")), "http://127.0.0.1:6669");
    assert_eq!(endpoint(&ConsoleAddr::default()), "http://127.0.0.1:6669");
}

#[test]
fn first_caller_connects_and_later_callers_reuse() {
    let mut table: Subscriptions<u32> = Subscriptions::new();
    let a = addr("127.0.0.1", "6669");
    match table.begin(&a) {
        Subscribe::Connect(to) => assert_eq!(to, "http://127.0.0.1:6669"),
        Subscribe::Reuse(_) => panic!("nothing is open yet"),
    }
    assert!(table.offer(a.clone(), 11));
    match table.begin(&a) {
        Subscribe::Reuse(h) => assert_eq!(*h, 11),
        Subscribe::Connect(_) => panic!("a subscription is open"),
    }
    assert_eq!(table.len(), 1);
}

#[test]
fn concurrent_callers_share_the_first_handle() {
    let mut table: Subscriptions<u32> = Subscriptions::new();
    let a = addr("10.0.0.1", "7000");
    let mut winners = 0;
    for handle in 0..8u32 {
        if table.offer(a.clone(), 100 + handle) {
            winners += 1;
        }
        assert_eq!(table.get(&a), Some(&100));
    }
    assert_eq!(winners, 1);
    assert_eq!(table.len(), 1);
}

#[test]
fn spellings_of_one_port_are_two_subscriptions() {
    let mut table: Subscriptions<&str> = Subscriptions::new();
    assert!(table.offer(addr("127.0.0.1", "6669"), "first"));
    assert!(table.offer(addr("127.0.0.1", "06669"), "second"));
    assert_eq!(table.len(), 2);
    assert_eq!(table.get(&addr("127.0.0.1", "6669")), Some(&"first"));
    assert_eq!(table.get(&addr("127.0.0.1", "06669")), Some(&"second"));
    assert_eq!(table.get(&addr("localhost", "6669")), None);
}

#[test]
fn closed_subscription_is_connected_anew() {
    let mut table: Subscriptions<u32> = Subscriptions::new();
    let a = addr("127.0.0.1", "6669");
    let b = addr("127.0.0.1", "6670");
    assert!(table.offer(a.clone(), 1));
    assert!(table.offer(b.clone(), 2));
    assert_eq!(table.remove(&a), Some(1));
    assert_eq!(table.remove(&a), None);
    assert_eq!(table.len(), 1);
    assert!(matches!(table.begin(&a), Subscribe::Connect(_)));
    assert!(table.offer(a.clone(), 3));
    assert_eq!(table.get(&a), Some(&3));
    assert_eq!(table.get(&b), Some(&2));
}

#[test]
fn empty_table() {
    let mut table: Subscriptions<u32> = Subscriptions::new();
    assert_eq!(table.len(), 0);
    assert_eq!(table.get(&ConsoleAddr::default()), None);
    assert_eq!(table.remove(&ConsoleAddr::default()), None);
}
