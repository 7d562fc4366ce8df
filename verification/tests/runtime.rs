use tdlib_rs::runtime::{Delivery, Dispatcher};

#[test]
fn responses_reach_their_request_once() {
    let mut d = Dispatcher::new();
    d.subscribe(5);
    assert_eq!(d.dispatch(Some(5), Some(1), true), Delivery::Request(5));
    assert_eq!(d.dispatch(Some(5), Some(1), true), Delivery::Unrequested(5));
}

#[test]
fn extras_are_cut_to_32_bits() {
    let mut d = Dispatcher::new();
    d.subscribe(7);
    assert_eq!(d.dispatch(Some((1u64 << 32) | 7), None, true), Delivery::Request(7));
}

#[test]
fn cancelled_requests_get_nothing() {
    let mut d = Dispatcher::new();
    d.subscribe(9);
    d.subscribe(9);
    d.unsubscribe(9);
    assert_eq!(d.dispatch(Some(9), None, false), Delivery::Unrequested(9));
}

#[test]
fn updates_go_to_listening_clients() {
    let mut d = Dispatcher::new();
    d.register_client(3);
    assert_eq!(d.dispatch(None, Some(3), true), Delivery::Update(3));
    assert_eq!(d.dispatch(None, None, true), Delivery::NoListener(0));
    assert_eq!(d.dispatch(None, Some(3), false), Delivery::Unreadable(3));
    assert_eq!(d.dispatch(None, Some((1i64 << 32) + 3), true), Delivery::Update(3));
    d.unregister_client(3);
    assert_eq!(d.dispatch(None, Some(3), true), Delivery::NoListener(3));
}
