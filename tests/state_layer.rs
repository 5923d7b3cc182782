use std::sync::Arc;
use workpipe::state::{RequestState, StateLayer};

#[test]
fn request_state_keeps_request_and_handle() {
    let handle = Arc::new(String::from("config"));
    let r = RequestState::new(7u32, handle.clone());
    assert_eq!(r.request, 7);
    assert!(Arc::ptr_eq(&r.state, &handle));
}

#[test]
fn two_requests_share_one_state_handle() {
    let handle = Arc::new(vec![1u8, 2, 3]);
    let layer = StateLayer::new(handle.clone());
    let svc = layer.layer(());
    let a = svc.wrap("first");
    let b = svc.wrap("second");
    assert_eq!(a.request, "first");
    assert_eq!(b.request, "second");
    assert!(Arc::ptr_eq(&a.state, &b.state));
    assert!(Arc::ptr_eq(&a.state, &handle));
}

#[test]
fn two_services_of_one_layer_share_the_handle() {
    let layer = StateLayer::new(Arc::new(5i64));
    let s1 = layer.layer(1u8);
    let s2 = layer.layer(2u8);
    assert!(Arc::ptr_eq(&s1.wrap(()).state, &s2.wrap(()).state));
}

#[test]
fn state_service_gives_access_to_inner() {
    let layer = StateLayer::new(Arc::new(()));
    let mut svc = layer.layer(10u32);
    *svc.inner_mut() += 1;
    assert_eq!(*svc.inner_mut(), 11);
}
