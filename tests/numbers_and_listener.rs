use hello_server::listener::{next_state, server_address, IP, PORT};
use hello_server::listener::ListenerEvent::{Accepted, Bound, Finished};
use hello_server::listener::ListenerState::{Accepting, Handling, Unbound};
use hello_server::text::{append_decimal, decimal_string};

#[test]
fn decimal_string_renders_base_ten() {
    assert_eq!(decimal_string(0), "0");
    assert_eq!(decimal_string(7), "7");
    assert_eq!(decimal_string(10), "10");
    assert_eq!(decimal_string(407), "407");
    assert_eq!(decimal_string(7878), "7878");
    assert_eq!(decimal_string(usize::MAX), usize::MAX.to_string());
}

#[test]
fn append_decimal_keeps_what_was_there() {
    let mut s = String::from("n=");
    append_decimal(&mut s, 1200);
    assert_eq!(s, "n=1200");
}

#[test]
fn server_address_is_fixed() {
    assert_eq!(IP, "127.0.0.1");
    assert_eq!(PORT, 7878);
    assert_eq!(server_address(), "127.0.0.1:7878");
}

#[test]
fn listener_alternates_accept_and_handle() {
    assert_eq!(next_state(Unbound, Bound), Some(Accepting));
    assert_eq!(next_state(Accepting, Accepted), Some(Handling));
    assert_eq!(next_state(Handling, Finished), Some(Accepting));
    assert_eq!(next_state(Unbound, Accepted), None);
    assert_eq!(next_state(Unbound, Finished), None);
    assert_eq!(next_state(Accepting, Bound), None);
    assert_eq!(next_state(Accepting, Finished), None);
    assert_eq!(next_state(Handling, Bound), None);
    assert_eq!(next_state(Handling, Accepted), None);
}

#[test]
fn second_client_waits_for_the_first() {
    let mut state = next_state(Unbound, Bound).unwrap();
    state = next_state(state, Accepted).unwrap();
    // The second client cannot be accepted while the first is in hand.
    assert_eq!(next_state(state, Accepted), None);
    state = next_state(state, Finished).unwrap();
    assert_eq!(next_state(state, Accepted), Some(Handling));
}
