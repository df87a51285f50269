//! A minimal HTTP responder: a fixed request-line router and the response
//! layout it writes back, with the listener's accept/handle cycle as a
//! state machine.
pub mod listener;
pub mod response;
pub mod route;
pub mod text;
