//! Seat capability bookkeeping and `wl_seat` request handling.
//!
//! A seat is a bundle of input capabilities (pointer, keyboard, touch)
//! advertised to every client that binds it. The library keeps the seat's
//! state, decides which events go to which bound object, and says which
//! device sub-objects a request creates. Delivering those events and owning
//! the protocol objects is left to the caller.

pub mod focus;
pub mod seat;
