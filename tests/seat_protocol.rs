use seat::focus::{ObjectId, Surface, WaylandFocus};
use seat::seat::{
    Device, DeviceHandle, Event, GlobalId, Inner, Outgoing, Request, Seat, SeatGlobalData, SeatState,
    SeatUserData, SubObject,
};

fn obj(client: u64, id: u64) -> ObjectId {
    ObjectId { client, id }
}

fn caps(target: ObjectId, c: u32) -> Outgoing {
    Outgoing { target, event: Event::Capabilities(c) }
}

fn inner_with(pointer: bool, keyboard: bool, touch: bool) -> Inner {
    let h = |b: bool| if b { Some(DeviceHandle::new()) } else { None };
    Inner {
        name: String::from("s"),
        global: None,
        pointer: h(pointer),
        keyboard: h(keyboard),
        touch: h(touch),
        known_seats: Vec::new(),
    }
}

#[test]
fn end_to_end_scenario() {
    let mut state = SeatState::new();
    let seat = state.new_wl_seat(String::from("seat-0"), GlobalId { id: 7 });
    let global = SeatGlobalData { seat };
    assert_eq!(seat.global(&state), Some(GlobalId { id: 7 }));

    let a = obj(1, 100);
    let (data_a, events) = state.bind(&global, a, 9);
    assert_eq!(
        events,
        vec![Outgoing { target: a, event: Event::Name(String::from("seat-0")) }, caps(a, 0)]
    );

    let events = state.attach(seat, Device::Pointer, DeviceHandle::new(), &vec![true]);
    assert_eq!(events, vec![caps(a, 1)]);

    let b = obj(2, 200);
    let (_, events) = state.bind(&global, b, 1);
    assert_eq!(events, vec![caps(b, 1)]);

    let p = obj(1, 101);
    let created = state.request(&data_a, Request::GetPointer { id: p });
    assert_eq!(created, Some(SubObject { device: Device::Pointer, id: p, active: true }));
    assert_eq!(state.seats[seat.index].pointer.as_ref().unwrap().objects, vec![p]);

    assert!(seat.owns(&state, &a));
    state.destroyed(&data_a, &a);
    assert!(!seat.owns(&state, &a));
    assert!(seat.owns(&state, &b));
    assert_eq!(seat.client_seats(&state, 1, &vec![true]), Vec::<ObjectId>::new());
    assert_eq!(seat.client_seats(&state, 2, &vec![true]), vec![b]);
}

#[test]
fn capability_masks() {
    assert_eq!(inner_with(false, false, false).compute_caps(), 0);
    assert_eq!(inner_with(true, false, false).compute_caps(), 1);
    assert_eq!(inner_with(false, true, false).compute_caps(), 2);
    assert_eq!(inner_with(false, false, true).compute_caps(), 4);
    assert_eq!(inner_with(true, true, true).compute_caps(), 7);
    assert_eq!(inner_with(true, false, true).compute_caps(), 5);
}

#[test]
fn broadcast_skips_dead_bindings() {
    let mut inner = inner_with(false, true, false);
    inner.known_seats = vec![obj(1, 1), obj(2, 2), obj(3, 3)];
    let events = inner.send_all_caps(&vec![true, false, true]);
    assert_eq!(events, vec![caps(obj(1, 1), 2), caps(obj(3, 3), 2)]);
    assert_eq!(inner.send_all_caps(&vec![false, false, false]), Vec::new());
}

#[test]
fn only_real_transitions_are_broadcast() {
    let mut state = SeatState::new();
    let seat = state.new_wl_seat(String::from("s"), GlobalId { id: 1 });
    let a = obj(1, 1);
    state.bind(&SeatGlobalData { seat }, a, 1);
    assert_eq!(state.attach(seat, Device::Keyboard, DeviceHandle::new(), &vec![true]), vec![caps(a, 2)]);
    assert_eq!(state.attach(seat, Device::Keyboard, DeviceHandle::new(), &vec![true]), Vec::new());
    assert_eq!(state.attach(seat, Device::Touch, DeviceHandle::new(), &vec![true]), vec![caps(a, 6)]);
    assert_eq!(state.detach(seat, Device::Keyboard, &vec![true]), vec![caps(a, 4)]);
    assert_eq!(state.detach(seat, Device::Keyboard, &vec![true]), Vec::new());
    assert_eq!(state.detach(seat, Device::Pointer, &vec![true]), Vec::new());
}

#[test]
fn new_binding_gets_current_caps() {
    let mut state = SeatState::new();
    let seat = state.new_wl_seat(String::from("s"), GlobalId { id: 1 });
    state.attach(seat, Device::Touch, DeviceHandle::new(), &Vec::new());
    let c = obj(4, 9);
    let (data, events) = state.bind(&SeatGlobalData { seat }, c, 2);
    assert_eq!(data, SeatUserData { seat });
    assert_eq!(events, vec![Outgoing { target: c, event: Event::Name(String::from("s")) }, caps(c, 4)]);
    assert_eq!(state.seats[seat.index].known_seats, vec![c]);
}

#[test]
fn dead_binding_is_tolerated() {
    let mut state = SeatState::new();
    let seat = state.new_wl_seat(String::from("s"), GlobalId { id: 1 });
    let global = SeatGlobalData { seat };
    let a = obj(1, 1);
    let b = obj(1, 2);
    let (data, _) = state.bind(&global, a, 1);
    state.bind(&global, b, 1);
    // a's connection is gone but its entry is not pruned yet
    assert_eq!(state.attach(seat, Device::Pointer, DeviceHandle::new(), &vec![false, true]), vec![caps(b, 1)]);
    assert_eq!(seat.client_seats(&state, 1, &vec![false, true]), vec![b]);
    state.destroyed(&data, &a);
    assert!(!seat.owns(&state, &a));
    assert_eq!(state.detach(seat, Device::Pointer, &vec![true]), vec![caps(b, 0)]);
    assert_eq!(seat.client_seats(&state, 1, &vec![true]), vec![b]);
    // destroying it again changes nothing
    state.destroyed(&data, &a);
    assert_eq!(state.seats[seat.index].known_seats, vec![b]);
}

#[test]
fn release_changes_nothing() {
    let mut state = SeatState::new();
    let seat = state.new_wl_seat(String::from("s"), GlobalId { id: 1 });
    state.attach(seat, Device::Pointer, DeviceHandle::new(), &Vec::new());
    let (data, _) = state.bind(&SeatGlobalData { seat }, obj(1, 1), 5);
    assert_eq!(state.request(&data, Request::Release), None);
    assert_eq!(state.request(&data, Request::Release), None);
    let inner = &state.seats[seat.index];
    assert_eq!(inner.known_seats, vec![obj(1, 1)]);
    assert_eq!(inner.pointer, Some(DeviceHandle::new()));
    assert_eq!(inner.keyboard, None);
}

#[test]
fn device_request_without_device_is_inert() {
    let mut state = SeatState::new();
    let seat = state.new_wl_seat(String::from("s"), GlobalId { id: 1 });
    let (data, _) = state.bind(&SeatGlobalData { seat }, obj(1, 1), 1);
    let k = obj(1, 2);
    assert_eq!(
        state.request(&data, Request::GetKeyboard { id: k }),
        Some(SubObject { device: Device::Keyboard, id: k, active: false })
    );
    assert_eq!(state.seats[seat.index].keyboard, None);
    state.attach(seat, Device::Touch, DeviceHandle::new(), &vec![true]);
    let t = obj(1, 3);
    assert_eq!(
        state.request(&data, Request::GetTouch { id: t }),
        Some(SubObject { device: Device::Touch, id: t, active: true })
    );
    assert_eq!(state.seats[seat.index].touch.as_ref().unwrap().objects, vec![t]);
}

#[test]
fn owns_is_scoped_to_the_seat() {
    let mut state = SeatState::new();
    let first = state.new_wl_seat(String::from("a"), GlobalId { id: 1 });
    let second = state.new_wl_seat(String::from("b"), GlobalId { id: 2 });
    assert_ne!(first, second);
    let x = obj(1, 1);
    state.bind(&SeatGlobalData { seat: second }, x, 1);
    assert!(second.owns(&state, &x));
    assert!(!first.owns(&state, &x));
    assert!(!second.owns(&state, &obj(1, 2)));
}

#[test]
fn seat_from_user_data() {
    let mut state = SeatState::new();
    let next = state.next_seat();
    let seat = state.new_wl_seat(String::from("a"), GlobalId { id: 3 });
    assert_eq!(next, seat);
    assert_eq!(Seat::from_resource(&state, &SeatUserData { seat }), Some(seat));
    assert_eq!(Seat::from_resource(&state, &SeatUserData { seat: Seat { index: 5 } }), None);
}

#[test]
fn focus_matches_client() {
    let surface = Surface { id: obj(3, 40) };
    assert_eq!(surface.wl_surface(), Some(obj(3, 40)));
    assert!(surface.same_client_as(&obj(3, 99)));
    assert!(!surface.same_client_as(&obj(4, 40)));
}
