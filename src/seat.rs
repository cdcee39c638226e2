//! Seat state, capability broadcast, binding and request dispatch.
use crate::focus::ObjectId;
use vstd::prelude::*;

verus! {

/// `wl_seat` capability bit of a pointer.
pub const CAP_POINTER: u32 = 1;

/// `wl_seat` capability bit of a keyboard.
pub const CAP_KEYBOARD: u32 = 2;

/// `wl_seat` capability bit of touch.
pub const CAP_TOUCH: u32 = 4;

/// Protocol version from which a bound seat is told its name.
pub const NAME_SINCE_VERSION: u32 = 2;

/// The input devices a seat can carry.
#[derive(Clone, Copy, Debug, PartialEq, Eq, Structural)]
pub enum Device {
    Pointer,
    Keyboard,
    Touch,
}

/// The capability bit that stands for a device.
pub open spec fn device_bit(d: Device) -> u32 {
    match d {
        Device::Pointer => CAP_POINTER,
        Device::Keyboard => CAP_KEYBOARD,
        Device::Touch => CAP_TOUCH,
    }
}

/// Whether bit `bit` (1, 2 or 4) is set in `caps`.
pub open spec fn has_bit(caps: u32, bit: u32) -> bool {
    (caps as int / bit as int) % 2 == 1
}

/// A device handle: the per-client device objects registered with it, in
/// the order they were registered.
#[derive(Clone, Debug, PartialEq, Eq)]
pub struct DeviceHandle {
    pub objects: Vec<ObjectId>,
}

impl DeviceHandle {
    /// A handle with no object registered yet.
    pub fn new() -> (r: DeviceHandle)
        ensures
            r.objects@ == Seq::<ObjectId>::empty(),
    {
        DeviceHandle { objects: Vec::new() }
    }
}

/// Identifier of the advertised seat global.
#[derive(Clone, Copy, Debug, PartialEq, Eq, Hash, Structural)]
pub struct GlobalId {
    pub id: u64,
}

/// An event for a bound `wl_seat` object.
#[derive(Clone, Debug, PartialEq, Eq)]
pub enum Event {
    /// The seat's name.
    Name(String),
    /// The seat's capability mask.
    Capabilities(u32),
}

/// An event together with the bound object it is sent to.
#[derive(Clone, Debug, PartialEq, Eq)]
pub struct Outgoing {
    pub target: ObjectId,
    pub event: Event,
}

/// The state of one seat.
pub struct Inner {
    pub name: String,
    pub global: Option<GlobalId>,
    pub pointer: Option<DeviceHandle>,
    pub keyboard: Option<DeviceHandle>,
    pub touch: Option<DeviceHandle>,
    /// One entry per bound `wl_seat` object that has not been destroyed yet.
    pub known_seats: Vec<ObjectId>,
}

/// The capability mask of a seat with the given devices present.
pub open spec fn caps_of(pointer: bool, keyboard: bool, touch: bool) -> u32 {
    ((if pointer { CAP_POINTER } else { 0u32 }) + (if keyboard { CAP_KEYBOARD } else { 0u32 })
        + (if touch { CAP_TOUCH } else { 0u32 })) as u32
}

/// The entries of `known` whose flag in `alive` is set, in order.
pub open spec fn live_of(known: Seq<ObjectId>, alive: Seq<bool>) -> Seq<ObjectId>
    decreases known.len(),
{
    if known.len() == 0 || alive.len() != known.len() {
        Seq::empty()
    } else {
        let rest = live_of(known.drop_last(), alive.drop_last());
        if alive.last() {
            rest.push(known.last())
        } else {
            rest
        }
    }
}

/// A capability event for each of `targets`, in order.
pub open spec fn caps_events(targets: Seq<ObjectId>, caps: u32) -> Seq<Outgoing> {
    targets.map_values(|t: ObjectId| Outgoing { target: t, event: Event::Capabilities(caps) })
}

impl Inner {
    /// Whether a device is present.
    pub open spec fn has(&self, d: Device) -> bool {
        match d {
            Device::Pointer => self.pointer is Some,
            Device::Keyboard => self.keyboard is Some,
            Device::Touch => self.touch is Some,
        }
    }

    /// The capability mask that clients see.
    pub open spec fn caps(&self) -> u32 {
        caps_of(self.pointer is Some, self.keyboard is Some, self.touch is Some)
    }

    /// Computes the capability mask from the devices present.
    pub fn compute_caps(&self) -> (r: u32)
        ensures
            r == self.caps(),
    {
        let mut caps: u32 = 0;
        if self.pointer.is_some() {
            caps = caps + CAP_POINTER;
        }
        if self.keyboard.is_some() {
            caps = caps + CAP_KEYBOARD;
        }
        if self.touch.is_some() {
            caps = caps + CAP_TOUCH;
        }
        caps
    }

    /// The capability events for every bound object that is still alive.
    ///
    /// `alive[i]` tells whether `known_seats[i]` still resolves to a live
    /// object; dead entries are skipped, not removed.
    pub fn send_all_caps(&self, alive: &Vec<bool>) -> (r: Vec<Outgoing>)
        requires
            alive@.len() == self.known_seats@.len(),
        ensures
            r@ == caps_events(live_of(self.known_seats@, alive@), self.caps()),
    {
        let capabilities = self.compute_caps();
        let mut r: Vec<Outgoing> = Vec::new();
        let mut i: usize = 0;
        while i < self.known_seats.len()
            invariant
                i <= self.known_seats@.len(),
                alive@.len() == self.known_seats@.len(),
                capabilities == self.caps(),
                r@ == caps_events(
                    live_of(self.known_seats@.subrange(0, i as int), alive@.subrange(0, i as int)),
                    capabilities,
                ),
            decreases self.known_seats@.len() - i,
        {
            proof {
                lemma_live_of_step(self.known_seats@, alive@, i as int);
            }
            if alive[i] {
                r.push(Outgoing { target: self.known_seats[i], event: Event::Capabilities(capabilities) });
            }
            i = i + 1;
        }
        proof {
            assert(self.known_seats@.subrange(0, i as int) == self.known_seats@);
            assert(alive@.subrange(0, i as int) == alive@);
        }
        r
    }
}

/// One more entry of the prefix extends `live_of` by that entry when alive.
proof fn lemma_live_of_step(known: Seq<ObjectId>, alive: Seq<bool>, i: int)
    requires
        0 <= i < known.len(),
        alive.len() == known.len(),
    ensures
        live_of(known.subrange(0, i + 1), alive.subrange(0, i + 1)) == if alive[i] {
            live_of(known.subrange(0, i), alive.subrange(0, i)).push(known[i])
        } else {
            live_of(known.subrange(0, i), alive.subrange(0, i))
        },
{
    assert(known.subrange(0, i + 1).drop_last() == known.subrange(0, i));
    assert(alive.subrange(0, i + 1).drop_last() == alive.subrange(0, i));
}

impl Inner {
    /// The handle held for a device.
    pub open spec fn slot(&self, d: Device) -> Option<DeviceHandle> {
        match d {
            Device::Pointer => self.pointer,
            Device::Keyboard => self.keyboard,
            Device::Touch => self.touch,
        }
    }

    /// The device handles other than that of `d` are those of `o`.
    pub open spec fn slots_agree_except(&self, o: &Inner, d: Device) -> bool {
        &&& (d == Device::Pointer || self.pointer == o.pointer)
        &&& (d == Device::Keyboard || self.keyboard == o.keyboard)
        &&& (d == Device::Touch || self.touch == o.touch)
    }

    /// All device handles are those of `o`.
    pub open spec fn same_devices(&self, o: &Inner) -> bool {
        &&& self.pointer == o.pointer
        &&& self.keyboard == o.keyboard
        &&& self.touch == o.touch
    }

    /// Everything but the device handles is as in `o`.
    pub open spec fn same_but_devices(&self, o: &Inner) -> bool {
        &&& self.name == o.name
        &&& self.global == o.global
        &&& self.known_seats@ == o.known_seats@
    }

    /// Puts `h` in the slot of device `d`, leaving the other slots alone.
    fn set_slot(&mut self, d: Device, h: Option<DeviceHandle>)
        ensures
            final(self).same_but_devices(old(self)),
            final(self).slot(d) == h,
            final(self).slots_agree_except(old(self), d),
    {
        match d {
            Device::Pointer => self.pointer = h,
            Device::Keyboard => self.keyboard = h,
            Device::Touch => self.touch = h,
        }
    }

    /// Whether a device is present.
    fn has_device(&self, d: Device) -> (r: bool)
        ensures
            r == self.has(d),
    {
        match d {
            Device::Pointer => self.pointer.is_some(),
            Device::Keyboard => self.keyboard.is_some(),
            Device::Touch => self.touch.is_some(),
        }
    }
}

/// A handle on one seat of a [`SeatState`]. Two handles are equal exactly
/// when they designate the same seat.
#[derive(Clone, Copy, Debug, PartialEq, Eq, Structural)]
pub struct Seat {
    pub index: usize,
}

/// Global data of a `wl_seat` global: the seat it advertises.
#[derive(Clone, Copy, Debug, PartialEq, Eq, Structural)]
pub struct SeatGlobalData {
    pub seat: Seat,
}

/// User data of a bound `wl_seat` object: the seat it was bound from.
#[derive(Clone, Copy, Debug, PartialEq, Eq, Structural)]
pub struct SeatUserData {
    pub seat: Seat,
}

/// All seats of a display.
pub struct SeatState {
    pub seats: Vec<Inner>,
}

impl SeatState {
    /// Whether `seat` designates a seat of this state.
    pub open spec fn valid(&self, seat: Seat) -> bool {
        seat.index < self.seats@.len()
    }

    /// The state of the seat `seat` designates.
    pub open spec fn inner(&self, seat: Seat) -> Inner {
        self.seats@[seat.index as int]
    }

    /// The seats other than `seat` are as in `o`.
    pub open spec fn others_unchanged(&self, o: &SeatState, seat: Seat) -> bool {
        &&& self.seats@.len() == o.seats@.len()
        &&& forall|j: int| 0 <= j < self.seats@.len() && j != seat.index ==> self.seats@[j] == o.seats@[j]
    }

    /// A state without any seat.
    pub fn new() -> (r: SeatState)
        ensures
            r.seats@.len() == 0,
    {
        SeatState { seats: Vec::new() }
    }

    /// The handle that the next seat created will have.
    pub fn next_seat(&self) -> (r: Seat)
        ensures
            r.index == self.seats@.len(),
    {
        Seat { index: self.seats.len() }
    }

    /// Creates a new seat with the given name, advertised through the global
    /// `global`. It has no device and no binding yet.
    pub fn new_wl_seat(&mut self, name: String, global: GlobalId) -> (r: Seat)
        requires
            old(self).seats@.len() < usize::MAX,
        ensures
            r.index == old(self).seats@.len(),
            final(self).seats@.len() == old(self).seats@.len() + 1,
            forall|j: int| 0 <= j < old(self).seats@.len() ==> final(self).seats@[j] == old(self).seats@[j],
            final(self).inner(r).name == name,
            final(self).inner(r).global == Some(global),
            final(self).inner(r).pointer is None,
            final(self).inner(r).keyboard is None,
            final(self).inner(r).touch is None,
            final(self).inner(r).known_seats@.len() == 0,
    {
        let r = Seat { index: self.seats.len() };
        self.seats.push(
            Inner {
                name,
                global: Some(global),
                pointer: None,
                keyboard: None,
                touch: None,
                known_seats: Vec::new(),
            },
        );
        r
    }

    /// Takes the state of `seat` out, leaving an empty seat in its place.
    fn take(&mut self, seat: Seat) -> (r: Inner)
        requires
            old(self).valid(seat),
        ensures
            r == old(self).inner(seat),
            final(self).others_unchanged(old(self), seat),
    {
        let placeholder = Inner {
            name: String::new(),
            global: None,
            pointer: None,
            keyboard: None,
            touch: None,
            known_seats: Vec::new(),
        };
        let r = self.seats.remove(seat.index);
        self.seats.insert(seat.index, placeholder);
        proof {
            assert forall|j: int| 0 <= j < self.seats@.len() && j != seat.index implies self.seats@[j]
                == old(self).seats@[j] by {
                if j < seat.index {
                } else {
                }
            }
        }
        r
    }

    /// Puts `inner` back as the state of `seat`.
    fn put(&mut self, seat: Seat, inner: Inner)
        requires
            old(self).valid(seat),
        ensures
            final(self).inner(seat) == inner,
            final(self).others_unchanged(old(self), seat),
    {
        let _ = self.seats.remove(seat.index);
        self.seats.insert(seat.index, inner);
    }

    /// Gives `seat` the device `device`, held by `handle`, replacing any
    /// handle it had for it. Returns the capability events for the bound
    /// objects still alive (`alive` as for [`Inner::send_all_caps`]); none
    /// when the capability mask did not change.
    pub fn attach(&mut self, seat: Seat, device: Device, handle: DeviceHandle, alive: &Vec<bool>) -> (r: Vec<Outgoing>)
        requires
            old(self).valid(seat),
            alive@.len() == old(self).inner(seat).known_seats@.len(),
        ensures
            final(self).others_unchanged(old(self), seat),
            final(self).inner(seat).same_but_devices(&old(self).inner(seat)),
            final(self).inner(seat).slot(device) == Some(handle),
            final(self).inner(seat).slots_agree_except(&old(self).inner(seat), device),
            r@ == if old(self).inner(seat).caps() == final(self).inner(seat).caps() {
                Seq::empty()
            } else {
                caps_events(live_of(final(self).inner(seat).known_seats@, alive@), final(self).inner(seat).caps())
            },
    {
        let mut inner = self.take(seat);
        let had = inner.has_device(device);
        inner.set_slot(device, Some(handle));
        let r = if had {
            Vec::new()
        } else {
            inner.send_all_caps(alive)
        };
        proof {
            lemma_caps_change(old(self).inner(seat), inner, device);
        }
        self.put(seat, inner);
        r
    }

    /// Takes the device `device` away from `seat`. Returns the capability
    /// events as [`SeatState::attach`] does.
    pub fn detach(&mut self, seat: Seat, device: Device, alive: &Vec<bool>) -> (r: Vec<Outgoing>)
        requires
            old(self).valid(seat),
            alive@.len() == old(self).inner(seat).known_seats@.len(),
        ensures
            final(self).others_unchanged(old(self), seat),
            final(self).inner(seat).same_but_devices(&old(self).inner(seat)),
            final(self).inner(seat).slot(device) is None,
            final(self).inner(seat).slots_agree_except(&old(self).inner(seat), device),
            r@ == if old(self).inner(seat).caps() == final(self).inner(seat).caps() {
                Seq::empty()
            } else {
                caps_events(live_of(final(self).inner(seat).known_seats@, alive@), final(self).inner(seat).caps())
            },
    {
        let mut inner = self.take(seat);
        let had = inner.has_device(device);
        inner.set_slot(device, None);
        let r = if had {
            inner.send_all_caps(alive)
        } else {
            Vec::new()
        };
        proof {
            lemma_caps_change(old(self).inner(seat), inner, device);
        }
        self.put(seat, inner);
        r
    }
}

/// When only the slot of `d` differs, the mask changes exactly when the
/// presence of `d` does.
proof fn lemma_caps_change(a: Inner, b: Inner, d: Device)
    requires
        b.slots_agree_except(&a, d),
    ensures
        (a.caps() == b.caps()) == (a.has(d) == b.has(d)),
{
    assert(b.slot(Device::Pointer) == a.slot(Device::Pointer) || d == Device::Pointer);
    assert(b.slot(Device::Keyboard) == a.slot(Device::Keyboard) || d == Device::Keyboard);
    assert(b.slot(Device::Touch) == a.slot(Device::Touch) || d == Device::Touch);
}

impl Seat {
    /// Whether the bound object `seat` belongs to this seat.
    pub fn owns(&self, state: &SeatState, seat: &ObjectId) -> (r: bool)
        requires
            state.valid(*self),
        ensures
            r == state.inner(*self).known_seats@.contains(*seat),
    {
        let known = &state.seats[self.index].known_seats;
        let mut i: usize = 0;
        while i < known.len()
            invariant
                i <= known@.len(),
                known@ == state.inner(*self).known_seats@,
                forall|j: int| 0 <= j < i ==> known@[j] != *seat,
            decreases known@.len() - i,
        {
            if known[i].client == seat.client && known[i].id == seat.id {
                assert(known@[i as int] == *seat);
                return true;
            }
            i = i + 1;
        }
        false
    }

    /// The seat a bound object was bound from, when it is one of `state`.
    pub fn from_resource(state: &SeatState, data: &SeatUserData) -> (r: Option<Seat>)
        ensures
            r == if state.valid(data.seat) {
                Some(data.seat)
            } else {
                None::<Seat>
            },
    {
        if data.seat.index < state.seats.len() {
            Some(data.seat)
        } else {
            None
        }
    }

    /// The id of the seat's global, if it was advertised.
    pub fn global(&self, state: &SeatState) -> (r: Option<GlobalId>)
        requires
            state.valid(*self),
        ensures
            r == state.inner(*self).global,
    {
        state.seats[self.index].global
    }
}

/// `known` without the entries equal to `id`, in order.
pub open spec fn without(known: Seq<ObjectId>, id: ObjectId) -> Seq<ObjectId>
    decreases known.len(),
{
    if known.len() == 0 {
        Seq::empty()
    } else {
        let rest = without(known.drop_last(), id);
        if known.last() == id {
            rest
        } else {
            rest.push(known.last())
        }
    }
}

/// The entries of `objects` that belong to client `client`, in order.
pub open spec fn of_client(objects: Seq<ObjectId>, client: u64) -> Seq<ObjectId>
    decreases objects.len(),
{
    if objects.len() == 0 {
        Seq::empty()
    } else {
        let rest = of_client(objects.drop_last(), client);
        if objects.last().client == client {
            rest.push(objects.last())
        } else {
            rest
        }
    }
}

/// The events a newly bound object receives: the seat's name from
/// version 2 on, then the capability mask.
pub open spec fn bind_events(events: Seq<Outgoing>, id: ObjectId, version: u32, name: Seq<char>, caps: u32) -> bool {
    if version >= NAME_SINCE_VERSION {
        &&& events.len() == 2
        &&& events[0].target == id
        &&& events[0].event matches Event::Name(n) && n@ == name
        &&& events[1] == (Outgoing { target: id, event: Event::Capabilities(caps) })
    } else {
        events == seq![Outgoing { target: id, event: Event::Capabilities(caps) }]
    }
}

/// A request on a bound `wl_seat` object.
#[derive(Clone, Copy, Debug, PartialEq, Eq, Structural)]
pub enum Request {
    /// Create the client's pointer object `id`.
    GetPointer { id: ObjectId },
    /// Create the client's keyboard object `id`.
    GetKeyboard { id: ObjectId },
    /// Create the client's touch object `id`.
    GetTouch { id: ObjectId },
    /// Release the seat object.
    Release,
}

/// A device object created by a request. It is active when the seat had
/// that device and registered the object with its handle; an inactive one
/// never receives events.
#[derive(Clone, Copy, Debug, PartialEq, Eq, Structural)]
pub struct SubObject {
    pub device: Device,
    pub id: ObjectId,
    pub active: bool,
}

impl SeatState {
    /// Binds the global of `global_data` as the object `id`, bound at
    /// protocol version `version`. Returns the user data for the new object
    /// and the events it receives at once; the object is then known to the
    /// seat.
    pub fn bind(&mut self, global_data: &SeatGlobalData, id: ObjectId, version: u32) -> (r: (SeatUserData, Vec<Outgoing>))
        requires
            old(self).valid(global_data.seat),
        ensures
            r.0.seat == global_data.seat,
            final(self).others_unchanged(old(self), global_data.seat),
            final(self).inner(global_data.seat).name == old(self).inner(global_data.seat).name,
            final(self).inner(global_data.seat).global == old(self).inner(global_data.seat).global,
            final(self).inner(global_data.seat).same_devices(&old(self).inner(global_data.seat)),
            final(self).inner(global_data.seat).known_seats@ == old(self).inner(global_data.seat).known_seats@.push(id),
            bind_events(r.1@, id, version, old(self).inner(global_data.seat).name@, old(self).inner(global_data.seat).caps()),
    {
        let seat = global_data.seat;
        let mut inner = self.take(seat);
        let mut events: Vec<Outgoing> = Vec::new();
        if version >= NAME_SINCE_VERSION {
            events.push(Outgoing { target: id, event: Event::Name(inner.name.clone()) });
        }
        events.push(Outgoing { target: id, event: Event::Capabilities(inner.compute_caps()) });
        inner.known_seats.push(id);
        self.put(seat, inner);
        (SeatUserData { seat }, events)
    }

    /// Handles a request on a bound object whose user data is `data`.
    ///
    /// A device request creates the object whatever the seat holds; when the
    /// seat has the device the object is registered with its handle.
    /// Releasing changes nothing: the object's destruction does the cleanup.
    pub fn request(&mut self, data: &SeatUserData, request: Request) -> (r: Option<SubObject>)
        requires
            old(self).valid(data.seat),
        ensures
            final(self).others_unchanged(old(self), data.seat),
            final(self).inner(data.seat).same_but_devices(&old(self).inner(data.seat)),
            match request {
                Request::Release => {
                    &&& r is None
                    &&& final(self).inner(data.seat) == old(self).inner(data.seat)
                },
                Request::GetPointer { id } => request_done(old(self).inner(data.seat), final(self).inner(data.seat), Device::Pointer, id, r),
                Request::GetKeyboard { id } => request_done(old(self).inner(data.seat), final(self).inner(data.seat), Device::Keyboard, id, r),
                Request::GetTouch { id } => request_done(old(self).inner(data.seat), final(self).inner(data.seat), Device::Touch, id, r),
            },
    {
        match request {
            Request::GetPointer { id } => Some(self.create(data.seat, Device::Pointer, id)),
            Request::GetKeyboard { id } => Some(self.create(data.seat, Device::Keyboard, id)),
            Request::GetTouch { id } => Some(self.create(data.seat, Device::Touch, id)),
            Request::Release => None,
        }
    }

    /// Creates the device object `id` for `seat`, registering it with the
    /// device's handle when there is one.
    fn create(&mut self, seat: Seat, device: Device, id: ObjectId) -> (r: SubObject)
        requires
            old(self).valid(seat),
        ensures
            final(self).others_unchanged(old(self), seat),
            final(self).inner(seat).same_but_devices(&old(self).inner(seat)),
            request_done(old(self).inner(seat), final(self).inner(seat), device, id, Some(r)),
    {
        let mut inner = self.take(seat);
        let slot = match device {
            Device::Pointer => inner.pointer.take(),
            Device::Keyboard => inner.keyboard.take(),
            Device::Touch => inner.touch.take(),
        };
        let r = match slot {
            Some(mut h) => {
                h.objects.push(id);
                inner.set_slot(device, Some(h));
                SubObject { device, id, active: true }
            },
            None => {
                inner.set_slot(device, None);
                SubObject { device, id, active: false }
            },
        };
        self.put(seat, inner);
        r
    }

    /// Forgets the bound object `seat`, whose user data is `data`, once it
    /// is destroyed.
    pub fn destroyed(&mut self, data: &SeatUserData, seat: &ObjectId)
        requires
            old(self).valid(data.seat),
        ensures
            final(self).others_unchanged(old(self), data.seat),
            final(self).inner(data.seat).name == old(self).inner(data.seat).name,
            final(self).inner(data.seat).global == old(self).inner(data.seat).global,
            final(self).inner(data.seat).same_devices(&old(self).inner(data.seat)),
            final(self).inner(data.seat).known_seats@ == without(old(self).inner(data.seat).known_seats@, *seat),
    {
        let mut inner = self.take(data.seat);
        let mut kept: Vec<ObjectId> = Vec::new();
        let mut i: usize = 0;
        while i < inner.known_seats.len()
            invariant
                i <= inner.known_seats@.len(),
                kept@ == without(inner.known_seats@.subrange(0, i as int), *seat),
            decreases inner.known_seats@.len() - i,
        {
            let s = inner.known_seats[i];
            proof {
                assert(inner.known_seats@.subrange(0, i + 1).drop_last() == inner.known_seats@.subrange(0, i as int));
            }
            if !(s.client == seat.client && s.id == seat.id) {
                kept.push(s);
            }
            i = i + 1;
        }
        proof {
            assert(inner.known_seats@.subrange(0, i as int) == inner.known_seats@);
        }
        inner.known_seats = kept;
        self.put(data.seat, inner);
    }
}

/// The outcome of a device request for `device` and object `id`: the object
/// is created, active exactly when the seat has the device, and then
/// registered last with the device's handle; nothing else changes.
pub open spec fn request_done(before: Inner, after: Inner, device: Device, id: ObjectId, r: Option<SubObject>) -> bool {
    &&& r == Some(SubObject { device, id, active: before.has(device) })
    &&& after.slots_agree_except(&before, device)
    &&& match before.slot(device) {
        Some(h) => after.slot(device) matches Some(h2) && h2.objects@ == h.objects@.push(id),
        None => after.slot(device) is None,
    }
}

impl Seat {
    /// The bound objects of this seat that belong to client `client` and are
    /// still alive (`alive` as for [`Inner::send_all_caps`]).
    pub fn client_seats(&self, state: &SeatState, client: u64, alive: &Vec<bool>) -> (r: Vec<ObjectId>)
        requires
            state.valid(*self),
            alive@.len() == state.inner(*self).known_seats@.len(),
        ensures
            r@ == of_client(live_of(state.inner(*self).known_seats@, alive@), client),
    {
        let known = &state.seats[self.index].known_seats;
        let mut r: Vec<ObjectId> = Vec::new();
        let mut i: usize = 0;
        while i < known.len()
            invariant
                i <= known@.len(),
                alive@.len() == known@.len(),
                known@ == state.inner(*self).known_seats@,
                r@ == of_client(live_of(known@.subrange(0, i as int), alive@.subrange(0, i as int)), client),
            decreases known@.len() - i,
        {
            proof {
                lemma_live_of_step(known@, alive@, i as int);
                let live = live_of(known@.subrange(0, i as int), alive@.subrange(0, i as int));
                assert(live.push(known@[i as int]).drop_last() == live);
            }
            if alive[i] && known[i].client == client {
                r.push(known[i]);
            }
            i = i + 1;
        }
        proof {
            assert(known@.subrange(0, i as int) == known@);
            assert(alive@.subrange(0, i as int) == alive@);
        }
        r
    }
}

/// The capability mask has a device's bit set exactly when the seat has
/// that device.
pub proof fn lemma_caps_reflect_devices(inner: Inner, d: Device)
    ensures
        has_bit(inner.caps(), device_bit(d)) == inner.has(d),
{
    let p = inner.pointer is Some;
    let k = inner.keyboard is Some;
    let t = inner.touch is Some;
    assert(has_bit(caps_of(p, k, t), CAP_POINTER) == p && has_bit(caps_of(p, k, t), CAP_KEYBOARD) == k
        && has_bit(caps_of(p, k, t), CAP_TOUCH) == t) by {
        if p { if k { if t {} else {} } else { if t {} else {} } }
        else { if k { if t {} else {} } else { if t {} else {} } }
    }
}

/// An object that `live_of` keeps is one of the known objects.
pub proof fn lemma_live_of_subset(known: Seq<ObjectId>, alive: Seq<bool>, x: ObjectId)
    ensures
        live_of(known, alive).contains(x) ==> known.contains(x),
    decreases known.len(),
{
    if known.len() != 0 && alive.len() == known.len() {
        lemma_live_of_subset(known.drop_last(), alive.drop_last(), x);
        let rest = live_of(known.drop_last(), alive.drop_last());
        if live_of(known, alive).contains(x) {
            if rest.contains(x) {
                let j = choose|j: int| 0 <= j < known.drop_last().len() && known.drop_last()[j] == x;
                assert(known[j] == x);
            } else {
                assert(known[known.len() - 1] == x);
            }
        }
    }
}

/// An object that `of_client` keeps is one of the given objects.
pub proof fn lemma_of_client_subset(objects: Seq<ObjectId>, client: u64, x: ObjectId)
    ensures
        of_client(objects, client).contains(x) ==> objects.contains(x),
    decreases objects.len(),
{
    if objects.len() != 0 {
        lemma_of_client_subset(objects.drop_last(), client, x);
        let rest = of_client(objects.drop_last(), client);
        if of_client(objects, client).contains(x) {
            if rest.contains(x) {
                let j = choose|j: int| 0 <= j < objects.drop_last().len() && objects.drop_last()[j] == x;
                assert(objects[j] == x);
            } else {
                assert(objects[objects.len() - 1] == x);
            }
        }
    }
}

/// `without(known, id)` no longer holds `id`.
pub proof fn lemma_without_excludes(known: Seq<ObjectId>, id: ObjectId)
    ensures
        !without(known, id).contains(id),
    decreases known.len(),
{
    if known.len() != 0 {
        lemma_without_excludes(known.drop_last(), id);
        let rest = without(known.drop_last(), id);
        if known.last() != id {
            assert(!rest.contains(id));
            assert forall|j: int| 0 <= j < rest.push(known.last()).len() implies rest.push(known.last())[j] != id by {
                if j < rest.len() {
                    assert(rest.push(known.last())[j] == rest[j]);
                }
            }
        }
    }
}

/// Once a bound object is destroyed the seat no longer owns it, no
/// capability broadcast reaches it and no client lookup returns it, whatever
/// the liveness of the remaining objects.
pub proof fn lemma_destroyed_binding_gone(before: SeatState, after: SeatState, data: SeatUserData, id: ObjectId, alive: Seq<bool>, client: u64)
    requires
        before.valid(data.seat),
        after.others_unchanged(&before, data.seat),
        after.inner(data.seat).known_seats@ == without(before.inner(data.seat).known_seats@, id),
    ensures
        !after.inner(data.seat).known_seats@.contains(id),
        !live_of(after.inner(data.seat).known_seats@, alive).contains(id),
        !caps_events(live_of(after.inner(data.seat).known_seats@, alive), after.inner(data.seat).caps()).contains(
            Outgoing { target: id, event: Event::Capabilities(after.inner(data.seat).caps()) },
        ),
        !of_client(live_of(after.inner(data.seat).known_seats@, alive), client).contains(id),
{
    let known = after.inner(data.seat).known_seats@;
    let live = live_of(known, alive);
    let caps = after.inner(data.seat).caps();
    lemma_without_excludes(before.inner(data.seat).known_seats@, id);
    lemma_live_of_subset(known, alive, id);
    lemma_of_client_subset(live, client, id);
    let o = Outgoing { target: id, event: Event::Capabilities(caps) };
    if caps_events(live, caps).contains(o) {
        let j = choose|j: int| 0 <= j < caps_events(live, caps).len() && caps_events(live, caps)[j] == o;
        assert(live[j] == id);
    }
}

/// A newly bound object is told, before `bind` returns, a capability mask
/// with the bit of every device the seat has at that moment.
pub proof fn lemma_new_binding_snapshot(before: SeatState, events: Seq<Outgoing>, seat: Seat, id: ObjectId, version: u32, d: Device)
    requires
        before.valid(seat),
        bind_events(events, id, version, before.inner(seat).name@, before.inner(seat).caps()),
        before.inner(seat).has(d),
    ensures
        events.last().target == id,
        events.last().event matches Event::Capabilities(c) && has_bit(c, device_bit(d)),
{
    lemma_caps_reflect_devices(before.inner(seat), d);
}

} // verus!
