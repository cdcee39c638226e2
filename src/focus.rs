//! Protocol object identities and focus targets.
use vstd::prelude::*;

verus! {

/// Identity of a protocol object: the connection it belongs to and its id
/// within the display. Ids are never reused for the display's lifetime.
#[derive(Clone, Copy, Debug, PartialEq, Eq, Hash, Structural)]
pub struct ObjectId {
    pub client: u64,
    pub id: u64,
}

impl ObjectId {
    /// Whether both objects originate from the same client connection.
    pub fn same_client_as(&self, other: &ObjectId) -> (r: bool)
        ensures
            r == (self.client == other.client),
    {
        self.client == other.client
    }
}

/// Focused objects that might have an underlying `wl_surface`.
pub trait WaylandFocus {
    /// The surface behind this target, if any.
    spec fn surface_view(&self) -> Option<ObjectId>;

    /// Returns the underlying `wl_surface`, if any.
    ///
    /// This has to return `Some` if `same_client_as` can return true for any
    /// provided object.
    fn wl_surface(&self) -> (r: Option<ObjectId>)
        ensures
            r == self.surface_view(),
    ;

    /// Whether the underlying surface originates from the same client
    /// connection as `object_id`; false when there is no surface.
    fn same_client_as(&self, object_id: &ObjectId) -> (r: bool)
        ensures
            r ==> self.surface_view() is Some,
        default_ensures
            r == match self.surface_view() {
                Some(s) => s.client == object_id.client,
                None => false,
            },
    {
        match self.wl_surface() {
            Some(s) => s.same_client_as(object_id),
            None => false,
        }
    }
}

/// A `wl_surface`, which is its own focus target.
#[derive(Clone, Copy, Debug, PartialEq, Eq, Structural)]
pub struct Surface {
    pub id: ObjectId,
}

impl WaylandFocus for Surface {
    open spec fn surface_view(&self) -> Option<ObjectId> {
        Some(self.id)
    }

    fn wl_surface(&self) -> (r: Option<ObjectId>) {
        Some(self.id)
    }
}

} // verus!
