//! Keyboard/mouse sharing between a master machine and a slave machine.
//!
//! On the master, the pointer "leaves" through the left screen edge: the cursor
//! is hidden and pointer moves and buttons are sent to the slave, until the
//! slave reports that the pointer came back through its right edge. The first
//! move after each hand-over tells the slave where to place its pointer.
use vstd::prelude::*;

verus! {

/// The kind of a keyboard/mouse event exchanged between the two machines.
#[derive(Debug, Clone, Copy, PartialEq, Eq, Structural)]
pub enum KMEventType {
    MouseMove,
    InitMouseMove,
    Keyboard,
    MouseEvent,
    MouseBack,
    Ready,
    /// No particular kind: a raw pointer move waiting to be stamped (named
    /// `None` on the wire).
    Unspecified,
}

/// A keyboard/mouse event: its kind and its payload.
pub struct KmEvent<T> {
    evt_type: KMEventType,
    evt_data: T,
}

impl<T> KmEvent<T> {
    /// An event of the given kind with the given payload.
    pub fn new(evt_type: KMEventType, evt_data: T) -> (r: Self)
        ensures
            r.spec_evt_type() == evt_type,
            r.spec_evt_data() == evt_data,
    {
        KmEvent { evt_type, evt_data }
    }

    pub closed spec fn spec_evt_type(&self) -> KMEventType {
        self.evt_type
    }

    pub closed spec fn spec_evt_data(&self) -> T {
        self.evt_data
    }

    /// The event's kind.
    pub fn evt_type(&self) -> (r: KMEventType)
        ensures
            r == self.spec_evt_type(),
    {
        self.evt_type
    }

    /// The event's payload.
    pub fn evt_data(&self) -> (r: &T)
        ensures
            *r == self.spec_evt_data(),
    {
        &self.evt_data
    }

    /// The event's kind and payload, taken apart.
    pub fn into_parts(self) -> (r: (KMEventType, T))
        ensures
            r == (self.spec_evt_type(), self.spec_evt_data()),
    {
        (self.evt_type, self.evt_data)
    }
}

impl<T: Default> Default for KmEvent<T> {
    /// An event of kind `Unspecified` with the payload's default value.
    fn default() -> (r: Self)
        ensures
            r.spec_evt_type() == KMEventType::Unspecified,
            call_ensures(T::default, (), r.spec_evt_data()),
    {
        let evt_data = T::default();
        KmEvent { evt_type: KMEventType::Unspecified, evt_data }
    }
}

/// Horizontal distance (in points) from the left screen edge within which the
/// pointer leaves the master.
pub const LEFT_EDGE_DELTA: i32 = 3;

/// Horizontal distance from the right screen edge within which the pointer
/// leaves the slave.
pub const RIGHT_EDGE_DELTA: i32 = 3;

/// Horizontal position at which the master places its pointer when it comes back.
pub const MASTER_RETURN_X: i32 = 5;

/// Distance from the right screen edge at which the slave places its pointer when
/// it arrives.
pub const SLAVE_ENTRY_INSET: i32 = 5;

/// The master's hand-over state.
#[derive(Debug, Clone, Copy, PartialEq, Eq, Structural)]
pub struct CursorState {
    /// The pointer is on the slave: the local cursor is hidden.
    pub hidden: bool,
    /// The next move sent to the slave is the first one since the pointer
    /// (last) came back.
    pub first_move: bool,
}

/// What the master does with one local pointer move.
#[derive(Debug, Clone, Copy, PartialEq, Eq, Structural)]
pub struct MoveOutcome {
    /// Send the move to the slave.
    pub forward: bool,
    /// Hide the local cursor now.
    pub hide_cursor: bool,
}

/// A mouse button event on the master.
#[derive(Debug, Clone, Copy, PartialEq, Eq, Structural)]
pub enum MouseButton {
    LeftDown,
    LeftUp,
    RightDown,
    RightUp,
    /// Any other button or wheel event.
    Other,
}

/// Where the master's sending loop routes an event taken from its queue.
#[derive(Debug, Clone, Copy, PartialEq, Eq, Structural)]
pub enum QueueRoute {
    /// A pointer move: stamped with its kind (see `next_move_type`) and sent.
    PointerMove,
    /// Any other event: sent as it is.
    Forward,
}

/// What the slave does with an event received from the master.
#[derive(Debug, Clone, Copy, PartialEq, Eq, Structural)]
pub enum SlaveAction {
    /// Place the pointer near the right edge, at the height the event gives.
    EnterAtRightEdge,
    /// Move the pointer by the event's offsets, then check the right edge.
    MoveRelative,
    /// Report a button event.
    LogButton,
    /// Report any other event.
    LogOther,
}

/// The state of a master that has not handed the pointer over yet.
pub open spec fn spec_initial() -> CursorState {
    CursorState { hidden: false, first_move: true }
}

/// A local pointer move, with whether the pointer is at the left edge.
pub open spec fn spec_pointer_moved(s: CursorState, at_left_edge: bool) -> (CursorState, MoveOutcome) {
    if !s.hidden {
        if at_left_edge {
            (CursorState { hidden: true, ..s }, MoveOutcome { forward: true, hide_cursor: true })
        } else {
            (s, MoveOutcome { forward: false, hide_cursor: false })
        }
    } else {
        (s, MoveOutcome { forward: true, hide_cursor: false })
    }
}

/// The kind stamped on the next move sent to the slave.
pub open spec fn spec_next_move_type(s: CursorState) -> (CursorState, KMEventType) {
    if s.first_move {
        (CursorState { first_move: false, ..s }, KMEventType::InitMouseMove)
    } else {
        (s, KMEventType::MouseMove)
    }
}

/// An event received from the slave; the flag tells whether the pointer came
/// back (then the master places it at the left edge and shows the cursor).
pub open spec fn spec_remote_event(s: CursorState, t: KMEventType) -> (CursorState, bool) {
    if t == KMEventType::MouseBack {
        (CursorState { hidden: false, first_move: true }, true)
    } else {
        (s, false)
    }
}

/// The text that names a button event on the wire.
pub open spec fn spec_button_label(b: MouseButton) -> Seq<char> {
    match b {
        MouseButton::LeftDown => "LeftMouseDown"@,
        MouseButton::LeftUp => "LeftMouseUp"@,
        MouseButton::RightUp => "RightMoseUp"@,
        MouseButton::RightDown => "RightMouseDown"@,
        MouseButton::Other => ""@,
    }
}

/// The slave's reaction to an event kind.
pub open spec fn spec_slave_action(t: KMEventType) -> SlaveAction {
    match t {
        KMEventType::InitMouseMove => SlaveAction::EnterAtRightEdge,
        KMEventType::MouseMove => SlaveAction::MoveRelative,
        KMEventType::MouseEvent => SlaveAction::LogButton,
        _ => SlaveAction::LogOther,
    }
}

impl CursorState {
    /// The state of a master that has not handed the pointer over yet.
    pub fn new() -> (r: Self)
        ensures
            r == spec_initial(),
    {
        CursorState { hidden: false, first_move: true }
    }

    /// Handles a local pointer move; `at_left_edge` tells whether the pointer
    /// is within [`LEFT_EDGE_DELTA`] of the left edge.
    pub fn pointer_moved(&mut self, at_left_edge: bool) -> (r: MoveOutcome)
        ensures
            (*final(self), r) == spec_pointer_moved(*old(self), at_left_edge),
    {
        if !self.hidden {
            if at_left_edge {
                self.hidden = true;
                MoveOutcome { forward: true, hide_cursor: true }
            } else {
                MoveOutcome { forward: false, hide_cursor: false }
            }
        } else {
            MoveOutcome { forward: true, hide_cursor: false }
        }
    }

    /// The kind to stamp on the next move sent to the slave.
    pub fn next_move_type(&mut self) -> (r: KMEventType)
        ensures
            (*final(self), r) == spec_next_move_type(*old(self)),
    {
        if self.first_move {
            self.first_move = false;
            KMEventType::InitMouseMove
        } else {
            KMEventType::MouseMove
        }
    }

    /// Handles an event received from the slave; returns whether the pointer
    /// came back.
    pub fn remote_event(&mut self, t: KMEventType) -> (r: bool)
        ensures
            (*final(self), r) == spec_remote_event(*old(self), t),
            t == KMEventType::MouseBack ==> r && *final(self) == spec_initial(),
            t != KMEventType::MouseBack ==> !r && *final(self) == *old(self),
    {
        if t == KMEventType::MouseBack {
            self.hidden = false;
            self.first_move = true;
            true
        } else {
            false
        }
    }

    /// The label to send for a button event: none while the pointer is on the
    /// master.
    pub fn button_event(&self, b: MouseButton) -> (r: Option<&'static str>)
        ensures
            r is None <==> !self.hidden,
            r matches Some(l) ==> l@ == spec_button_label(b),
    {
        if !self.hidden {
            None
        } else {
            Some(button_label(b))
        }
    }
}

/// The text that names a button event on the wire.
pub fn button_label(b: MouseButton) -> (r: &'static str)
    ensures
        r@ == spec_button_label(b),
{
    match b {
        MouseButton::LeftDown => "LeftMouseDown",
        MouseButton::LeftUp => "LeftMouseUp",
        MouseButton::RightUp => "RightMoseUp",
        MouseButton::RightDown => "RightMouseDown",
        MouseButton::Other => "",
    }
}

/// Routes an event taken from the master's queue: pointer moves are queued with
/// kind `Unspecified` (the variant named `None` on the wire).
pub fn queue_route(t: KMEventType) -> (r: QueueRoute)
    ensures
        r == (if t == KMEventType::Unspecified {
            QueueRoute::PointerMove
        } else {
            QueueRoute::Forward
        }),
{
    if t == KMEventType::Unspecified {
        QueueRoute::PointerMove
    } else {
        QueueRoute::Forward
    }
}

/// The slave's reaction to an event kind.
pub fn slave_action(t: KMEventType) -> (r: SlaveAction)
    ensures
        r == spec_slave_action(t),
{
    match t {
        KMEventType::InitMouseMove => SlaveAction::EnterAtRightEdge,
        KMEventType::MouseMove => SlaveAction::MoveRelative,
        KMEventType::MouseEvent => SlaveAction::LogButton,
        _ => SlaveAction::LogOther,
    }
}

/// Horizontal position at which the slave places an arriving pointer.
pub fn slave_entry_x(width: i32) -> (r: i32)
    requires
        width >= i32::MIN + SLAVE_ENTRY_INSET,
    ensures
        r == width - SLAVE_ENTRY_INSET,
{
    width - SLAVE_ENTRY_INSET
}

/// Whether the slave's pointer, at horizontal position `x` on a screen `width`
/// wide, has reached the right edge (and goes back to the master).
pub fn reached_right_edge(x: i32, width: i32) -> (r: bool)
    requires
        width >= i32::MIN + RIGHT_EDGE_DELTA,
    ensures
        r == (x >= width - RIGHT_EDGE_DELTA),
{
    x >= width - RIGHT_EDGE_DELTA
}

/// Receiving keyboard events on the slave: nothing is done with them yet.
pub fn receive_km_event() {
}

/// After the pointer comes back, the master shows its cursor, the next move it
/// sends is an `InitMouseMove`, and every move after that is a `MouseMove`,
/// whatever the state before.
pub proof fn law_return_restarts_handover(s: CursorState)
    ensures
        spec_remote_event(s, KMEventType::MouseBack) == (spec_initial(), true),
        spec_next_move_type(spec_initial()).1 == KMEventType::InitMouseMove,
        spec_next_move_type(spec_next_move_type(spec_initial()).0).1 == KMEventType::MouseMove,
{
}

/// A move stamped once leaves a state whose every later move is a `MouseMove`
/// until the pointer comes back: the first-move kind is sent at most once per
/// hand-over.
pub proof fn law_first_move_once(s: CursorState, at_left_edge: bool)
    ensures
        spec_next_move_type(spec_next_move_type(s).0).1 == KMEventType::MouseMove,
        !spec_pointer_moved(spec_next_move_type(s).0, at_left_edge).0.first_move,
{
}

/// Only a `MouseBack` from the slave shows the cursor again: local moves never
/// clear `hidden`, and once hidden every local move is sent.
pub proof fn law_hidden_until_return(s: CursorState, at_left_edge: bool, t: KMEventType)
    ensures
        s.hidden ==> spec_pointer_moved(s, at_left_edge).0.hidden,
        s.hidden ==> spec_pointer_moved(s, at_left_edge).1.forward,
        s.hidden ==> spec_next_move_type(s).0.hidden,
        s.hidden && t != KMEventType::MouseBack ==> spec_remote_event(s, t).0.hidden,
        !spec_remote_event(s, KMEventType::MouseBack).0.hidden,
{
}

/// Whether each of a run of local moves is sent, from the state `s`, given
/// for each whether the pointer is at the left edge.
pub open spec fn spec_forward_flags(s: CursorState, edges: Seq<bool>) -> Seq<bool>
    decreases edges.len(),
{
    if edges.len() == 0 {
        Seq::empty()
    } else {
        let (q, o) = spec_pointer_moved(s, edges[0]);
        seq![o.forward] + spec_forward_flags(q, edges.drop_first())
    }
}

/// Over a run of local moves with no message from the slave in between, a
/// move is sent exactly when the pointer already was on the slave or has
/// reached the left edge at that move or at an earlier one of the run.
pub proof fn law_forwarded_moves(s: CursorState, edges: Seq<bool>)
    ensures
        spec_forward_flags(s, edges).len() == edges.len(),
        forall|i: int|
            0 <= i < edges.len() ==> (#[trigger] spec_forward_flags(s, edges)[i] <==> (s.hidden
                || exists|j: int| 0 <= j <= i && edges[j])),
    decreases edges.len(),
{
    if edges.len() > 0 {
        let (q, o) = spec_pointer_moved(s, edges[0]);
        let tail = edges.drop_first();
        law_forwarded_moves(q, tail);
        let f = spec_forward_flags(s, edges);
        assert forall|i: int| 0 <= i < edges.len() implies (#[trigger] f[i] <==> (s.hidden
            || exists|j: int| 0 <= j <= i && edges[j])) by {
            if i == 0 {
                if edges[0] {
                    assert(exists|j: int| 0 <= j <= i && edges[j]);
                }
            } else {
                assert(f[i] == spec_forward_flags(q, tail)[i - 1]);
                if exists|j: int| 0 <= j <= i && edges[j] {
                    let j = choose|j: int| 0 <= j <= i && edges[j];
                    if j > 0 {
                        assert(tail[j - 1] == edges[j]);
                        assert(exists|k: int| 0 <= k <= i - 1 && tail[k]);
                    }
                }
                if exists|k: int| 0 <= k <= i - 1 && tail[k] {
                    let k = choose|k: int| 0 <= k <= i - 1 && tail[k];
                    assert(edges[k + 1] == tail[k]);
                }
            }
        }
    }
}

/// A message from the slave other than `MouseBack` changes nothing on the
/// master: the hand-over state keeps both flags, hidden or not, and the
/// pointer is not taken back; `MouseBack` always restores the initial state.
/// So after a `Ready` (or any other such message) on a fresh master, the next
/// move sent is still stamped `InitMouseMove`.
pub proof fn law_remote_event_only_mouse_back_acts(s: CursorState, t: KMEventType)
    ensures
        t != KMEventType::MouseBack ==> spec_remote_event(s, t).0 == s && !spec_remote_event(s, t).1,
        t == KMEventType::MouseBack ==> spec_remote_event(s, t).0 == (CursorState {
            hidden: false,
            first_move: true,
        }) && spec_remote_event(s, t).1,
        spec_next_move_type(spec_pointer_moved(spec_remote_event(spec_initial(), t).0, true).0).1
            == KMEventType::InitMouseMove,
{
}

/// A local move is sent exactly when the pointer already was on the slave or
/// has just reached the left edge; the cursor is hidden exactly on the move
/// that reaches the edge.
pub proof fn law_move_forwarded_iff(s: CursorState, at_left_edge: bool)
    ensures
        spec_pointer_moved(s, at_left_edge).1.forward <==> (s.hidden || at_left_edge),
        spec_pointer_moved(s, at_left_edge).1.hide_cursor <==> (!s.hidden && at_left_edge),
        spec_pointer_moved(s, at_left_edge).0.hidden <==> (s.hidden || at_left_edge),
        spec_pointer_moved(s, at_left_edge).0.first_move == s.first_move,
{
}

} // verus!
