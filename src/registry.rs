//! The registry of connected cameras.
//!
//! Each connected camera is recorded under its network address with its
//! pose and its latest bearing. Connecting and disconnecting fire events;
//! mutations are applied one at a time, so any run of the registry is a
//! sequence of the operations below, and the laws at the end of this module
//! hold of every such sequence.
use vstd::prelude::*;

verus! {

/// A network address: the IP address (IPv4 addresses as IPv4-mapped IPv6)
/// and the port.
#[derive(Clone, Copy, Debug, PartialEq, Eq, Structural)]
pub struct Address {
    pub ip: u128,
    pub port: u16,
}

/// One connected camera: its address, its pose, and the latest bearing it
/// reported, if any.
#[derive(Clone, Copy, Debug)]
pub struct CameraEntry<P, B> {
    pub address: Address,
    pub pose: P,
    pub latest: Option<B>,
}

/// An event the registry fires, with the camera's address and pose.
#[derive(Clone, Copy, Debug)]
pub enum CameraEvent<P> {
    Connection(Address, P),
    Disconnection(Address, P),
}

/// One mutation of the registry.
#[derive(Clone, Copy, Debug)]
pub enum RegistryOp<P, B> {
    Connect(Address, P),
    Disconnect(Address),
    Observe(Address, B),
}

/// The address an event is about.
pub open spec fn event_address<P>(e: CameraEvent<P>) -> Address {
    match e {
        CameraEvent::Connection(a, _) => a,
        CameraEvent::Disconnection(a, _) => a,
    }
}

/// Whether some entry of `s` has address `a`.
pub open spec fn has_address<P, B>(s: Seq<CameraEntry<P, B>>, a: Address) -> bool {
    exists|i: int| 0 <= i < s.len() && s[i].address == a
}

/// No two entries of `s` share an address.
pub open spec fn unique<P, B>(s: Seq<CameraEntry<P, B>>) -> bool {
    forall|i: int, j: int|
        0 <= i < s.len() && 0 <= j < s.len() && s[i].address == s[j].address ==> i == j
}

/// The position of the entry with address `a` (meaningful when `has_address(s, a)`).
pub open spec fn index_of<P, B>(s: Seq<CameraEntry<P, B>>, a: Address) -> int {
    choose|i: int| 0 <= i < s.len() && s[i].address == a
}

/// Where `index_of` points when the address is present.
pub proof fn lemma_index_of<P, B>(s: Seq<CameraEntry<P, B>>, a: Address)
    requires
        has_address(s, a),
    ensures
        0 <= index_of(s, a) < s.len(),
        s[index_of(s, a)].address == a,
        unique(s) ==> forall|i: int| 0 <= i < s.len() && s[i].address == a ==> i == index_of(s, a),
{
}

/// Connecting: an address already present is refused and nothing fires;
/// otherwise the camera is appended, with no bearing, and `Connection` fires.
pub open spec fn spec_connect<P, B>(s: Seq<CameraEntry<P, B>>, a: Address, pose: P) -> (
    Seq<CameraEntry<P, B>>,
    Option<CameraEvent<P>>,
) {
    if has_address(s, a) {
        (s, None)
    } else {
        (s.push(CameraEntry { address: a, pose, latest: None }), Some(CameraEvent::Connection(a, pose)))
    }
}

/// Disconnecting: the camera is removed and `Disconnection` fires with its
/// pose; an unknown address changes nothing and fires nothing.
pub open spec fn spec_disconnect<P, B>(s: Seq<CameraEntry<P, B>>, a: Address) -> (
    Seq<CameraEntry<P, B>>,
    Option<CameraEvent<P>>,
) {
    if has_address(s, a) {
        let i = index_of(s, a);
        (s.remove(i), Some(CameraEvent::Disconnection(a, s[i].pose)))
    } else {
        (s, None)
    }
}

/// Recording a bearing overwrites the camera's latest one.
pub open spec fn spec_observe<P, B>(s: Seq<CameraEntry<P, B>>, a: Address, b: B) -> (
    Seq<CameraEntry<P, B>>,
    bool,
) {
    if has_address(s, a) {
        let i = index_of(s, a);
        (s.update(i, CameraEntry { latest: Some(b), ..s[i] }), true)
    } else {
        (s, false)
    }
}

/// The cameras that have a bearing, as (pose, bearing) pairs, in registry
/// order.
pub open spec fn eligible<P, B>(s: Seq<CameraEntry<P, B>>) -> Seq<(P, B)>
    decreases s.len(),
{
    if s.len() == 0 {
        Seq::empty()
    } else {
        let r = eligible(s.drop_last());
        match s.last().latest {
            Some(b) => r.push((s.last().pose, b)),
            None => r,
        }
    }
}

/// The registry itself.
pub struct CameraRegistry<P, B> {
    entries: Vec<CameraEntry<P, B>>,
}

impl<P, B> View for CameraRegistry<P, B> {
    type V = Seq<CameraEntry<P, B>>;

    closed spec fn view(&self) -> Seq<CameraEntry<P, B>> {
        self.entries@
    }
}

impl<P: Copy, B: Copy> CameraRegistry<P, B> {
    /// The registry's invariant: at most one entry per address.
    pub open spec fn wf(&self) -> bool {
        unique(self@)
    }

    /// An empty registry.
    pub fn new() -> (r: Self)
        ensures
            r.wf(),
            r@ == Seq::<CameraEntry<P, B>>::empty(),
    {
        CameraRegistry { entries: Vec::new() }
    }

    /// Number of connected cameras.
    pub fn len(&self) -> (r: usize)
        ensures
            r == self@.len(),
    {
        self.entries.len()
    }

    /// Where the camera with address `a` stands, if it is connected.
    fn find(&self, a: Address) -> (r: Option<usize>)
        requires
            self.wf(),
        ensures
            match r {
                Some(i) => i < self@.len() && has_address(self@, a) && i == index_of(self@, a),
                None => !has_address(self@, a),
            },
    {
        let mut i: usize = 0;
        while i < self.entries.len()
            invariant
                self.wf(),
                0 <= i <= self@.len(),
                forall|j: int| 0 <= j < i ==> self@[j].address != a,
            decreases self@.len() - i,
        {
            if self.entries[i].address == a {
                proof {
                    assert(has_address(self@, a));
                    let k = index_of(self@, a);
                    assert(self@[k].address == a);
                    assert(k == i as int);
                }
                return Some(i);
            }
            i = i + 1;
        }
        None
    }

    /// Whether a camera with address `a` is connected.
    pub fn contains(&self, a: Address) -> (r: bool)
        requires
            self.wf(),
        ensures
            r == has_address(self@, a),
    {
        self.find(a).is_some()
    }

    /// The pose of the camera with address `a`, if it is connected.
    pub fn pose_of(&self, a: Address) -> (r: Option<P>)
        requires
            self.wf(),
        ensures
            r == (if has_address(self@, a) {
                Some(self@[index_of(self@, a)].pose)
            } else {
                None::<P>
            }),
    {
        match self.find(a) {
            Some(i) => Some(self.entries[i].pose),
            None => None,
        }
    }

    /// Admits a camera that has sent its pose.
    pub fn connect(&mut self, a: Address, pose: P) -> (r: Option<CameraEvent<P>>)
        requires
            old(self).wf(),
        ensures
            final(self).wf(),
            (final(self)@, r) == spec_connect(old(self)@, a, pose),
    {
        match self.find(a) {
            Some(_) => None,
            None => {
                self.entries.push(CameraEntry { address: a, pose, latest: None });
                Some(CameraEvent::Connection(a, pose))
            },
        }
    }

    /// Removes a camera whose connection ended.
    pub fn disconnect(&mut self, a: Address) -> (r: Option<CameraEvent<P>>)
        requires
            old(self).wf(),
        ensures
            final(self).wf(),
            (final(self)@, r) == spec_disconnect(old(self)@, a),
    {
        match self.find(a) {
            Some(i) => {
                let e = self.entries.remove(i);
                proof {
                    let s = old(self)@;
                    assert forall|x: int, y: int|
                        0 <= x < self@.len() && 0 <= y < self@.len()
                            && self@[x].address == self@[y].address implies x == y by {
                        let x0 = if x < i { x } else { x + 1 };
                        let y0 = if y < i { y } else { y + 1 };
                        assert(s[x0].address == s[y0].address);
                    }
                }
                Some(CameraEvent::Disconnection(a, e.pose))
            },
            None => None,
        }
    }

    /// Records the latest bearing of a connected camera; `false` when no
    /// camera has that address.
    pub fn observe(&mut self, a: Address, b: B) -> (r: bool)
        requires
            old(self).wf(),
        ensures
            final(self).wf(),
            (final(self)@, r) == spec_observe(old(self)@, a, b),
    {
        match self.find(a) {
            Some(i) => {
                let old_entry = self.entries[i];
                self.entries.set(i, CameraEntry { latest: Some(b), ..old_entry });
                true
            },
            None => false,
        }
    }

    /// The cameras that have reported a bearing, with it, in registry order.
    pub fn eligible(&self) -> (r: Vec<(P, B)>)
        ensures
            r@ == eligible(self@),
    {
        let mut r: Vec<(P, B)> = Vec::new();
        let mut i: usize = 0;
        while i < self.entries.len()
            invariant
                0 <= i <= self@.len(),
                r@ == eligible(self@.subrange(0, i as int)),
            decreases self@.len() - i,
        {
            proof {
                assert(self@.subrange(0, i as int + 1).drop_last() =~= self@.subrange(0, i as int));
            }
            let e = self.entries[i];
            match e.latest {
                Some(b) => r.push((e.pose, b)),
                None => {},
            }
            i = i + 1;
        }
        assert(self@.subrange(0, self@.len() as int) =~= self@);
        r
    }
}

/// One operation applied to a registry, with the event it fired, if any.
pub open spec fn spec_apply<P, B>(s: Seq<CameraEntry<P, B>>, op: RegistryOp<P, B>) -> (
    Seq<CameraEntry<P, B>>,
    Option<CameraEvent<P>>,
) {
    match op {
        RegistryOp::Connect(a, pose) => spec_connect(s, a, pose),
        RegistryOp::Disconnect(a) => spec_disconnect(s, a),
        RegistryOp::Observe(a, b) => (spec_observe(s, a, b).0, None),
    }
}

/// The registry after `ops`, starting empty, and the events fired, in order.
pub open spec fn replay<P, B>(ops: Seq<RegistryOp<P, B>>) -> (
    Seq<CameraEntry<P, B>>,
    Seq<CameraEvent<P>>,
)
    decreases ops.len(),
{
    if ops.len() == 0 {
        (Seq::empty(), Seq::empty())
    } else {
        let (s, fired) = replay(ops.drop_last());
        let (s2, e) = spec_apply(s, ops.last());
        match e {
            Some(x) => (s2, fired.push(x)),
            None => (s2, fired),
        }
    }
}

/// Number of `Connection` events in `fired`.
pub open spec fn connections<P>(fired: Seq<CameraEvent<P>>) -> int
    decreases fired.len(),
{
    if fired.len() == 0 {
        0
    } else {
        connections(fired.drop_last()) + if fired.last() is Connection {
            1int
        } else {
            0int
        }
    }
}

/// Number of `Disconnection` events in `fired`.
pub open spec fn disconnections<P>(fired: Seq<CameraEvent<P>>) -> int
    decreases fired.len(),
{
    if fired.len() == 0 {
        0
    } else {
        disconnections(fired.drop_last()) + if fired.last() is Disconnection {
            1int
        } else {
            0int
        }
    }
}

/// The events about address `a`, in order, each as `true` for a
/// `Connection` and `false` for a `Disconnection`.
pub open spec fn kinds_for<P>(fired: Seq<CameraEvent<P>>, a: Address) -> Seq<bool>
    decreases fired.len(),
{
    if fired.len() == 0 {
        Seq::empty()
    } else {
        let k = kinds_for(fired.drop_last(), a);
        if event_address(fired.last()) == a {
            k.push(fired.last() is Connection)
        } else {
            k
        }
    }
}

/// Connections and disconnections alternate, starting with a connection.
pub open spec fn alternating(k: Seq<bool>) -> bool {
    forall|i: int| 0 <= i < k.len() ==> k[i] == (i % 2 == 0)
}

proof fn lemma_replay_invariant<P, B>(ops: Seq<RegistryOp<P, B>>)
    ensures
        ({
            let (s, fired) = replay(ops);
            &&& unique(s)
            &&& s.len() == connections(fired) - disconnections(fired)
            &&& forall|a: Address|
                #![trigger kinds_for(fired, a)]
                alternating(kinds_for(fired, a))
                    && (has_address(s, a) <==> kinds_for(fired, a).len() % 2 == 1)
        }),
    decreases ops.len(),
{
    if ops.len() > 0 {
        let prev = ops.drop_last();
        lemma_replay_invariant(prev);
        let (s, fired) = replay(prev);
        let op = ops.last();
        let (s2, fired2) = replay(ops);
        match op {
            RegistryOp::Connect(a, pose) => {
                if !has_address(s, a) {
                    assert(s2 == s.push(CameraEntry { address: a, pose, latest: None::<B> }));
                    assert(fired2.drop_last() =~= fired);
                    assert(connections(fired2) == connections(fired) + 1);
                    assert(disconnections(fired2) == disconnections(fired));
                    assert forall|b: Address|
                        #![trigger kinds_for(fired2, b)]
                        alternating(kinds_for(fired2, b))
                            && (has_address(s2, b) <==> kinds_for(fired2, b).len() % 2 == 1) by {
                        assert(kinds_for(fired, b) == kinds_for(fired, b));
                        if has_address(s2, b) && b != a {
                            let j = choose|j: int| 0 <= j < s2.len() && s2[j].address == b;
                            assert(s[j].address == b);
                        }
                        if has_address(s, b) {
                            let j = choose|j: int| 0 <= j < s.len() && s[j].address == b;
                            assert(s2[j].address == b);
                        }
                        assert(s2[s.len() as int].address == a);
                    }
                }
            },
            RegistryOp::Disconnect(a) => {
                if has_address(s, a) {
                    let i = index_of(s, a);
                    assert(s2 == s.remove(i));
                    assert(fired2.drop_last() =~= fired);
                    assert(connections(fired2) == connections(fired));
                    assert(disconnections(fired2) == disconnections(fired) + 1);
                    assert forall|x: int, y: int|
                        0 <= x < s2.len() && 0 <= y < s2.len() && s2[x].address == s2[y].address
                        implies x == y by {
                        let x0 = if x < i { x } else { x + 1 };
                        let y0 = if y < i { y } else { y + 1 };
                        assert(s[x0].address == s[y0].address);
                    }
                    assert forall|b: Address|
                        #![trigger kinds_for(fired2, b)]
                        alternating(kinds_for(fired2, b))
                            && (has_address(s2, b) <==> kinds_for(fired2, b).len() % 2 == 1) by {
                        assert(kinds_for(fired, b) == kinds_for(fired, b));
                        if has_address(s2, b) {
                            let j = choose|j: int| 0 <= j < s2.len() && s2[j].address == b;
                            let j0 = if j < i { j } else { j + 1 };
                            assert(s[j0].address == b);
                            assert(j0 != i);
                        }
                        if has_address(s, b) && b != a {
                            let j = choose|j: int| 0 <= j < s.len() && s[j].address == b;
                            assert(j != i);
                            let j2 = if j < i { j } else { j - 1 };
                            assert(s2[j2].address == b);
                        }
                    }
                }
            },
            RegistryOp::Observe(a, b) => {
                if has_address(s, a) {
                    let i = index_of(s, a);
                    assert(s2 == s.update(i, CameraEntry { latest: Some(b), ..s[i] }));
                    assert forall|c: Address|
                        #![trigger kinds_for(fired2, c)]
                        alternating(kinds_for(fired2, c))
                            && (has_address(s2, c) <==> kinds_for(fired2, c).len() % 2 == 1) by {
                        assert(kinds_for(fired, c) == kinds_for(fired, c));
                        if has_address(s2, c) {
                            let j = choose|j: int| 0 <= j < s2.len() && s2[j].address == c;
                            assert(s[j].address == c);
                        }
                        if has_address(s, c) {
                            let j = choose|j: int| 0 <= j < s.len() && s[j].address == c;
                            assert(s2[j].address == c);
                        }
                    }
                }
            },
        }
    }
}

/// Whatever sequence of connects, disconnects and observations the
/// registry goes through, no address appears twice in it, and the number of
/// connected cameras equals the connections fired minus the disconnections
/// fired.
pub proof fn lemma_registry_matches_events<P, B>(ops: Seq<RegistryOp<P, B>>)
    ensures
        unique(replay(ops).0),
        replay(ops).0.len() == connections(replay(ops).1) - disconnections(replay(ops).1),
{
    lemma_replay_invariant(ops);
}

/// For every address, the events fired about it are a `Connection`, then a
/// `Disconnection`, then a `Connection`, and so on, never two of a kind in a
/// row; the last one is a `Connection` exactly when that camera is still
/// connected.
pub proof fn lemma_event_order<P, B>(ops: Seq<RegistryOp<P, B>>, a: Address)
    ensures
        alternating(kinds_for(replay(ops).1, a)),
        has_address(replay(ops).0, a) <==> kinds_for(replay(ops).1, a).len() % 2 == 1,
{
    lemma_replay_invariant(ops);
}

/// The triangulation input is empty exactly when no connected camera has
/// reported a bearing yet; so with no eligible camera there is nothing to
/// estimate from.
pub proof fn lemma_no_bearing_no_input<P, B>(s: Seq<CameraEntry<P, B>>)
    ensures
        eligible(s).len() == 0 <==> forall|i: int| 0 <= i < s.len() ==> s[i].latest is None,
    decreases s.len(),
{
    if s.len() > 0 {
        let prev = s.drop_last();
        lemma_no_bearing_no_input(prev);
        if eligible(s).len() == 0 {
            assert forall|i: int| 0 <= i < s.len() implies s[i].latest is None by {
                if i < s.len() - 1 {
                    assert(prev[i] == s[i]);
                }
            }
        }
        if forall|i: int| 0 <= i < s.len() ==> s[i].latest is None {
            assert forall|i: int| 0 <= i < prev.len() implies prev[i].latest is None by {
                assert(prev[i] == s[i]);
            }
        }
    }
}

} // verus!
