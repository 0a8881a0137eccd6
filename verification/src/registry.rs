//! The set of live event streams and the queue of key events read from
//! them.
//!
//! The registry decides; the program around it opens devices, reads them
//! and hands in what it read. A stream joins the set when a matched device
//! is registered and leaves it when reading it ends or fails. Removal
//! notifications change nothing: a stream of a removed device leaves when
//! its next read fails.

use std::collections::VecDeque;
use vstd::prelude::*;

use crate::config::DeviceConfig;
use crate::hass::{events_view, normalize, normalized, EventData, KeyEvent, RawEvent};
use crate::matcher::{match_device, matched_name, Device};

verus! {

/// The identity of a stream as a value of the model.
pub struct Identity {
    pub name: Seq<char>,
    pub devnode: Seq<char>,
}

/// A matched device: the logical name it was given and the path of its
/// device node.
#[derive(Debug, Clone, PartialEq, Eq)]
pub struct DeviceIdentity {
    pub name: String,
    pub devnode: String,
}

impl View for DeviceIdentity {
    type V = Identity;

    open spec fn view(&self) -> Identity {
        Identity { name: self.name@, devnode: self.devnode@ }
    }
}

/// A device as enumeration or a notification presents it: the path of its
/// device node, where it has one, and its chain of properties, the device
/// itself first.
#[derive(Debug, Clone, PartialEq, Eq)]
pub struct Candidate {
    pub devnode: Option<String>,
    pub chain: Vec<Device>,
}

/// A notification about the life of a device.
#[derive(Debug, Clone, PartialEq, Eq)]
pub enum Notification {
    Add(Candidate),
    Remove(Candidate),
    Other,
}

/// What the program has to do next.
#[derive(Debug, Clone, PartialEq, Eq)]
pub enum Action {
    /// Open the device node and register a stream under this identity.
    Open(DeviceIdentity),
    /// Nothing.
    Ignore,
}

/// Whether one of the streams reads the device node.
pub open spec fn has_node(streams: Seq<Identity>, devnode: Seq<char>) -> bool {
    exists|i: int| 0 <= i < streams.len() && (#[trigger] streams[i]).devnode == devnode
}

/// No two streams read the same device node.
pub open spec fn distinct_nodes(streams: Seq<Identity>) -> bool {
    forall|i: int, j: int|
        0 <= i < j < streams.len() ==> (#[trigger] streams[i]).devnode != (
        #[trigger] streams[j]).devnode
}

/// The position of the stream that reads the device node.
pub open spec fn node_index(streams: Seq<Identity>, devnode: Seq<char>) -> int {
    choose|i: int| 0 <= i < streams.len() && (#[trigger] streams[i]).devnode == devnode
}

/// The identity under which a candidate is to be opened: it has a device
/// node, it matches a declaration, and no stream reads its node yet.
pub open spec fn eligible(
    streams: Seq<Identity>,
    candidate: Candidate,
    config: Seq<DeviceConfig>,
) -> Option<Identity> {
    match (candidate.devnode, matched_name(candidate.chain@, config)) {
        (Some(node), Some(name)) => if has_node(streams, node@) {
            None
        } else {
            Some(Identity { name, devnode: node@ })
        },
        _ => None,
    }
}

/// The identity to open on a notification: that of an added device which
/// is eligible. Removals and all other notifications open nothing.
pub open spec fn wanted(
    streams: Seq<Identity>,
    notification: Notification,
    config: Seq<DeviceConfig>,
) -> Option<Identity> {
    match notification {
        Notification::Add(candidate) => eligible(streams, candidate, config),
        _ => None,
    }
}

/// The key event that a raw event read from the device node becomes: that
/// of its normalisation under the stream's name, and none where no stream
/// reads the node.
pub open spec fn accepted(streams: Seq<Identity>, devnode: Seq<char>, raw: RawEvent) -> Option<
    KeyEvent,
> {
    if has_node(streams, devnode) {
        normalized(streams[node_index(streams, devnode)].name, raw)
    } else {
        None
    }
}

/// The streams after a registration: the new stream comes last, unless a
/// stream reads its device node already; then the streams stay as they are.
pub open spec fn registered(streams: Seq<Identity>, identity: Identity) -> Seq<Identity> {
    if has_node(streams, identity.devnode) {
        streams
    } else {
        streams.push(identity)
    }
}

/// The live streams, in the order in which they were registered, and the
/// key events read from them that wait to be delivered, oldest first.
pub struct Registry {
    streams: Vec<DeviceIdentity>,
    pending: VecDeque<EventData>,
}

impl Registry {
    /// The registry is well formed: no two streams read the same device
    /// node. Every operation keeps it so.
    pub open spec fn wf(&self) -> bool {
        distinct_nodes(self.streams())
    }

    /// The identities of the live streams, in order of registration.
    pub closed spec fn streams(&self) -> Seq<Identity> {
        self.streams@.map_values(|d: DeviceIdentity| d@)
    }

    /// The key events that wait to be delivered, oldest first.
    pub closed spec fn pending(&self) -> Seq<KeyEvent> {
        events_view(self.pending@)
    }

    /// A registry without streams and without waiting events.
    pub fn new() -> (r: Registry)
        ensures
            r.wf(),
            r.streams() == Seq::<Identity>::empty(),
            r.pending() == Seq::<KeyEvent>::empty(),
    {
        let r = Registry { streams: Vec::new(), pending: VecDeque::new() };
        assert(r.streams() =~= Seq::<Identity>::empty());
        assert(r.pending() =~= Seq::<KeyEvent>::empty());
        r
    }

    /// The number of live streams.
    pub fn len(&self) -> (n: usize)
        ensures
            n == self.streams().len(),
    {
        self.streams.len()
    }

    /// The number of key events that wait.
    pub fn pending_len(&self) -> (n: usize)
        ensures
            n == self.pending().len(),
    {
        self.pending.len()
    }

    /// The identity of the stream at a position.
    pub fn get(&self, index: usize) -> (r: Option<&DeviceIdentity>)
        ensures
            r is Some <==> index < self.streams().len(),
            r matches Some(d) ==> d@ == self.streams()[index as int],
    {
        if index < self.streams.len() {
            Some(&self.streams[index])
        } else {
            None
        }
    }

    /// The position of the stream that reads the device node.
    pub fn position(&self, devnode: &String) -> (r: Option<usize>)
        requires
            self.wf(),
        ensures
            r is Some <==> has_node(self.streams(), devnode@),
            r matches Some(i) ==> i == node_index(self.streams(), devnode@) && i
                < self.streams().len() && self.streams()[i as int].devnode == devnode@,
    {
        let mut i: usize = 0;
        while i < self.streams.len()
            invariant
                i <= self.streams.len(),
                distinct_nodes(self.streams()),
                forall|j: int| 0 <= j < i ==> (#[trigger] self.streams()[j]).devnode != devnode@,
            decreases self.streams.len() - i,
        {
            if self.streams[i].devnode == *devnode {
                assert(self.streams()[i as int].devnode == devnode@);
                return Some(i);
            }
            i += 1;
        }
        None
    }

    /// Whether a stream reads the device node.
    pub fn is_active(&self, devnode: &String) -> (b: bool)
        requires
            self.wf(),
        ensures
            b == has_node(self.streams(), devnode@),
    {
        self.position(devnode).is_some()
    }

    /// Adds a stream, unless one reads the same device node already: then
    /// nothing changes. Either way the waiting events stay as they are,
    /// none lost and none twice.
    pub fn register(&mut self, identity: DeviceIdentity) -> (added: bool)
        requires
            old(self).wf(),
        ensures
            final(self).wf(),
            added == !has_node(old(self).streams(), identity.devnode@),
            final(self).streams() == registered(old(self).streams(), identity@),
            final(self).pending() == old(self).pending(),
    {
        if self.is_active(&identity.devnode) {
            return false;
        }
        proof {
            assert(self.streams@.push(identity).map_values(|d: DeviceIdentity| d@)
                =~= self.streams().push(identity@));
        }
        self.streams.push(identity);
        true
    }

    /// Drops the stream that reads the device node, as after a failed read
    /// or the end of its events. All other streams stay, in their order,
    /// and so do the waiting events.
    pub fn prune(&mut self, devnode: &String) -> (removed: bool)
        requires
            old(self).wf(),
        ensures
            final(self).wf(),
            removed == has_node(old(self).streams(), devnode@),
            final(self).streams() == (if removed {
                old(self).streams().remove(node_index(old(self).streams(), devnode@))
            } else {
                old(self).streams()
            }),
            !has_node(final(self).streams(), devnode@),
            final(self).pending() == old(self).pending(),
    {
        match self.position(devnode) {
            Some(i) => {
                proof {
                    assert(self.streams@.remove(i as int).map_values(|d: DeviceIdentity| d@)
                        =~= self.streams().remove(i as int));
                }
                self.streams.remove(i);
                true
            },
            None => false,
        }
    }

    /// Takes in one raw event read from the device node. Where a stream
    /// reads that node and the event becomes a key event, the key event
    /// joins the end of the queue; else nothing changes.
    pub fn accept(&mut self, devnode: &String, raw: &RawEvent) -> (queued: bool)
        requires
            old(self).wf(),
        ensures
            queued == accepted(old(self).streams(), devnode@, *raw) is Some,
            final(self).pending() == (match accepted(old(self).streams(), devnode@, *raw) {
                Some(event) => old(self).pending().push(event),
                None => old(self).pending(),
            }),
            final(self).streams() == old(self).streams(),
    {
        match self.position(devnode) {
            Some(i) => match normalize(&self.streams[i].name, raw) {
                Some(event) => {
                    proof {
                        assert(events_view(self.pending@.push(event)) =~= self.pending().push(
                            event@,
                        ));
                    }
                    self.pending.push_back(event);
                    true
                },
                None => false,
            },
            None => false,
        }
    }

    /// Hands out the oldest waiting key event, if any. The streams stay.
    pub fn next(&mut self) -> (r: Option<EventData>)
        ensures
            r is Some <==> old(self).pending().len() > 0,
            r matches Some(event) ==> event@ == old(self).pending()[0],
            final(self).pending() == (if old(self).pending().len() > 0 {
                old(self).pending().skip(1)
            } else {
                old(self).pending()
            }),
            final(self).streams() == old(self).streams(),
    {
        proof {
            if self.pending@.len() > 0 {
                assert(events_view(self.pending@.subrange(1, self.pending@.len() as int))
                    =~= self.pending().skip(1));
            }
        }
        self.pending.pop_front()
    }

    /// Decides whether a candidate found by enumeration, or added later,
    /// is to be opened, and under which identity.
    pub fn consider(&self, candidate: &Candidate, config: &Vec<DeviceConfig>) -> (r: Option<
        DeviceIdentity,
    >)
        requires
            self.wf(),
        ensures
            r is Some <==> eligible(self.streams(), *candidate, config@) is Some,
            r matches Some(d) ==> eligible(self.streams(), *candidate, config@) == Some(d@),
    {
        match &candidate.devnode {
            Some(node) => match match_device(&candidate.chain, config) {
                Some(name) => if self.is_active(node) {
                    None
                } else {
                    Some(DeviceIdentity { name, devnode: node.clone() })
                },
                None => None,
            },
            None => None,
        }
    }

    /// Decides what to do on a notification. Only an added device can ask
    /// for a stream; a removal is left to the failing read of its stream.
    pub fn decide(&self, notification: &Notification, config: &Vec<DeviceConfig>) -> (a: Action)
        requires
            self.wf(),
        ensures
            match a {
                Action::Open(d) => wanted(self.streams(), *notification, config@) == Some(d@),
                Action::Ignore => wanted(self.streams(), *notification, config@) is None,
            },
    {
        match notification {
            Notification::Add(candidate) => match self.consider(candidate, config) {
                Some(identity) => Action::Open(identity),
                None => Action::Ignore,
            },
            _ => Action::Ignore,
        }
    }
}

/// Registering keeps the device nodes of the streams distinct, leaves a
/// stream for the registered node, and is idempotent: a second registration
/// for a device node that already has a stream changes nothing.
pub proof fn law_register_idempotent(streams: Seq<Identity>, identity: Identity)
    requires
        distinct_nodes(streams),
    ensures
        distinct_nodes(registered(streams, identity)),
        registered(registered(streams, identity), identity) == registered(streams, identity),
        has_node(registered(streams, identity), identity.devnode),
{
    let once = registered(streams, identity);
    if !has_node(streams, identity.devnode) {
        assert(once[streams.len() as int].devnode == identity.devnode);
    }
}

} // verus!
