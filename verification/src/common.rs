//! Identifiers, addresses and clock values shared by every component.

use vstd::prelude::*;
use vstd::std_specs::cmp::PartialEqSpecImpl;

verus! {

/// Tells whether two twenty-byte identifiers hold the same bytes.
pub fn bytes_equal(a: &[u8; 20], b: &[u8; 20]) -> (r: bool)
    ensures
        r == (*a == *b),
{
    let mut i: usize = 0;
    while i < 20
        invariant
            i <= 20,
            forall|j: int| 0 <= j < i ==> a[j] == b[j],
        decreases 20 - i,
    {
        if a[i] != b[i] {
            return false;
        }
        i += 1;
    }
    assert(*a =~= *b);
    true
}

/// Identifier of one content swarm: twenty opaque bytes.
#[derive(Clone, Copy, Debug, Hash)]
pub struct InfoHash(pub [u8; 20]);

impl PartialEq for InfoHash {
    fn eq(&self, other: &Self) -> (r: bool) {
        bytes_equal(&self.0, &other.0)
    }
}

impl Eq for InfoHash {

}

impl PartialEqSpecImpl for InfoHash {
    open spec fn obeys_eq_spec() -> bool {
        true
    }

    open spec fn eq_spec(&self, other: &Self) -> bool {
        *self == *other
    }
}

/// Identifier that a client chooses for itself: twenty opaque bytes.
#[derive(Clone, Copy, Debug, Hash)]
pub struct PeerId(pub [u8; 20]);

impl PartialEq for PeerId {
    fn eq(&self, other: &Self) -> (r: bool) {
        bytes_equal(&self.0, &other.0)
    }
}

impl Eq for PeerId {

}

impl PartialEqSpecImpl for PeerId {
    open spec fn obeys_eq_spec() -> bool {
        true
    }

    open spec fn eq_spec(&self, other: &Self) -> bool {
        *self == *other
    }
}

/// An IP address as a number: the four octets of an IPv4 address or the
/// sixteen of an IPv6 address, most significant first.
#[derive(Clone, Copy, Debug, PartialEq, Eq, Hash, Structural)]
pub enum IpAddress {
    V4(u32),
    V6(u128),
}

/// An IP address with a port.
#[derive(Clone, Copy, Debug, PartialEq, Eq, Hash, Structural)]
pub struct SocketAddress {
    pub ip: IpAddress,
    pub port: u16,
}

/// What an announce reports of the download, where it reports anything.
#[derive(Clone, Copy, Debug, PartialEq, Eq, Hash, Structural)]
pub enum AnnounceEvent {
    Started,
    Stopped,
    Completed,
    Empty,
}

impl Default for AnnounceEvent {
    /// No event.
    fn default() -> (event: Self)
        ensures
            event == AnnounceEvent::Empty,
    {
        AnnounceEvent::Empty
    }
}

impl AnnounceEvent {
    /// The name by which a message tells the event.
    pub open spec fn spec_name(self) -> Seq<char> {
        match self {
            AnnounceEvent::Started => "started"@,
            AnnounceEvent::Stopped => "stopped"@,
            AnnounceEvent::Completed => "completed"@,
            AnnounceEvent::Empty => "empty"@,
        }
    }

    /// The name by which a message tells the event.
    pub fn name(self) -> (name: &'static str)
        ensures
            name@ == self.spec_name(),
    {
        match self {
            AnnounceEvent::Started => "started",
            AnnounceEvent::Stopped => "stopped",
            AnnounceEvent::Completed => "completed",
            AnnounceEvent::Empty => "empty",
        }
    }

    /// The event that a name names.
    pub open spec fn spec_from_name(name: Seq<char>) -> Option<AnnounceEvent> {
        if name == "started"@ {
            Some(AnnounceEvent::Started)
        } else if name == "stopped"@ {
            Some(AnnounceEvent::Stopped)
        } else if name == "completed"@ {
            Some(AnnounceEvent::Completed)
        } else if name == "empty"@ {
            Some(AnnounceEvent::Empty)
        } else {
            None
        }
    }

    /// The event that a name names.
    pub fn from_name(name: &String) -> (event: Option<AnnounceEvent>)
        ensures
            event == AnnounceEvent::spec_from_name(name@),
    {
        if *name == "started".to_owned() {
            Some(AnnounceEvent::Started)
        } else if *name == "stopped".to_owned() {
            Some(AnnounceEvent::Stopped)
        } else if *name == "completed".to_owned() {
            Some(AnnounceEvent::Completed)
        } else if *name == "empty".to_owned() {
            Some(AnnounceEvent::Empty)
        } else {
            None
        }
    }

    /// Every event is the one that its name names.
    pub proof fn lemma_name_round_trip(self)
        ensures
            AnnounceEvent::spec_from_name(self.spec_name()) == Some(self),
    {
        reveal_strlit("started");
        reveal_strlit("stopped");
        reveal_strlit("completed");
        reveal_strlit("empty");
        assert("started"@.len() == 7);
        assert("stopped"@.len() == 7);
        assert("completed"@.len() == 9);
        assert("empty"@.len() == 5);
        assert("started"@[2] == 'a');
        assert("stopped"@[2] == 'o');
    }
}

/// What a scrape tells of one swarm.
#[derive(Clone, Copy, Debug, PartialEq, Eq, Hash, Structural)]
pub struct ScrapeStatistics {
    /// Members that hold all of the content.
    pub complete: usize,
    /// Members that hold some of it.
    pub incomplete: usize,
    /// Finished downloads; not tracked, and zero in every answer.
    pub downloaded: usize,
}

/// A reading of a monotonic clock, in whole seconds.
#[derive(Clone, Copy, Debug, PartialEq, Eq, Hash, Structural)]
pub struct Time(pub u64);

impl Time {
    /// Seconds from `earlier` to `self`; zero where `earlier` is the later one.
    pub open spec fn spec_since(self, earlier: Time) -> u64 {
        if self.0 >= earlier.0 {
            (self.0 - earlier.0) as u64
        } else {
            0
        }
    }

    /// Seconds from `earlier` to `self`; zero where `earlier` is the later one.
    #[verifier::when_used_as_spec(spec_since)]
    pub fn since(self, earlier: Time) -> (age: u64)
        ensures
            age == self.spec_since(earlier),
    {
        if self.0 >= earlier.0 {
            self.0 - earlier.0
        } else {
            0
        }
    }
}

/// The moment after which an idle connection or a stale peer may be dropped.
#[derive(Clone, Copy, Debug, PartialEq, Eq, Hash, Structural)]
pub struct ValidUntil(pub Time);

impl ValidUntil {
    /// The deadline `offset_seconds` after `now`, held at the largest
    /// representable moment where the sum would pass it.
    pub open spec fn spec_new(now: Time, offset_seconds: u64) -> ValidUntil {
        if now.0 + offset_seconds <= u64::MAX {
            ValidUntil(Time((now.0 + offset_seconds) as u64))
        } else {
            ValidUntil(Time(u64::MAX))
        }
    }

    /// The deadline `offset_seconds` after `now`, held at the largest
    /// representable moment where the sum would pass it.
    #[verifier::when_used_as_spec(spec_new)]
    pub fn new(now: Time, offset_seconds: u64) -> (deadline: ValidUntil)
        ensures
            deadline == ValidUntil::spec_new(now, offset_seconds),
    {
        ValidUntil(Time(now.0.saturating_add(offset_seconds)))
    }
}

} // verus!
