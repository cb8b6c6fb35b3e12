//! Totals of network traffic over all interfaces.

use vstd::prelude::*;

verus! {

/// The traffic counters of one interface, in bytes.
#[derive(Debug, Clone, Copy)]
pub struct InterfaceTraffic {
    pub received: u64,
    pub transmitted: u64,
}

/// The bytes received over a sequence of interfaces.
pub open spec fn received_total(interfaces: Seq<InterfaceTraffic>) -> nat
    decreases interfaces.len(),
{
    if interfaces.len() == 0 {
        0
    } else {
        received_total(interfaces.drop_last()) + interfaces.last().received as nat
    }
}

/// The bytes transmitted over a sequence of interfaces.
pub open spec fn transmitted_total(interfaces: Seq<InterfaceTraffic>) -> nat
    decreases interfaces.len(),
{
    if interfaces.len() == 0 {
        0
    } else {
        transmitted_total(interfaces.drop_last()) + interfaces.last().transmitted as nat
    }
}

/// The total of one counter grows with the prefix it is taken over.
pub proof fn lemma_totals_grow(interfaces: Seq<InterfaceTraffic>, n: int)
    requires
        0 <= n <= interfaces.len(),
    ensures
        received_total(interfaces.take(n)) <= received_total(interfaces),
        transmitted_total(interfaces.take(n)) <= transmitted_total(interfaces),
    decreases interfaces.len() - n,
{
    if n < interfaces.len() {
        let t = interfaces.take(n + 1);
        assert(t.drop_last() =~= interfaces.take(n));
        lemma_totals_grow(interfaces, n + 1);
    } else {
        assert(interfaces.take(n) =~= interfaces);
    }
}

/// Traffic totals over all interfaces.
#[derive(Debug, Clone, Copy)]
pub struct NetworkStats {
    pub received_bytes: u64,
    pub transmitted_bytes: u64,
    pub total_networks: usize,
}

impl NetworkStats {
    /// The totals over `interfaces`. Both totals must fit in 64 bits.
    pub fn new(interfaces: &Vec<InterfaceTraffic>) -> (r: Self)
        requires
            received_total(interfaces@) <= u64::MAX,
            transmitted_total(interfaces@) <= u64::MAX,
        ensures
            r.received_bytes as nat == received_total(interfaces@),
            r.transmitted_bytes as nat == transmitted_total(interfaces@),
            r.total_networks == interfaces.len(),
    {
        let mut received: u64 = 0;
        let mut transmitted: u64 = 0;
        let mut i: usize = 0;
        assert(interfaces@.take(0) =~= Seq::<InterfaceTraffic>::empty());
        while i < interfaces.len()
            invariant
                i <= interfaces.len(),
                received as nat == received_total(interfaces@.take(i as int)),
                transmitted as nat == transmitted_total(interfaces@.take(i as int)),
                received_total(interfaces@) <= u64::MAX,
                transmitted_total(interfaces@) <= u64::MAX,
            decreases interfaces.len() - i,
        {
            proof {
                let t = interfaces@.take(i + 1);
                assert(t.drop_last() =~= interfaces@.take(i as int));
                assert(t.last() == interfaces@[i as int]);
                lemma_totals_grow(interfaces@, i + 1);
            }
            received = received + interfaces[i].received;
            transmitted = transmitted + interfaces[i].transmitted;
            i += 1;
        }
        assert(interfaces@.take(interfaces.len() as int) == interfaces@);
        NetworkStats {
            received_bytes: received,
            transmitted_bytes: transmitted,
            total_networks: interfaces.len(),
        }
    }

    /// Replaces the totals by those over `interfaces`. Both totals must fit
    /// in 64 bits.
    pub fn update(&mut self, interfaces: &Vec<InterfaceTraffic>)
        requires
            received_total(interfaces@) <= u64::MAX,
            transmitted_total(interfaces@) <= u64::MAX,
        ensures
            final(self).received_bytes as nat == received_total(interfaces@),
            final(self).transmitted_bytes as nat == transmitted_total(interfaces@),
            final(self).total_networks == interfaces.len(),
    {
        *self = NetworkStats::new(interfaces);
    }

    /// Whether both totals over `interfaces` fit in 64 bits, which
    /// [`NetworkStats::new`] and [`NetworkStats::update`] ask for.
    pub fn fits(interfaces: &Vec<InterfaceTraffic>) -> (r: bool)
        ensures
            r == (received_total(interfaces@) <= u64::MAX && transmitted_total(interfaces@)
                <= u64::MAX),
    {
        let mut received: u64 = 0;
        let mut transmitted: u64 = 0;
        let mut i: usize = 0;
        assert(interfaces@.take(0) =~= Seq::<InterfaceTraffic>::empty());
        while i < interfaces.len()
            invariant
                i <= interfaces.len(),
                received as nat == received_total(interfaces@.take(i as int)),
                transmitted as nat == transmitted_total(interfaces@.take(i as int)),
            decreases interfaces.len() - i,
        {
            proof {
                let t = interfaces@.take(i + 1);
                assert(t.drop_last() =~= interfaces@.take(i as int));
                assert(t.last() == interfaces@[i as int]);
                lemma_totals_grow(interfaces@, i + 1);
            }
            if interfaces[i].received > u64::MAX - received || interfaces[i].transmitted > u64::MAX
                - transmitted {
                return false;
            }
            received = received + interfaces[i].received;
            transmitted = transmitted + interfaces[i].transmitted;
            i += 1;
        }
        assert(interfaces@.take(interfaces.len() as int) == interfaces@);
        true
    }
}

} // verus!
