//! The chips of a chain and their addresses.

use crate::asic::bm13xx::topology::TopologySpec;
use vstd::prelude::*;

verus! {

/// A chip's position in the chain, counted from the host.
#[derive(Clone, Copy, Debug, PartialEq, Eq, Structural)]
pub struct ChipId(pub usize);

/// A chip.
#[derive(Clone, Copy, Debug, PartialEq, Eq, Structural)]
pub struct Chip {
    pub address: u8,
}

/// Why addresses could not be assigned.
#[derive(Clone, Copy, Debug, PartialEq, Eq, Structural)]
pub enum ChainError {
    /// Addresses are two apart, so 128 chips are the most.
    TooManyChips { chip_count: usize },
}

/// A chain of chips in equal voltage domains. Domain zero is closest to the
/// host.
#[derive(Clone, Debug)]
pub struct Chain {
    pub chips: Vec<Chip>,
    pub domain_count: usize,
    pub chips_per_domain: usize,
}

impl Chain {
    /// The chips are those of the domains.
    pub open spec fn wf(&self) -> bool {
        self.chips@.len() == self.domain_count * self.chips_per_domain
    }

    /// The addresses of the chips, from the host outwards.
    pub open spec fn addresses(&self) -> Seq<u8> {
        self.chips@.map_values(|chip: Chip| chip.address)
    }

    /// The position of the first chip of a domain.
    pub open spec fn first_of(&self, domain: int) -> int {
        domain * self.chips_per_domain
    }

    /// The position of the last chip of a domain.
    pub open spec fn last_of(&self, domain: int) -> int {
        (domain + 1) * self.chips_per_domain - 1
    }

    /// A chain in which no chip has its address yet.
    pub fn from_topology(topology: &TopologySpec) -> (r: Chain)
        requires
            topology.chips() <= usize::MAX,
        ensures
            r.wf(),
            r.domain_count == topology.domain_count,
            r.chips_per_domain == topology.chips_per_domain,
            forall|i: int| 0 <= i < r.chips@.len() ==> (#[trigger] r.chips@[i]).address == 0,
    {
        let count: usize = topology.domain_count * topology.chips_per_domain;
        let mut chips: Vec<Chip> = Vec::new();
        while chips.len() < count
            invariant
                chips@.len() <= count,
                forall|i: int| 0 <= i < chips@.len() ==> (#[trigger] chips@[i]).address == 0,
            decreases count - chips@.len(),
        {
            chips.push(Chip { address: 0 });
        }
        Chain {
            chips,
            domain_count: topology.domain_count,
            chips_per_domain: topology.chips_per_domain,
        }
    }

    /// Gives each chip an address, two apart from the host outwards.
    pub fn assign_addresses(&mut self) -> (r: Result<(), ChainError>)
        requires
            old(self).wf(),
        ensures
            final(self).wf(),
            final(self).domain_count == old(self).domain_count,
            final(self).chips_per_domain == old(self).chips_per_domain,
            final(self).chips@.len() == old(self).chips@.len(),
            old(self).chips@.len() > 128 ==> *final(self) == *old(self) && r == Err::<(), _>(
                ChainError::TooManyChips { chip_count: old(self).chips@.len() as usize },
            ),
            old(self).chips@.len() <= 128 ==> r is Ok && final(self).addressed(),
    {
        let count: usize = self.chips.len();
        if count > 128 {
            return Err(ChainError::TooManyChips { chip_count: count });
        }
        let mut i: usize = 0;
        while i < count
            invariant
                i <= count <= 128,
                self.chips@.len() == count,
                self.chips@.len() == old(self).chips@.len(),
                self.domain_count == old(self).domain_count,
                self.chips_per_domain == old(self).chips_per_domain,
                forall|j: int| 0 <= j < i ==> (#[trigger] self.chips@[j]).address == 2 * j,
            decreases count - i,
        {
            self.chips.set(i, Chip { address: 2 * i as u8 });
            i = i + 1;
        }
        Ok(())
    }

    /// Whether each chip has its own address.
    pub open spec fn addressed(&self) -> bool {
        forall|i: int| 0 <= i < self.chips@.len() ==> (#[trigger] self.chips@[i]).address == 2 * i
    }

    pub fn chip_count(&self) -> (r: usize)
        ensures
            r == self.chips@.len(),
    {
        self.chips.len()
    }

    /// The chip at a position.
    pub fn chip(&self, id: ChipId) -> (r: Chip)
        requires
            id.0 < self.chips@.len(),
        ensures
            r == self.chips@[id.0 as int],
    {
        self.chips[id.0]
    }

    /// The first chip of a domain.
    pub fn domain_first(&self, domain: usize) -> (r: ChipId)
        requires
            self.wf(),
            self.chips_per_domain > 0,
            domain < self.domain_count,
        ensures
            r.0 == self.first_of(domain as int),
            r.0 < self.chips@.len(),
    {
        proof {
            self.lemma_domain(domain as int);
        }
        ChipId(domain * self.chips_per_domain)
    }

    /// The last chip of a domain.
    pub fn domain_last(&self, domain: usize) -> (r: ChipId)
        requires
            self.wf(),
            self.chips_per_domain > 0,
            domain < self.domain_count,
        ensures
            r.0 == self.last_of(domain as int),
            r.0 < self.chips@.len(),
    {
        proof {
            self.lemma_domain(domain as int);
        }
        ChipId(domain * self.chips_per_domain + (self.chips_per_domain - 1))
    }

    proof fn lemma_domain(&self, domain: int)
        requires
            self.wf(),
            self.chips_per_domain > 0,
            0 <= domain < self.domain_count,
        ensures
            0 <= self.first_of(domain) <= self.last_of(domain) < self.chips@.len() <= usize::MAX,
            self.last_of(domain) == self.first_of(domain) + self.chips_per_domain - 1,
    {
        let n = self.chips_per_domain as int;
        assert(self.chips.len() == self.chips@.len());
        assert((domain + 1) * n == domain * n + n && (domain + 1) * n <= self.domain_count * n && 0
            <= domain * n) by (nonlinear_arith)
            requires
                0 <= domain,
                domain + 1 <= self.domain_count,
                n > 0,
        ;
    }
}

/// No two chips of an addressed chain share an address.
pub proof fn law_addresses_distinct(chain: Chain, i: int, j: int)
    requires
        chain.addressed(),
        0 <= i < j < chain.chips@.len() <= 128,
    ensures
        chain.chips@[i].address < chain.chips@[j].address,
{
}

/// Addresses are two apart, from zero at the host's end, and listed in the order
/// of the chips.
pub proof fn law_addresses_two_apart(chain: Chain, i: int)
    requires
        chain.addressed(),
        0 <= i < chain.chips@.len(),
    ensures
        chain.chips@[0].address == 0,
        i > 0 ==> chain.chips@[i].address == chain.chips@[i - 1].address + 2,
        chain.addresses().len() == chain.chips@.len(),
        chain.addresses()[i] == chain.chips@[i].address,
{
}

/// The domains follow one another without a gap, from the first chip of the
/// chain to the last, and each holds as many chips as the others.
pub proof fn law_domains_fill_the_chain(chain: Chain, domain: int)
    requires
        chain.wf(),
        chain.chips_per_domain > 0,
        0 <= domain < chain.domain_count,
    ensures
        chain.first_of(0) == 0,
        chain.last_of(domain) + 1 == chain.first_of(domain) + chain.chips_per_domain,
        domain + 1 < chain.domain_count ==> chain.first_of(domain + 1) == chain.last_of(domain) + 1,
        domain + 1 == chain.domain_count ==> chain.last_of(domain) + 1 == chain.chips@.len(),
{
    chain.lemma_domain(domain);
    assert(0 * chain.chips_per_domain == 0) by (nonlinear_arith);
}

} // verus!
