//! How the chips of a chain are laid out in voltage domains.

use vstd::prelude::*;

verus! {

/// A chain of equal voltage domains, counted from the host outwards.
#[derive(Clone, Copy, Debug, PartialEq, Eq, Structural)]
pub struct TopologySpec {
    pub domain_count: usize,
    pub chips_per_domain: usize,
    /// Whether chips at domain boundaries need their own settings.
    pub domain_config: bool,
}

impl TopologySpec {
    /// The chips in the chain.
    pub open spec fn chips(&self) -> int {
        self.domain_count * self.chips_per_domain
    }

    /// One domain with all the chips.
    pub fn single_domain(chip_count: usize) -> (r: TopologySpec)
        ensures
            r == (TopologySpec {
                domain_count: 1,
                chips_per_domain: chip_count,
                domain_config: false,
            }),
            r.chips() == chip_count,
    {
        TopologySpec { domain_count: 1, chips_per_domain: chip_count, domain_config: false }
    }

    /// Equal domains.
    pub fn uniform_domains(
        domain_count: usize,
        chips_per_domain: usize,
        domain_config: bool,
    ) -> (r: TopologySpec)
        ensures
            r == (TopologySpec { domain_count, chips_per_domain, domain_config }),
    {
        TopologySpec { domain_count, chips_per_domain, domain_config }
    }

    /// A domain per chip.
    pub fn individual_domains(chip_count: usize, domain_config: bool) -> (r: TopologySpec)
        ensures
            r == (TopologySpec { domain_count: chip_count, chips_per_domain: 1, domain_config }),
            r.chips() == chip_count,
    {
        TopologySpec { domain_count: chip_count, chips_per_domain: 1, domain_config }
    }
}

} // verus!
