//! The instances of the peripheral and the chips that they are part of.

use vstd::prelude::*;

verus! {

/// The clock gate of the I/O manager, which differs between the chip families.
#[derive(Clone, Copy, PartialEq, Eq, Structural, Debug)]
pub enum ManagerClock {
    /// OCTOSPIMSMEN in RCC_AHB2SMENR (STM32L4+), which counts in sleep mode only
    Ahb2Sleep,
    /// OCTOSPIMEN in RCC_AHB2ENR1 (STM32U5 with an I/O manager)
    Ahb2,
    /// IOMNGREN in RCC_AHB3ENR (every other chip with an I/O manager)
    Ahb3,
}

/// What the driver has to know of a chip.
#[derive(Clone, Copy, PartialEq, Eq, Debug)]
pub struct ChipFeatures {
    /// The clock gate of the I/O manager, on chips that have one
    pub manager: Option<ManagerClock>,
    /// Whether DCR3 has the MAXTRAN field
    pub max_transfer: bool,
}

/// A chip family.
pub trait Chip: Sized {
    /// The features of the chip.
    spec fn features_spec() -> ChipFeatures;

    /// The features of the chip.
    fn features() -> (features: ChipFeatures)
        ensures
            features == Self::features_spec(),
    ;
}

/// STM32L4+
#[derive(Clone, Copy, Debug)]
pub struct Stm32l4;

/// STM32U5 with an I/O manager: all but STM32U535 and STM32U545
#[derive(Clone, Copy, Debug)]
pub struct Stm32u5;

/// STM32U535 and STM32U545: no I/O manager
#[derive(Clone, Copy, Debug)]
pub struct Stm32u535;

/// STM32H7
#[derive(Clone, Copy, Debug)]
pub struct Stm32h7;

/// STM32L5 and STM32H5: no I/O manager and no MAXTRAN field
#[derive(Clone, Copy, Debug)]
pub struct Stm32l5h5;

impl Chip for Stm32l4 {
    open spec fn features_spec() -> ChipFeatures {
        ChipFeatures { manager: Some(ManagerClock::Ahb2Sleep), max_transfer: true }
    }

    fn features() -> (features: ChipFeatures) {
        ChipFeatures { manager: Some(ManagerClock::Ahb2Sleep), max_transfer: true }
    }
}

impl Chip for Stm32u5 {
    open spec fn features_spec() -> ChipFeatures {
        ChipFeatures { manager: Some(ManagerClock::Ahb2), max_transfer: true }
    }

    fn features() -> (features: ChipFeatures) {
        ChipFeatures { manager: Some(ManagerClock::Ahb2), max_transfer: true }
    }
}

impl Chip for Stm32u535 {
    open spec fn features_spec() -> ChipFeatures {
        ChipFeatures { manager: None, max_transfer: true }
    }

    fn features() -> (features: ChipFeatures) {
        ChipFeatures { manager: None, max_transfer: true }
    }
}

impl Chip for Stm32h7 {
    open spec fn features_spec() -> ChipFeatures {
        ChipFeatures { manager: Some(ManagerClock::Ahb3), max_transfer: true }
    }

    fn features() -> (features: ChipFeatures) {
        ChipFeatures { manager: Some(ManagerClock::Ahb3), max_transfer: true }
    }
}

impl Chip for Stm32l5h5 {
    open spec fn features_spec() -> ChipFeatures {
        ChipFeatures { manager: None, max_transfer: false }
    }

    fn features() -> (features: ChipFeatures) {
        ChipFeatures { manager: None, max_transfer: false }
    }
}

/// OSPI instance trait.
pub trait Instance: Sized {
    /// The number of the instance, counted from 1.
    spec fn index_spec() -> u8;

    /// The features of the chip that the instance is part of.
    spec fn chip_spec() -> ChipFeatures;

    /// The number of the instance, counted from 1.
    fn index() -> (index: u8)
        ensures
            index == Self::index_spec(),
    ;

    /// The features of the chip that the instance is part of.
    fn chip() -> (features: ChipFeatures)
        ensures
            features == Self::chip_spec(),
    ;
}

/// The first OCTOSPI of a chip.
pub struct Octospi1<C> {
    /// The chip
    pub chip: C,
}

/// The second OCTOSPI of a chip.
pub struct Octospi2<C> {
    /// The chip
    pub chip: C,
}

impl<C: Chip> Instance for Octospi1<C> {
    open spec fn index_spec() -> u8 {
        1
    }

    open spec fn chip_spec() -> ChipFeatures {
        C::features_spec()
    }

    fn index() -> (index: u8) {
        1
    }

    fn chip() -> (features: ChipFeatures) {
        C::features()
    }
}

impl<C: Chip> Instance for Octospi2<C> {
    open spec fn index_spec() -> u8 {
        2
    }

    open spec fn chip_spec() -> ChipFeatures {
        C::features_spec()
    }

    fn index() -> (index: u8) {
        2
    }

    fn chip() -> (features: ChipFeatures) {
        C::features()
    }
}

/// Every chip but STM32L5 and STM32H5 has the MAXTRAN field, and every chip but these and STM32U535
/// and STM32U545 has an I/O manager, with a clock enable bit of its own.
pub proof fn law_chips_differ_in_these_features()
    ensures
        Stm32l4::features_spec().max_transfer,
        Stm32u5::features_spec().max_transfer,
        Stm32u535::features_spec().max_transfer,
        Stm32h7::features_spec().max_transfer,
        !Stm32l5h5::features_spec().max_transfer,
        Stm32l4::features_spec().manager == Some(ManagerClock::Ahb2Sleep),
        Stm32u5::features_spec().manager == Some(ManagerClock::Ahb2),
        Stm32h7::features_spec().manager == Some(ManagerClock::Ahb3),
        Stm32u535::features_spec().manager is None,
        Stm32l5h5::features_spec().manager is None,
{
}

/// The instances of a chip are told apart by their numbers and share the features of the chip.
pub proof fn law_instances_share_their_chip<C: Chip>()
    ensures
        Octospi1::<C>::index_spec() == 1,
        Octospi2::<C>::index_spec() == 2,
        Octospi1::<C>::chip_spec() == C::features_spec(),
        Octospi2::<C>::chip_spec() == C::features_spec(),
{
}

} // verus!
