# ospi

A driver for the OCTOSPI peripheral of STM32 microcontrollers, verified with Verus.

The driver does not touch the hardware. Each of its operations hands out a sequence of steps;
whoever owns the hardware performs the actions of the sequence one by one and hands the answers
back. What every operation asks for, in which order and with which outcome, is stated in its
contract and proved, and so is what a whole operation does to the registers.

- `src/enums.rs`, `src/config.rs`: settings and their codes
- `src/bits.rs`, `src/pac.rs`, `src/edit.rs`: register fields and changes to registers
- `src/step.rs`, `src/sequence.rs`: steps, and sequences that perform them
- `src/plan.rs`, `src/ospi.rs`: the steps of every operation, and the driver
- `src/model.rs`, `src/laws.rs`: what sequences and operations achieve
- `app/`: the driver on real hardware

The register fields come from `stm32-metapac`, built for the chip that `Cargo.toml` names.
