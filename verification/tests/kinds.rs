//! Interaction kinds, argument indices, and interaction-collection
//! determinism.

use sp1_core::chip::Chip;
use sp1_core::field::Felt;
use sp1_core::interaction::Interaction;
use sp1_core::interaction::InteractionKind;
use sp1_core::lookup_air::LookupAir;
use sp1_core::virtual_column::VirtualPairCol;

fn felt(x: u32) -> Felt {
    Felt::from_u32(x)
}

fn toy_air() -> LookupAir {
    let send = Interaction {
        values: vec![VirtualPairCol::constant(felt(3)), VirtualPairCol::constant(felt(5))],
        multiplicity: VirtualPairCol::single_main(0),
        kind: InteractionKind::Memory,
    };
    let recv = Interaction {
        values: vec![VirtualPairCol::constant(felt(9))],
        multiplicity: VirtualPairCol::single_main(0),
        kind: InteractionKind::Byte,
    };
    LookupAir { width: 1, constraints: vec![], sends: vec![send], receives: vec![recv] }
}

#[test]
fn argument_index_is_stable() {
    let a = Interaction {
        values: vec![],
        multiplicity: VirtualPairCol::constant(felt(1)),
        kind: InteractionKind::Memory,
    };
    assert_eq!(a.argument_index(), 1);
    let b = Interaction {
        values: vec![],
        multiplicity: VirtualPairCol::constant(felt(1)),
        kind: InteractionKind::Field,
    };
    assert_eq!(b.argument_index(), 7);
    // Deterministic: the same kind always maps to the same index.
    assert_eq!(a.argument_index(), a.argument_index());
}

#[test]
fn argument_index_is_injective() {
    let kinds = InteractionKind::all_kinds();
    let mut seen: Vec<usize> = Vec::new();
    for k in kinds {
        let itx = Interaction {
            values: vec![],
            multiplicity: VirtualPairCol::constant(felt(1)),
            kind: k,
        };
        let idx = itx.argument_index();
        assert!(!seen.contains(&idx));
        seen.push(idx);
    }
    assert_eq!(seen, vec![1, 2, 3, 4, 5, 6, 7]);
}

#[test]
fn all_kinds_lists_every_kind_once() {
    let kinds = InteractionKind::all_kinds();
    assert_eq!(kinds.len(), 7);
    assert_eq!(kinds[0], InteractionKind::Memory);
    assert_eq!(kinds[1], InteractionKind::Program);
    assert_eq!(kinds[2], InteractionKind::Instruction);
    assert_eq!(kinds[3], InteractionKind::Alu);
    assert_eq!(kinds[4], InteractionKind::Byte);
    assert_eq!(kinds[5], InteractionKind::Range);
    assert_eq!(kinds[6], InteractionKind::Field);
}

#[test]
fn kind_names() {
    assert_eq!(InteractionKind::Memory.name(), "Memory");
    assert_eq!(InteractionKind::Program.name(), "Program");
    assert_eq!(InteractionKind::Instruction.name(), "Instruction");
    assert_eq!(InteractionKind::Alu.name(), "Alu");
    assert_eq!(InteractionKind::Byte.name(), "Byte");
    assert_eq!(InteractionKind::Range.name(), "Range");
    assert_eq!(InteractionKind::Field.name(), "Field");
}

#[test]
fn interaction_builder_is_deterministic() {
    // Two collection passes over AIRs with identical declarations harvest
    // identical send and receive lists.
    let chip1 = Chip::new(toy_air());
    let chip2 = Chip::new(toy_air());
    assert_eq!(chip1.sends(), chip2.sends());
    assert_eq!(chip1.receives(), chip2.receives());
    assert_eq!(chip1.sends().len(), 1);
    assert_eq!(chip1.receives().len(), 1);
    assert_eq!(chip1.sends()[0].kind, InteractionKind::Memory);
    assert_eq!(chip1.receives()[0].kind, InteractionKind::Byte);
}

#[test]
fn chip_metadata() {
    let chip = Chip::new(toy_air());
    assert_eq!(chip.log_quotient_degree(), 1);
    assert_eq!(chip.width(), 1);
}
