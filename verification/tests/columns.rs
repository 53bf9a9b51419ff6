//! Virtual column evaluation under both algebras, and the zero-copy views.

use sp1_core::extension::ExtFelt;
use sp1_core::field::Felt;
use sp1_core::interaction::Interaction;
use sp1_core::interaction::InteractionKind;
use sp1_core::interaction::InteractionView;
use sp1_core::interaction::LogupInteraction;
use sp1_core::virtual_column::PairCol;
use sp1_core::virtual_column::VirtualColumn;
use sp1_core::virtual_column::VirtualPairCol;
use sp1_core::virtual_column::VirtualPairColView;

fn felt(x: u32) -> Felt {
    Felt::from_u32(x)
}

#[test]
fn apply_is_the_affine_combination() {
    // 2 * Main[0] + 7 * Preprocessed[1] + 11 on concrete rows.
    let col = VirtualPairCol::new(
        vec![(PairCol::Main(0), felt(2)), (PairCol::Preprocessed(1), felt(7))],
        felt(11),
    );
    let preprocessed = vec![felt(100), felt(3)];
    let main = vec![felt(5)];
    let got = col.apply(&preprocessed, &main);
    assert_eq!(got.value, 11 + 5 * 2 + 3 * 7);
}

#[test]
fn apply_ext_agrees_with_apply_on_embedded_rows() {
    // The same affine combination evaluated over the extension field on the
    // embedded rows gives the embedded result: the evaluation is a ring
    // homomorphism on these inputs.
    let col = VirtualPairCol::new(
        vec![(PairCol::Main(0), felt(2)), (PairCol::Main(1), felt(7))],
        felt(11),
    );
    let main = vec![felt(5), felt(3)];
    let base = col.apply(&vec![], &main);
    let main_ext: Vec<ExtFelt> = main.iter().map(|x| ExtFelt::from_base(*x)).collect();
    let ext = col.apply_ext(&vec![], &main_ext);
    assert_eq!(ext, ExtFelt::from_base(base));
}

#[test]
fn constant_and_single_main_columns() {
    let c = VirtualPairCol::constant(felt(9));
    assert_eq!(c.apply(&vec![], &vec![]).value, 9);
    let s = VirtualPairCol::single_main(1);
    let main = vec![felt(4), felt(6)];
    assert_eq!(s.apply(&vec![], &main).value, 6);
}

#[test]
fn view_evaluates_like_its_owner() {
    let col = VirtualPairCol::new(vec![(PairCol::Main(0), felt(3))], felt(1));
    let view = VirtualPairColView::from(&col);
    let main = vec![felt(10)];
    assert_eq!(col.apply(&vec![], &main), view.apply(&vec![], &main));
}

#[test]
fn interaction_view_reconstructs_the_owner_semantics() {
    let itx = Interaction::new(
        vec![VirtualPairCol::constant(felt(3))],
        VirtualPairCol::single_main(0),
        InteractionKind::Range,
    );
    let view = InteractionView::from(&itx);
    assert_eq!(view.argument_index(), itx.argument_index());
    assert_eq!(view.argument_index(), 6);
    assert_eq!(view.kind, InteractionKind::Range);
    // The shared read trait reports the same data for both representations.
    assert_eq!(
        LogupInteraction::kind(&itx),
        LogupInteraction::kind(&view)
    );
    assert_eq!(LogupInteraction::values(&itx).len(), 1);
    assert_eq!(LogupInteraction::values(&view).len(), 1);
    let main = vec![felt(8)];
    assert_eq!(
        LogupInteraction::multiplicity(&itx).apply(&vec![], &main).value,
        LogupInteraction::multiplicity(&view).apply(&vec![], &main).value,
    );
}
