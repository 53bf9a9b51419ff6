//! The logup permutation engine.
//!
//! It proves that the multiset of `(kind, values)` tuples sent across every
//! chip, weighted by multiplicity, equals the multiset received, for every
//! kind independently. A verifier-supplied extension-field challenge pair
//! `(beta, alpha)` fingerprints each interaction as a random linear
//! combination of its values plus a kind-dependent offset; every active
//! interaction contributes the signed reciprocal `multiplicity / (beta -
//! fingerprint)` to a running sum stored as extra trace columns. The final
//! accumulated value across all chips must be exactly zero.
//!
//! A fingerprint equal to `beta` makes the denominator zero; that is a
//! statistical soundness failure, surfaced as a distinct error and never
//! silently skipped.

use vstd::prelude::*;

use crate::builder::debug_frame;
use crate::builder::fold_frame;
use crate::builder::ConstraintBuilder;
use crate::builder::ConstraintFolder;
use crate::builder::ConstraintViolation;
use crate::builder::DebugConstraintBuilder;
use crate::extension::ext_add_spec;
use crate::extension::ext_mul_spec;
use crate::extension::ext_pow_iter;
use crate::extension::ext_sub_spec;
use crate::extension::ExtFelt;
use crate::extension::EXT_INVERSE_EXP;
use crate::field::Felt;
use crate::interaction::kind_index;
use crate::interaction::Interaction;
use crate::matrix::RowMajorMatrix;
use crate::trace::rows_to_matrix;
use crate::virtual_column::eval_virtual_col;
use crate::virtual_column::eval_virtual_col_ext;
use crate::virtual_column::row_wf;
use crate::virtual_column::PairCol;
use crate::virtual_column::VirtualColumn;
use crate::virtual_column::VirtualPairCol;

verus! {

/// Number of random extension-field challenge elements the engine consumes:
/// the denominator shift `beta` and the fingerprint coefficient `alpha`.
pub const NUM_PERM_CHALLENGES: usize = 2;

/// A statistical soundness failure: on some row, an interaction's fingerprint
/// collided with the challenge `beta`, so the reciprocal does not exist. The
/// caller must re-sample challenges; this is distinct from an ordinary
/// constraint violation.
#[derive(Clone, Copy, Debug, PartialEq, Eq, Structural)]
pub enum LogupError {
    ChallengeCollision { row: usize, interaction: usize },
}

/// A base-field row seen through the canonical embedding.
pub open spec fn embed_row(row: Seq<Felt>) -> Seq<ExtFelt> {
    row.map_values(|x: Felt| ExtFelt::spec_from_base(x))
}

/// Fingerprint accumulation over the value columns: each value is weighted by
/// the next power of `alpha`.
pub open spec fn fingerprint_iter(
    values: Seq<VirtualPairCol>,
    preprocessed: Seq<ExtFelt>,
    main: Seq<ExtFelt>,
    alpha: ExtFelt,
    apow: ExtFelt,
    acc: ExtFelt,
) -> ExtFelt
    decreases values.len(),
{
    if values.len() == 0 {
        acc
    } else {
        fingerprint_iter(
            values.skip(1),
            preprocessed,
            main,
            alpha,
            ext_mul_spec(apow, alpha),
            ext_add_spec(
                acc,
                ext_mul_spec(
                    apow,
                    eval_virtual_col_ext(
                        values[0].column_weights@,
                        values[0].constant,
                        preprocessed,
                        main,
                    ),
                ),
            ),
        )
    }
}

/// The fingerprint of an interaction on a row: the kind-dependent offset plus
/// the `alpha`-weighted linear combination of its values.
pub open spec fn spec_fingerprint(
    itx: Interaction,
    preprocessed: Seq<ExtFelt>,
    main: Seq<ExtFelt>,
    alpha: ExtFelt,
) -> ExtFelt {
    fingerprint_iter(
        itx.values@,
        preprocessed,
        main,
        alpha,
        alpha,
        ExtFelt::spec_from_base(Felt { value: kind_index(itx.kind) as u64 }),
    )
}

/// The exponentiation candidate for the inverse of `x`.
pub open spec fn spec_inverse_candidate(x: ExtFelt) -> ExtFelt {
    ext_pow_iter(ExtFelt::spec_one(), x, EXT_INVERSE_EXP as nat)
}

/// Whether the candidate inverse of `x` passes the product check.
pub open spec fn spec_invertible(x: ExtFelt) -> bool {
    ext_mul_spec(spec_inverse_candidate(x), x) == ExtFelt::spec_one()
}

/// The signed reciprocal contribution of one interaction on one row: zero for
/// an inactive interaction (multiplicity zero), `multiplicity / (beta -
/// fingerprint)` for an active one, and `None` on a fingerprint collision.
pub open spec fn spec_term(
    itx: Interaction,
    preprocessed: Seq<Felt>,
    main: Seq<Felt>,
    alpha: ExtFelt,
    beta: ExtFelt,
) -> Option<ExtFelt> {
    let m = eval_virtual_col(
        itx.multiplicity.column_weights@,
        itx.multiplicity.constant,
        preprocessed,
        main,
    );
    if m == Felt::spec_zero() {
        Some(ExtFelt::spec_zero())
    } else {
        let fp = spec_fingerprint(itx, embed_row(preprocessed), embed_row(main), alpha);
        let denom = ext_sub_spec(beta, fp);
        if spec_invertible(denom) {
            Some(ext_mul_spec(ExtFelt::spec_from_base(m), spec_inverse_candidate(denom)))
        } else {
            None
        }
    }
}

/// The contributions of a list of interactions on one row, or `None` if any
/// fingerprint collides.
pub open spec fn spec_terms(
    interactions: Seq<Interaction>,
    preprocessed: Seq<Felt>,
    main: Seq<Felt>,
    alpha: ExtFelt,
    beta: ExtFelt,
) -> Option<Seq<ExtFelt>>
    decreases interactions.len(),
{
    if interactions.len() == 0 {
        Some(Seq::empty())
    } else {
        match spec_term(interactions[0], preprocessed, main, alpha, beta) {
            Some(t) => match spec_terms(interactions.skip(1), preprocessed, main, alpha, beta) {
                Some(rest) => Some(seq![t] + rest),
                None => None,
            },
            None => None,
        }
    }
}

/// The signed row delta accumulated left to right: the first `n_sends` terms
/// are added, the rest subtracted.
pub open spec fn delta_iter(terms: Seq<ExtFelt>, n_sends: int, j: int, acc: ExtFelt) -> ExtFelt
    decreases terms.len() - j
        when 0 <= j <= terms.len()
{
    if j >= terms.len() {
        acc
    } else {
        delta_iter(
            terms,
            n_sends,
            j + 1,
            if j < n_sends {
                ext_add_spec(acc, terms[j])
            } else {
                ext_sub_spec(acc, terms[j])
            },
        )
    }
}

/// The signed contribution of one row: sends minus receives.
pub open spec fn spec_row_delta(terms: Seq<ExtFelt>, n_sends: int) -> ExtFelt {
    delta_iter(terms, n_sends, 0, ExtFelt::spec_zero())
}

/// The signed contribution of row `i`, taken as zero where a collision makes
/// it undefined.
pub open spec fn spec_row_delta_at(
    sends: Seq<Interaction>,
    receives: Seq<Interaction>,
    pre_rows: Seq<Seq<Felt>>,
    main_rows: Seq<Seq<Felt>>,
    alpha: ExtFelt,
    beta: ExtFelt,
    i: int,
) -> ExtFelt {
    match spec_terms(sends + receives, pre_rows[i], main_rows[i], alpha, beta) {
        Some(ts) => spec_row_delta(ts, sends.len() as int),
        None => ExtFelt::spec_zero(),
    }
}

/// The running sum through row `i`: the prefix sum of the signed row deltas,
/// zero before the first row.
pub open spec fn spec_running_sum(
    sends: Seq<Interaction>,
    receives: Seq<Interaction>,
    pre_rows: Seq<Seq<Felt>>,
    main_rows: Seq<Seq<Felt>>,
    alpha: ExtFelt,
    beta: ExtFelt,
    i: int,
) -> ExtFelt
    decreases i + 1
        when i >= -1
{
    if i < 0 {
        ExtFelt::spec_zero()
    } else {
        ext_add_spec(
            spec_running_sum(sends, receives, pre_rows, main_rows, alpha, beta, i - 1),
            spec_row_delta_at(sends, receives, pre_rows, main_rows, alpha, beta, i),
        )
    }
}

/// Row `i` of the permutation trace: one column per interaction, then the
/// running sum.
pub open spec fn spec_perm_row(
    sends: Seq<Interaction>,
    receives: Seq<Interaction>,
    pre_rows: Seq<Seq<Felt>>,
    main_rows: Seq<Seq<Felt>>,
    alpha: ExtFelt,
    beta: ExtFelt,
    i: int,
) -> Seq<ExtFelt> {
    (match spec_terms(sends + receives, pre_rows[i], main_rows[i], alpha, beta) {
        Some(ts) => ts,
        None => Seq::empty(),
    }).push(spec_running_sum(sends, receives, pre_rows, main_rows, alpha, beta, i))
}

/// The preprocessed rows a matrix option supplies: empty rows where there is
/// no preprocessed trace.
pub open spec fn spec_pre_rows(preprocessed: Option<RowMajorMatrix<Felt>>, height: int) -> Seq<
    Seq<Felt>,
> {
    match preprocessed {
        Some(p) => Seq::new(height as nat, |i: int| p.spec_row(i)),
        None => Seq::new(height as nat, |i: int| Seq::empty()),
    }
}

/// The main rows of a matrix.
pub open spec fn spec_main_rows(main: RowMajorMatrix<Felt>, height: int) -> Seq<Seq<Felt>> {
    Seq::new(height as nat, |i: int| main.spec_row(i))
}

/// Every row of the sequence is canonical of the given width.
pub open spec fn rows_all_wf(rows: Seq<Seq<Felt>>, width: int) -> bool {
    forall|i: int| 0 <= i < rows.len() ==> row_wf(#[trigger] rows[i], width)
}

/// Every interaction of the list stays inside rows of the given widths.
pub open spec fn interactions_wf(
    interactions: Seq<Interaction>,
    preprocessed_width: int,
    main_width: int,
) -> bool {
    forall|i: int|
        0 <= i < interactions.len() ==> (#[trigger] interactions[i]).wf(
            preprocessed_width,
            main_width,
        )
}

/// Embed a base-field row into the extension field.
fn embed_row_exec(row: &Vec<Felt>) -> (r: Vec<ExtFelt>)
    requires
        row_wf(row@, row@.len() as int),
    ensures
        r@ == embed_row(row@),
        forall|i: int| 0 <= i < r@.len() ==> (#[trigger] r@[i]).wf(),
        r@.len() == row@.len(),
{
    let mut out: Vec<ExtFelt> = Vec::new();
    let mut i: usize = 0;
    while i < row.len()
        invariant
            i <= row.len(),
            row_wf(row@, row@.len() as int),
            out@ =~= embed_row(row@.take(i as int)),
            forall|k: int| 0 <= k < out@.len() ==> (#[trigger] out@[k]).wf(),
        decreases row.len() - i,
    {
        out.push(ExtFelt::from_base(row[i]));
        proof {
            assert(row@.take(i as int + 1) =~= row@.take(i as int).push(row@[i as int]));
            assert(embed_row(row@.take(i as int + 1)) =~= embed_row(row@.take(i as int)).push(
                ExtFelt::spec_from_base(row@[i as int]),
            ));
        }
        i = i + 1;
    }
    proof {
        assert(row@.take(row@.len() as int) =~= row@);
    }
    out
}

/// Compute the fingerprint of an interaction over embedded rows.
fn fingerprint(
    itx: &Interaction,
    preprocessed: &Vec<ExtFelt>,
    main: &Vec<ExtFelt>,
    alpha: ExtFelt,
) -> (r: ExtFelt)
    requires
        itx.wf(preprocessed@.len() as int, main@.len() as int),
        forall|i: int| 0 <= i < preprocessed@.len() ==> (#[trigger] preprocessed@[i]).wf(),
        forall|i: int| 0 <= i < main@.len() ==> (#[trigger] main@[i]).wf(),
        alpha.wf(),
    ensures
        r == spec_fingerprint(*itx, preprocessed@, main@, alpha),
        r.wf(),
{
    let idx = itx.argument_index();
    let mut acc = ExtFelt::from_base(Felt { value: idx as u64 });
    let mut apow = alpha;
    let mut i: usize = 0;
    proof {
        assert(itx.values@.skip(0) =~= itx.values@);
        assert((idx as u64) < crate::field::FIELD_PRIME);
    }
    while i < itx.values.len()
        invariant
            i <= itx.values@.len(),
            itx.wf(preprocessed@.len() as int, main@.len() as int),
            forall|k: int| 0 <= k < preprocessed@.len() ==> (#[trigger] preprocessed@[k]).wf(),
            forall|k: int| 0 <= k < main@.len() ==> (#[trigger] main@[k]).wf(),
            alpha.wf(),
            acc.wf(),
            apow.wf(),
            fingerprint_iter(itx.values@.skip(i as int), preprocessed@, main@, alpha, apow, acc)
                == spec_fingerprint(*itx, preprocessed@, main@, alpha),
        decreases itx.values@.len() - i,
    {
        let v = itx.values[i].apply_ext(preprocessed, main);
        proof {
            assert(itx.values@.skip(i as int)[0] == itx.values@[i as int]);
            assert(itx.values@.skip(i as int).skip(1) =~= itx.values@.skip(i as int + 1));
        }
        acc = acc.add(apow.mul(v));
        apow = apow.mul(alpha);
        i = i + 1;
    }
    proof {
        assert(itx.values@.skip(itx.values@.len() as int) =~= Seq::<VirtualPairCol>::empty());
    }
    acc
}

/// Compute the signed reciprocal contribution of one interaction on one row.
fn interaction_term(
    itx: &Interaction,
    pre_row: &Vec<Felt>,
    main_row: &Vec<Felt>,
    pre_ext: &Vec<ExtFelt>,
    main_ext: &Vec<ExtFelt>,
    alpha: ExtFelt,
    beta: ExtFelt,
) -> (r: Option<ExtFelt>)
    requires
        itx.wf(pre_row@.len() as int, main_row@.len() as int),
        row_wf(pre_row@, pre_row@.len() as int),
        row_wf(main_row@, main_row@.len() as int),
        pre_ext@ == embed_row(pre_row@),
        main_ext@ == embed_row(main_row@),
        alpha.wf(),
        beta.wf(),
    ensures
        r == spec_term(*itx, pre_row@, main_row@, alpha, beta),
        r matches Some(t) ==> t.wf(),
{
    let m = itx.multiplicity.apply(pre_row, main_row);
    if m.is_zero() {
        Some(ExtFelt::zero())
    } else {
        proof {
            assert(forall|k: int|
                0 <= k < pre_ext@.len() ==> (#[trigger] pre_ext@[k])
                    == ExtFelt::spec_from_base(pre_row@[k]));
            assert(forall|k: int|
                0 <= k < main_ext@.len() ==> (#[trigger] main_ext@[k])
                    == ExtFelt::spec_from_base(main_row@[k]));
        }
        let fp = fingerprint(itx, pre_ext, main_ext, alpha);
        let denom = beta.sub(fp);
        match denom.inverse() {
            Some(inv) => Some(ExtFelt::from_base(m).mul(inv)),
            None => None,
        }
    }
}

/// `spec_terms` of one more interaction extends the term list.
proof fn lemma_terms_push(
    interactions: Seq<Interaction>,
    itx: Interaction,
    preprocessed: Seq<Felt>,
    main: Seq<Felt>,
    alpha: ExtFelt,
    beta: ExtFelt,
)
    ensures
        spec_terms(interactions.push(itx), preprocessed, main, alpha, beta) == (match (
            spec_terms(interactions, preprocessed, main, alpha, beta),
            spec_term(itx, preprocessed, main, alpha, beta),
        ) {
            (Some(ts), Some(t)) => Some(ts.push(t)),
            _ => None::<Seq<ExtFelt>>,
        }),
    decreases interactions.len(),
{
    if interactions.len() == 0 {
        assert(interactions.push(itx)[0] == itx);
        assert(interactions.push(itx).skip(1) =~= Seq::<Interaction>::empty());
        assert(spec_terms(Seq::<Interaction>::empty(), preprocessed, main, alpha, beta) == Some(
            Seq::<ExtFelt>::empty(),
        ));
        match spec_term(itx, preprocessed, main, alpha, beta) {
            Some(t) => {
                assert(seq![t] + Seq::<ExtFelt>::empty() =~= Seq::<ExtFelt>::empty().push(t));
            },
            None => {
            },
        }
    } else {
        assert(interactions.push(itx)[0] == interactions[0]);
        assert(interactions.push(itx).skip(1) =~= interactions.skip(1).push(itx));
        lemma_terms_push(interactions.skip(1), itx, preprocessed, main, alpha, beta);
        match (
            spec_terms(interactions, preprocessed, main, alpha, beta),
            spec_term(itx, preprocessed, main, alpha, beta),
        ) {
            (Some(ts), Some(t)) => {
                let t0 = spec_term(interactions[0], preprocessed, main, alpha, beta)->Some_0;
                let rest = spec_terms(interactions.skip(1), preprocessed, main, alpha, beta)
                    ->Some_0;
                assert(seq![t0] + rest.push(t) =~= (seq![t0] + rest).push(t));
            },
            _ => {
            },
        }
    }
}

/// A term list has one entry per interaction.
proof fn lemma_terms_len(
    interactions: Seq<Interaction>,
    preprocessed: Seq<Felt>,
    main: Seq<Felt>,
    alpha: ExtFelt,
    beta: ExtFelt,
)
    requires
        spec_terms(interactions, preprocessed, main, alpha, beta) is Some,
    ensures
        spec_terms(interactions, preprocessed, main, alpha, beta)->Some_0.len()
            == interactions.len(),
    decreases interactions.len(),
{
    if interactions.len() == 0 {
    } else {
        lemma_terms_len(interactions.skip(1), preprocessed, main, alpha, beta);
    }
}

/// The contributions of every interaction (sends then receives) on one row,
/// or the index of the colliding interaction.
fn row_contributions(
    sends: &Vec<Interaction>,
    receives: &Vec<Interaction>,
    pre_row: &Vec<Felt>,
    main_row: &Vec<Felt>,
    alpha: ExtFelt,
    beta: ExtFelt,
) -> (r: Result<Vec<ExtFelt>, usize>)
    requires
        interactions_wf(sends@ + receives@, pre_row@.len() as int, main_row@.len() as int),
        row_wf(pre_row@, pre_row@.len() as int),
        row_wf(main_row@, main_row@.len() as int),
        alpha.wf(),
        beta.wf(),
        sends@.len() + receives@.len() + 1 <= usize::MAX,
    ensures
        match r {
            Ok(ts) => {
                &&& spec_terms(sends@ + receives@, pre_row@, main_row@, alpha, beta) == Some(ts@)
                &&& ts@.len() == sends@.len() + receives@.len()
                &&& forall|k: int| 0 <= k < ts@.len() ==> (#[trigger] ts@[k]).wf()
            },
            Err(j) => {
                &&& 0 <= (j as int) < sends@.len() + receives@.len()
                &&& spec_term(
                    (sends@ + receives@)[j as int],
                    pre_row@,
                    main_row@,
                    alpha,
                    beta,
                ) is None
            },
        },
{
    let ghost all = sends@ + receives@;
    let s_len = sends.len();
    let r_len = receives.len();
    let pre_ext = embed_row_exec(pre_row);
    let main_ext = embed_row_exec(main_row);
    let mut row_terms: Vec<ExtFelt> = Vec::new();
    let mut j: usize = 0;
    proof {
        assert(all.take(0) =~= Seq::<Interaction>::empty());
    }
    while j < s_len
        invariant
            j <= s_len,
            s_len == sends@.len(),
            r_len == receives@.len(),
            all == sends@ + receives@,
            pre_ext@ == embed_row(pre_row@),
            main_ext@ == embed_row(main_row@),
            row_wf(pre_row@, pre_row@.len() as int),
            row_wf(main_row@, main_row@.len() as int),
            interactions_wf(all, pre_row@.len() as int, main_row@.len() as int),
            alpha.wf(),
            beta.wf(),
            row_terms@.len() == j,
            forall|k: int| 0 <= k < row_terms@.len() ==> (#[trigger] row_terms@[k]).wf(),
            spec_terms(all.take(j as int), pre_row@, main_row@, alpha, beta) == Some(row_terms@),
        decreases s_len - j,
    {
        proof {
            assert(all[j as int] == sends@[j as int]);
            assert(all[j as int].wf(pre_row@.len() as int, main_row@.len() as int));
        }
        let t = interaction_term(&sends[j], pre_row, main_row, &pre_ext, &main_ext, alpha, beta);
        match t {
            Some(v) => {
                row_terms.push(v);
                proof {
                    assert(all.take(j as int + 1) =~= all.take(j as int).push(all[j as int]));
                    lemma_terms_push(
                        all.take(j as int),
                        all[j as int],
                        pre_row@,
                        main_row@,
                        alpha,
                        beta,
                    );
                }
            },
            None => {
                return Err(j);
            },
        }
        j = j + 1;
    }
    let mut j2: usize = 0;
    while j2 < r_len
        invariant
            j2 <= r_len,
            s_len == sends@.len(),
            r_len == receives@.len(),
            s_len + r_len + 1 <= usize::MAX,
            all == sends@ + receives@,
            pre_ext@ == embed_row(pre_row@),
            main_ext@ == embed_row(main_row@),
            row_wf(pre_row@, pre_row@.len() as int),
            row_wf(main_row@, main_row@.len() as int),
            interactions_wf(all, pre_row@.len() as int, main_row@.len() as int),
            alpha.wf(),
            beta.wf(),
            row_terms@.len() == s_len + j2,
            forall|k: int| 0 <= k < row_terms@.len() ==> (#[trigger] row_terms@[k]).wf(),
            spec_terms(all.take(s_len + j2 as int), pre_row@, main_row@, alpha, beta) == Some(
                row_terms@,
            ),
        decreases r_len - j2,
    {
        proof {
            assert(all[s_len + j2 as int] == receives@[j2 as int]);
            assert(all[s_len + j2 as int].wf(pre_row@.len() as int, main_row@.len() as int));
        }
        let t = interaction_term(
            &receives[j2],
            pre_row,
            main_row,
            &pre_ext,
            &main_ext,
            alpha,
            beta,
        );
        match t {
            Some(v) => {
                row_terms.push(v);
                proof {
                    assert(all.take(s_len + j2 as int + 1) =~= all.take(s_len + j2 as int).push(
                        all[s_len + j2 as int],
                    ));
                    lemma_terms_push(
                        all.take(s_len + j2 as int),
                        all[s_len + j2 as int],
                        pre_row@,
                        main_row@,
                        alpha,
                        beta,
                    );
                }
            },
            None => {
                return Err(s_len + j2);
            },
        }
        j2 = j2 + 1;
    }
    proof {
        assert(all.take((s_len + r_len) as int) =~= all);
    }
    Ok(row_terms)
}

/// The signed sum of one row's contributions: sends added, receives
/// subtracted.
fn signed_delta(terms: &Vec<ExtFelt>, n_sends: usize) -> (r: ExtFelt)
    requires
        forall|k: int| 0 <= k < terms@.len() ==> (#[trigger] terms@[k]).wf(),
    ensures
        r == spec_row_delta(terms@, n_sends as int),
        r.wf(),
{
    let mut delta = ExtFelt::zero();
    let mut j: usize = 0;
    while j < terms.len()
        invariant
            j <= terms@.len(),
            forall|k: int| 0 <= k < terms@.len() ==> (#[trigger] terms@[k]).wf(),
            delta.wf(),
            delta_iter(terms@, n_sends as int, j as int, delta) == spec_row_delta(
                terms@,
                n_sends as int,
            ),
        decreases terms@.len() - j,
    {
        if j < n_sends {
            delta = delta.add(terms[j]);
        } else {
            delta = delta.sub(terms[j]);
        }
        j = j + 1;
    }
    delta
}

/// Build the logup auxiliary trace: one column per interaction holding its
/// reciprocal contribution on that row, and a final column with the running
/// sum of the signed per-row deltas. Fails with a distinct soundness error on
/// a fingerprint collision.
#[verifier::rlimit(100)]
#[verifier::spinoff_prover]
pub fn generate_permutation_trace(
    sends: &Vec<Interaction>,
    receives: &Vec<Interaction>,
    preprocessed: &Option<RowMajorMatrix<Felt>>,
    main: &RowMajorMatrix<Felt>,
    random_elements: &Vec<ExtFelt>,
) -> (r: Result<RowMajorMatrix<ExtFelt>, LogupError>)
    requires
        main.wf(),
        rows_all_wf(spec_main_rows(*main, main.spec_height()), main.width as int),
        match *preprocessed {
            Some(p) => p.wf() && p.spec_height() == main.spec_height() && rows_all_wf(
                spec_pre_rows(*preprocessed, main.spec_height()),
                p.width as int,
            ) && interactions_wf(sends@ + receives@, p.width as int, main.width as int),
            None => interactions_wf(sends@ + receives@, 0, main.width as int),
        },
        random_elements@.len() == NUM_PERM_CHALLENGES,
        random_elements@[0].wf(),
        random_elements@[1].wf(),
        sends@.len() + receives@.len() + 1 <= usize::MAX,
    ensures
        ({
            let height = main.spec_height();
            let pre_rows = spec_pre_rows(*preprocessed, height);
            let main_rows = spec_main_rows(*main, height);
            let beta = random_elements@[0];
            let alpha = random_elements@[1];
            match r {
                Ok(perm) => {
                    &&& perm.wf()
                    &&& perm.width as int == sends@.len() + receives@.len() + 1
                    &&& perm.spec_height() == height
                    &&& forall|i: int|
                        0 <= i < height ==> spec_terms(
                            sends@ + receives@,
                            pre_rows[i],
                            #[trigger] main_rows[i],
                            alpha,
                            beta,
                        ) is Some
                    &&& forall|i: int|
                        0 <= i < height ==> #[trigger] perm.spec_row(i) == spec_perm_row(
                            sends@,
                            receives@,
                            pre_rows,
                            main_rows,
                            alpha,
                            beta,
                            i,
                        )
                },
                Err(e) => {
                    &&& e matches LogupError::ChallengeCollision { row, interaction }
                    &&& e matches LogupError::ChallengeCollision { row, interaction } ==> 0 <= (
                    row as int) < height && 0 <= (interaction as int) < sends@.len()
                        + receives@.len() && spec_term(
                        (sends@ + receives@)[interaction as int],
                        pre_rows[row as int],
                        main_rows[row as int],
                        alpha,
                        beta,
                    ) is None
                },
            }
        }),
{
    let beta = random_elements[0];
    let alpha = random_elements[1];
    let s_len = sends.len();
    let r_len = receives.len();
    let width = s_len + r_len + 1;
    let height = main.height();
    let ghost all = sends@ + receives@;
    let ghost pre_rows = spec_pre_rows(*preprocessed, main.spec_height());
    let ghost main_rows = spec_main_rows(*main, main.spec_height());
    let mut rows: Vec<Vec<ExtFelt>> = Vec::new();
    let mut phi = ExtFelt::zero();
    let mut i: usize = 0;
    while i < height
        invariant
            i <= height,
            height as int == main.spec_height(),
            s_len == sends@.len(),
            r_len == receives@.len(),
            s_len + r_len + 1 <= usize::MAX,
            width == s_len + r_len + 1,
            all == sends@ + receives@,
            pre_rows == spec_pre_rows(*preprocessed, main.spec_height()),
            main_rows == spec_main_rows(*main, main.spec_height()),
            beta == random_elements@[0],
            alpha == random_elements@[1],
            beta.wf(),
            alpha.wf(),
            main.wf(),
            rows_all_wf(main_rows, main.width as int),
            match *preprocessed {
                Some(p) => p.wf() && p.spec_height() == main.spec_height() && rows_all_wf(
                    pre_rows,
                    p.width as int,
                ) && interactions_wf(all, p.width as int, main.width as int),
                None => interactions_wf(all, 0, main.width as int),
            },
            phi == spec_running_sum(sends@, receives@, pre_rows, main_rows, alpha, beta, i as int
                - 1),
            phi.wf(),
            rows@.len() == i,
            forall|k: int|
                0 <= k < i ==> (#[trigger] rows@[k])@ == spec_perm_row(
                    sends@,
                    receives@,
                    pre_rows,
                    main_rows,
                    alpha,
                    beta,
                    k,
                ),
            forall|k: int|
                0 <= k < i ==> spec_terms(all, pre_rows[k], #[trigger] main_rows[k], alpha, beta)
                    is Some,
            forall|k: int| 0 <= k < i ==> (#[trigger] rows@[k])@.len() == width,
        decreases height - i,
    {
        let main_row = main.row(i);
        let pre_row: Vec<Felt> = match preprocessed {
            Some(p) => p.row(i),
            None => Vec::new(),
        };
        proof {
            assert(main_rows[i as int] == main.spec_row(i as int));
            assert(pre_row@ == pre_rows[i as int]);
            assert(row_wf(main_rows[i as int], main.width as int));
            if preprocessed is Some {
                assert(row_wf(pre_rows[i as int], preprocessed->Some_0.width as int));
            } else {
                assert(pre_rows[i as int] =~= Seq::<Felt>::empty());
            }
        }
        let contributions = row_contributions(sends, receives, &pre_row, &main_row, alpha, beta);
        let row_terms = match contributions {
            Ok(ts) => ts,
            Err(j) => {
                return Err(LogupError::ChallengeCollision { row: i, interaction: j });
            },
        };
        let delta = signed_delta(&row_terms, s_len);
        phi = phi.add(delta);
        let mut perm_row = row_terms;
        perm_row.push(phi);
        proof {
            assert(spec_row_delta_at(
                sends@,
                receives@,
                pre_rows,
                main_rows,
                alpha,
                beta,
                i as int,
            ) == delta);
            assert(phi == spec_running_sum(
                sends@,
                receives@,
                pre_rows,
                main_rows,
                alpha,
                beta,
                i as int,
            ));
            assert(perm_row@ == spec_perm_row(
                sends@,
                receives@,
                pre_rows,
                main_rows,
                alpha,
                beta,
                i as int,
            ));
        }
        rows.push(perm_row);
        i = i + 1;
    }
    let perm = rows_to_matrix(&rows, width);
    proof {
        assert forall|k: int| 0 <= k < main.spec_height() implies perm.spec_row(k)
            == spec_perm_row(sends@, receives@, pre_rows, main_rows, alpha, beta, k) by {
            assert(rows@[k]@ == spec_perm_row(sends@, receives@, pre_rows, main_rows, alpha, beta, k));
            assert(perm.spec_row(k) == rows@[k]@);
        }
    }
    Ok(perm)
}

/// The final accumulated value of one permutation trace: the running sum on
/// the last row.
pub open spec fn spec_cumulative(perm: RowMajorMatrix<ExtFelt>) -> ExtFelt {
    perm.spec_row(perm.spec_height() - 1)[perm.width as int - 1]
}

/// The sum of the chips' cumulative values, accumulated left to right.
pub open spec fn cumulative_sum_iter(
    traces: Seq<RowMajorMatrix<ExtFelt>>,
    j: int,
    acc: ExtFelt,
) -> ExtFelt
    decreases traces.len() - j
        when 0 <= j <= traces.len()
{
    if j >= traces.len() {
        acc
    } else {
        cumulative_sum_iter(traces, j + 1, ext_add_spec(acc, spec_cumulative(traces[j])))
    }
}

/// The single global soundness equation: the cumulative values of all chips
/// sum to exactly zero.
pub open spec fn spec_global_sum(traces: Seq<RowMajorMatrix<ExtFelt>>) -> ExtFelt {
    cumulative_sum_iter(traces, 0, ExtFelt::spec_zero())
}

/// Check the global multiset-equality equation over every chip's permutation
/// trace: the accumulated sums must cancel to zero.
pub fn check_cumulative_sums(traces: &Vec<RowMajorMatrix<ExtFelt>>) -> (r: bool)
    requires
        forall|k: int|
            0 <= k < traces@.len() ==> (#[trigger] traces@[k]).wf() && traces@[k].spec_height() > 0
                && spec_cumulative(traces@[k]).wf(),
    ensures
        r == (spec_global_sum(traces@) == ExtFelt::spec_zero()),
{
    let mut acc = ExtFelt::zero();
    let mut j: usize = 0;
    while j < traces.len()
        invariant
            j <= traces@.len(),
            forall|k: int|
                0 <= k < traces@.len() ==> (#[trigger] traces@[k]).wf() && traces@[k].spec_height()
                    > 0 && spec_cumulative(traces@[k]).wf(),
            acc.wf(),
            cumulative_sum_iter(traces@, j as int, acc) == spec_global_sum(traces@),
        decreases traces@.len() - j,
    {
        let t = &traces[j];
        let h = t.height();
        let c = t.get(h - 1, t.width - 1);
        proof {
            assert(c == spec_cumulative(traces@[j as int]));
        }
        acc = acc.add(c);
        j = j + 1;
    }
    acc.is_zero()
}

/// Every interaction of the list is inactive on the row: its multiplicity
/// evaluates to zero. Padding rows are made inert this way.
pub open spec fn row_inert(
    interactions: Seq<Interaction>,
    preprocessed: Seq<Felt>,
    main: Seq<Felt>,
) -> bool {
    forall|j: int|
        0 <= j < interactions.len() ==> eval_virtual_col(
            (#[trigger] interactions[j]).multiplicity.column_weights@,
            interactions[j].multiplicity.constant,
            preprocessed,
            main,
        ) == Felt::spec_zero()
}

/// On an inert row, every contribution is zero and no inversion is attempted.
proof fn lemma_terms_inert(
    interactions: Seq<Interaction>,
    preprocessed: Seq<Felt>,
    main: Seq<Felt>,
    alpha: ExtFelt,
    beta: ExtFelt,
)
    requires
        row_inert(interactions, preprocessed, main),
    ensures
        spec_terms(interactions, preprocessed, main, alpha, beta) == Some(
            Seq::new(interactions.len(), |k: int| ExtFelt::spec_zero()),
        ),
    decreases interactions.len(),
{
    if interactions.len() == 0 {
        assert(Seq::new(0, |k: int| ExtFelt::spec_zero()) =~= Seq::<ExtFelt>::empty());
    } else {
        assert(row_inert(interactions.skip(1), preprocessed, main)) by {
            assert(forall|j: int|
                0 <= j < interactions.skip(1).len() ==> interactions.skip(1)[j]
                    == interactions[j + 1]);
        }
        lemma_terms_inert(interactions.skip(1), preprocessed, main, alpha, beta);
        assert(spec_term(interactions[0], preprocessed, main, alpha, beta) == Some(
            ExtFelt::spec_zero(),
        ));
        assert(seq![ExtFelt::spec_zero()] + Seq::new(
            interactions.skip(1).len(),
            |k: int| ExtFelt::spec_zero(),
        ) =~= Seq::new(interactions.len(), |k: int| ExtFelt::spec_zero()));
    }
}

/// Adding zero to a canonical extension element changes nothing.
proof fn lemma_ext_add_zero(a: ExtFelt)
    requires
        a.wf(),
    ensures
        ext_add_spec(a, ExtFelt::spec_zero()) == a,
        ext_sub_spec(a, ExtFelt::spec_zero()) == a,
{
}

/// The result of an extension addition is always canonical.
proof fn lemma_ext_add_wf(a: ExtFelt, b: ExtFelt)
    ensures
        ext_add_spec(a, b).wf(),
{
}

/// The running sum is always a canonical extension element.
proof fn lemma_running_sum_wf(
    sends: Seq<Interaction>,
    receives: Seq<Interaction>,
    pre_rows: Seq<Seq<Felt>>,
    main_rows: Seq<Seq<Felt>>,
    alpha: ExtFelt,
    beta: ExtFelt,
    i: int,
)
    requires
        i >= -1,
    ensures
        spec_running_sum(sends, receives, pre_rows, main_rows, alpha, beta, i).wf(),
    decreases i + 1,
{
    if i < 0 {
    } else {
        lemma_running_sum_wf(sends, receives, pre_rows, main_rows, alpha, beta, i - 1);
        lemma_ext_add_wf(
            spec_running_sum(sends, receives, pre_rows, main_rows, alpha, beta, i - 1),
            spec_row_delta_at(sends, receives, pre_rows, main_rows, alpha, beta, i),
        );
    }
}

/// A signed fold over all-zero terms stays where it started.
proof fn lemma_delta_iter_zeros(terms: Seq<ExtFelt>, n_sends: int, j: int, acc: ExtFelt)
    requires
        0 <= j <= terms.len(),
        acc.wf(),
        forall|k: int| 0 <= k < terms.len() ==> terms[k] == ExtFelt::spec_zero(),
    ensures
        delta_iter(terms, n_sends, j, acc) == acc,
    decreases terms.len() - j,
{
    if j >= terms.len() {
    } else {
        lemma_ext_add_zero(acc);
        lemma_delta_iter_zeros(terms, n_sends, j + 1, acc);
    }
}

/// The running sum only reads the rows at or before its index.
proof fn lemma_running_sum_prefix(
    sends: Seq<Interaction>,
    receives: Seq<Interaction>,
    pre1: Seq<Seq<Felt>>,
    main1: Seq<Seq<Felt>>,
    pre2: Seq<Seq<Felt>>,
    main2: Seq<Seq<Felt>>,
    alpha: ExtFelt,
    beta: ExtFelt,
    i: int,
)
    requires
        i >= -1,
        forall|k: int| 0 <= k <= i ==> pre1[k] == pre2[k] && main1[k] == main2[k],
    ensures
        spec_running_sum(sends, receives, pre1, main1, alpha, beta, i) == spec_running_sum(
            sends,
            receives,
            pre2,
            main2,
            alpha,
            beta,
            i,
        ),
    decreases i + 1,
{
    if i < 0 {
    } else {
        lemma_running_sum_prefix(sends, receives, pre1, main1, pre2, main2, alpha, beta, i - 1);
    }
}


/// A multiplicity that only reads a flag cell evaluates to zero wherever the
/// flag is zero: rows padded with the real-row flag cleared are inert, so
/// padding never perturbs the running sum.
pub proof fn lemma_flag_gated_row_inert(
    interactions: Seq<Interaction>,
    preprocessed: Seq<Felt>,
    main: Seq<Felt>,
    col: int,
)
    requires
        0 <= col < main.len(),
        main[col] == Felt::spec_zero(),
        forall|j: int|
            0 <= j < interactions.len() ==> {
                let m = (#[trigger] interactions[j]).multiplicity;
                m.column_weights@.len() == 1 && m.column_weights@[0].0 is Main
                    && m.column_weights@[0].0->Main_0 == col && m.constant == Felt::spec_zero()
            },
    ensures
        row_inert(interactions, preprocessed, main),
{
    assert forall|j: int|
        0 <= j < interactions.len() implies eval_virtual_col(
        (#[trigger] interactions[j]).multiplicity.column_weights@,
        interactions[j].multiplicity.constant,
        preprocessed,
        main,
    ) == Felt::spec_zero() by {
        let m = interactions[j].multiplicity;
        let w = m.column_weights@;
        assert(w.skip(1) =~= Seq::<(PairCol, Felt)>::empty());
        assert(w[0].0.spec_get(preprocessed, main) == Felt::spec_zero());
        assert(crate::field::fmul(0, w[0].1.value as int) == 0) by (nonlinear_arith);
        assert(crate::field::fadd(0, 0) == 0);
        let acc1 = Felt {
            value: crate::field::fadd(
                m.constant.value as int,
                crate::field::fmul(
                    w[0].0.spec_get(preprocessed, main).value as int,
                    w[0].1.value as int,
                ),
            ) as u64,
        };
        assert(crate::virtual_column::eval_terms(
            Seq::<(PairCol, Felt)>::empty(),
            preprocessed,
            main,
            acc1,
        ) == acc1);
        assert(acc1 == Felt::spec_zero());
    }
}

/// Padding rows whose multiplicities are forced to zero never change the final
/// accumulated sum, however many are appended.
pub proof fn lemma_padding_preserves_sum(
    sends: Seq<Interaction>,
    receives: Seq<Interaction>,
    pre_rows: Seq<Seq<Felt>>,
    main_rows: Seq<Seq<Felt>>,
    pad_pre: Seq<Seq<Felt>>,
    pad_main: Seq<Seq<Felt>>,
    alpha: ExtFelt,
    beta: ExtFelt,
)
    requires
        pre_rows.len() == main_rows.len(),
        pad_pre.len() == pad_main.len(),
        forall|k: int|
            0 <= k < pad_main.len() ==> row_inert(sends + receives, #[trigger] pad_pre[k], pad_main[k]),
    ensures
        spec_running_sum(
            sends,
            receives,
            pre_rows + pad_pre,
            main_rows + pad_main,
            alpha,
            beta,
            main_rows.len() + pad_main.len() - 1,
        ) == spec_running_sum(sends, receives, pre_rows, main_rows, alpha, beta, main_rows.len() - 1),
    decreases pad_main.len(),
{
    if pad_main.len() == 0 {
        assert(pre_rows + pad_pre =~= pre_rows);
        assert(main_rows + pad_main =~= main_rows);
    } else {
        let p2 = pad_pre.drop_last();
        let m2 = pad_main.drop_last();
        assert(forall|k: int|
            0 <= k < m2.len() ==> row_inert(sends + receives, #[trigger] p2[k], m2[k])) by {
            assert(forall|k: int| 0 <= k < m2.len() ==> p2[k] == pad_pre[k] && m2[k] == pad_main[k]);
        }
        lemma_padding_preserves_sum(sends, receives, pre_rows, main_rows, p2, m2, alpha, beta);
        let ext_pre = pre_rows + pad_pre;
        let ext_main = main_rows + pad_main;
        let n = main_rows.len() + pad_main.len() - 1;
        // The last appended row is inert, so its delta is zero.
        assert(ext_pre[n] == pad_pre[pad_pre.len() - 1]);
        assert(ext_main[n] == pad_main[pad_main.len() - 1]);
        lemma_terms_inert(sends + receives, ext_pre[n], ext_main[n], alpha, beta);
        lemma_delta_iter_zeros(
            Seq::new((sends + receives).len(), |k: int| ExtFelt::spec_zero()),
            sends.len() as int,
            0,
            ExtFelt::spec_zero(),
        );
        assert(spec_row_delta_at(sends, receives, ext_pre, ext_main, alpha, beta, n)
            == ExtFelt::spec_zero());
        lemma_running_sum_wf(sends, receives, ext_pre, ext_main, alpha, beta, n - 1);
        lemma_ext_add_zero(spec_running_sum(sends, receives, ext_pre, ext_main, alpha, beta, n - 1));
        // Rows before the last agree with the shorter padding.
        lemma_running_sum_prefix(
            sends,
            receives,
            ext_pre,
            ext_main,
            pre_rows + p2,
            main_rows + m2,
            alpha,
            beta,
            n - 1,
        );
    }
}

/// The column constraint of one interaction: the stored reciprocal column
/// times its denominator must give back the multiplicity, so the value
/// `column * (beta - fingerprint) - multiplicity` must be zero.
pub open spec fn spec_perm_col_value(
    itx: Interaction,
    pre_ext: Seq<ExtFelt>,
    main_ext: Seq<ExtFelt>,
    col: ExtFelt,
    alpha: ExtFelt,
    beta: ExtFelt,
) -> ExtFelt {
    ext_sub_spec(
        ext_mul_spec(col, ext_sub_spec(beta, spec_fingerprint(itx, pre_ext, main_ext, alpha))),
        eval_virtual_col_ext(
            itx.multiplicity.column_weights@,
            itx.multiplicity.constant,
            pre_ext,
            main_ext,
        ),
    )
}

/// The first-row boundary value: the running sum must equal the signed sum of
/// this row's columns (the sum before the first row is zero).
pub open spec fn perm_boundary_first(perm_local: Seq<ExtFelt>, n: int, n_sends: int) -> ExtFelt {
    ext_sub_spec(perm_local[n], spec_row_delta(perm_local.take(n), n_sends))
}

/// The transition value: the next running sum must extend the local one by the
/// next row's signed columns.
pub open spec fn perm_boundary_transition(
    perm_local: Seq<ExtFelt>,
    perm_next: Seq<ExtFelt>,
    n: int,
    n_sends: int,
) -> ExtFelt {
    ext_sub_spec(
        ext_sub_spec(perm_next[n], perm_local[n]),
        spec_row_delta(perm_next.take(n), n_sends),
    )
}

/// The last-row boundary value: the running sum must equal the claimed
/// cumulative value.
pub open spec fn perm_boundary_last(
    perm_local: Seq<ExtFelt>,
    n: int,
    cumulative: ExtFelt,
) -> ExtFelt {
    ext_sub_spec(perm_local[n], cumulative)
}

/// Debug checking of the column constraints, accumulated over the violation
/// list: `j` is the current column, `idx` the current constraint identity.
pub open spec fn perm_debug_iter(
    interactions: Seq<Interaction>,
    pre_ext: Seq<ExtFelt>,
    main_ext: Seq<ExtFelt>,
    perm_local: Seq<ExtFelt>,
    j: int,
    alpha: ExtFelt,
    beta: ExtFelt,
    row: usize,
    idx: int,
    acc: Seq<ConstraintViolation>,
) -> Seq<ConstraintViolation>
    decreases interactions.len(),
{
    if interactions.len() == 0 {
        acc
    } else {
        perm_debug_iter(
            interactions.skip(1),
            pre_ext,
            main_ext,
            perm_local,
            j + 1,
            alpha,
            beta,
            row,
            idx + 1,
            if spec_perm_col_value(interactions[0], pre_ext, main_ext, perm_local[j], alpha, beta)
                == ExtFelt::spec_zero() {
                acc
            } else {
                acc.push(ConstraintViolation { row, constraint: idx as usize })
            },
        )
    }
}

/// The violation list after the debug semantics has checked every permutation
/// constraint of one row.
pub open spec fn perm_debug_final(
    sends: Seq<Interaction>,
    receives: Seq<Interaction>,
    a: DebugConstraintBuilder,
) -> Seq<ConstraintViolation> {
    let pre_ext = embed_row(a.preprocessed@);
    let main_ext = embed_row(a.main@);
    let beta = a.perm_challenges@[0];
    let alpha = a.perm_challenges@[1];
    let n = sends.len() + receives.len();
    let base = a.constraint_index as int;
    let v0 = perm_debug_iter(
        sends + receives,
        pre_ext,
        main_ext,
        a.perm_local@,
        0,
        alpha,
        beta,
        a.row,
        base,
        a.violations@,
    );
    let v1 = if a.is_first_row && perm_boundary_first(a.perm_local@, n as int, sends.len() as int)
        != ExtFelt::spec_zero() {
        v0.push(ConstraintViolation { row: a.row, constraint: (base + n) as usize })
    } else {
        v0
    };
    let v2 = if a.is_transition && perm_boundary_transition(
        a.perm_local@,
        a.perm_next@,
        n as int,
        sends.len() as int,
    ) != ExtFelt::spec_zero() {
        v1.push(ConstraintViolation { row: a.row, constraint: (base + n + 1) as usize })
    } else {
        v1
    };
    if a.is_last_row && perm_boundary_last(a.perm_local@, n as int, a.cumulative_sum)
        != ExtFelt::spec_zero() {
        v2.push(ConstraintViolation { row: a.row, constraint: (base + n + 2) as usize })
    } else {
        v2
    }
}

/// Folding of the column constraints into the accumulator.
pub open spec fn perm_fold_iter(
    interactions: Seq<Interaction>,
    pre_ext: Seq<ExtFelt>,
    main_ext: Seq<ExtFelt>,
    perm_local: Seq<ExtFelt>,
    j: int,
    alpha: ExtFelt,
    beta: ExtFelt,
    alpha_fold: ExtFelt,
    acc: ExtFelt,
) -> ExtFelt
    decreases interactions.len(),
{
    if interactions.len() == 0 {
        acc
    } else {
        perm_fold_iter(
            interactions.skip(1),
            pre_ext,
            main_ext,
            perm_local,
            j + 1,
            alpha,
            beta,
            alpha_fold,
            ext_add_spec(
                ext_mul_spec(acc, alpha_fold),
                spec_perm_col_value(interactions[0], pre_ext, main_ext, perm_local[j], alpha, beta),
            ),
        )
    }
}

/// The accumulator after the folding semantics has taken every permutation
/// constraint of one row, the boundary values weighted by their selectors.
pub open spec fn perm_fold_final(
    sends: Seq<Interaction>,
    receives: Seq<Interaction>,
    f: ConstraintFolder,
) -> ExtFelt {
    let beta = f.perm_challenges@[0];
    let alpha = f.perm_challenges@[1];
    let n = sends.len() + receives.len();
    let a0 = perm_fold_iter(
        sends + receives,
        f.preprocessed@,
        f.main@,
        f.perm_local@,
        0,
        alpha,
        beta,
        f.alpha,
        f.accumulator,
    );
    let a1 = ext_add_spec(
        ext_mul_spec(a0, f.alpha),
        ext_mul_spec(
            f.is_first_row,
            perm_boundary_first(f.perm_local@, n as int, sends.len() as int),
        ),
    );
    let a2 = ext_add_spec(
        ext_mul_spec(a1, f.alpha),
        ext_mul_spec(
            f.is_transition,
            perm_boundary_transition(f.perm_local@, f.perm_next@, n as int, sends.len() as int),
        ),
    );
    ext_add_spec(
        ext_mul_spec(a2, f.alpha),
        ext_mul_spec(
            f.is_last_row,
            perm_boundary_last(f.perm_local@, n as int, f.cumulative_sum),
        ),
    )
}

/// The permutation rows a builder must carry: one column per interaction plus
/// the running sum.
pub open spec fn perm_width_ok(b: ConstraintBuilder, n: int) -> bool {
    match b {
        ConstraintBuilder::Collect(_) => true,
        ConstraintBuilder::Debug(db) => db.perm_local@.len() == n + 1 && db.perm_next@.len() == n
            + 1,
        ConstraintBuilder::Fold(f) => f.perm_local@.len() == n + 1 && f.perm_next@.len() == n + 1,
    }
}

/// What evaluating the permutation constraints does to a builder: nothing
/// under collection, violation recording under debug assertion, folding under
/// quotient folding.
pub open spec fn perm_effect(
    before: ConstraintBuilder,
    after: ConstraintBuilder,
    sends: Seq<Interaction>,
    receives: Seq<Interaction>,
) -> bool {
    match (before, after) {
        (ConstraintBuilder::Collect(a), ConstraintBuilder::Collect(b)) => b == a,
        (ConstraintBuilder::Debug(a), ConstraintBuilder::Debug(b)) => {
            &&& b.violations@ == perm_debug_final(sends, receives, a)
            &&& b.constraint_index as int == a.constraint_index as int + sends.len()
                + receives.len() + 3
            &&& debug_frame(a, b)
        },
        (ConstraintBuilder::Fold(a), ConstraintBuilder::Fold(b)) => {
            &&& b.accumulator == perm_fold_final(sends, receives, a)
            &&& fold_frame(a, b)
        },
        _ => false,
    }
}

/// Compute the column constraint value of one interaction.
fn perm_col_value(
    itx: &Interaction,
    pre_ext: &Vec<ExtFelt>,
    main_ext: &Vec<ExtFelt>,
    col: ExtFelt,
    alpha: ExtFelt,
    beta: ExtFelt,
) -> (v: ExtFelt)
    requires
        itx.wf(pre_ext@.len() as int, main_ext@.len() as int),
        forall|i: int| 0 <= i < pre_ext@.len() ==> (#[trigger] pre_ext@[i]).wf(),
        forall|i: int| 0 <= i < main_ext@.len() ==> (#[trigger] main_ext@[i]).wf(),
        col.wf(),
        alpha.wf(),
        beta.wf(),
    ensures
        v == spec_perm_col_value(*itx, pre_ext@, main_ext@, col, alpha, beta),
        v.wf(),
{
    let fp = fingerprint(itx, pre_ext, main_ext, alpha);
    let m = itx.multiplicity.apply_ext(pre_ext, main_ext);
    col.mul(beta.sub(fp)).sub(m)
}

/// The signed sum of the first `n` permutation columns.
fn signed_prefix_delta(cols: &Vec<ExtFelt>, n: usize, n_sends: usize) -> (r: ExtFelt)
    requires
        n <= cols@.len(),
        forall|k: int| 0 <= k < cols@.len() ==> (#[trigger] cols@[k]).wf(),
    ensures
        r == spec_row_delta(cols@.take(n as int), n_sends as int),
        r.wf(),
{
    let mut delta = ExtFelt::zero();
    let mut j: usize = 0;
    while j < n
        invariant
            j <= n,
            n <= cols@.len(),
            forall|k: int| 0 <= k < cols@.len() ==> (#[trigger] cols@[k]).wf(),
            delta.wf(),
            delta_iter(cols@.take(n as int), n_sends as int, j as int, delta) == spec_row_delta(
                cols@.take(n as int),
                n_sends as int,
            ),
        decreases n - j,
    {
        if j < n_sends {
            delta = delta.add(cols[j]);
        } else {
            delta = delta.sub(cols[j]);
        }
        j = j + 1;
    }
    delta
}

/// Evaluate the permutation constraints that tie the sends and receives into
/// the running sum, under whichever semantics the builder carries: each
/// reciprocal column is consistent with its multiplicity and fingerprint, the
/// running sum starts at the first row's signed contribution, extends by each
/// next row's, and ends at the claimed cumulative value.
/// Debug-assertion evaluation of the permutation constraints of one row.
#[verifier::rlimit(100)]
#[verifier::spinoff_prover]
fn eval_perm_debug(
    sends: &Vec<Interaction>,
    receives: &Vec<Interaction>,
    db: &mut DebugConstraintBuilder,
)
    requires
        old(db).wf(),
        old(db).constraint_index as int + sends@.len() + receives@.len() + 3 <= usize::MAX as int,
        interactions_wf(
            sends@ + receives@,
            old(db).preprocessed@.len() as int,
            old(db).main@.len() as int,
        ),
        old(db).perm_local@.len() == sends@.len() + receives@.len() + 1,
        old(db).perm_next@.len() == sends@.len() + receives@.len() + 1,
    ensures
        final(db).violations@ == perm_debug_final(sends@, receives@, *old(db)),
        final(db).constraint_index as int == old(db).constraint_index as int + sends@.len()
            + receives@.len() + 3,
        debug_frame(*old(db), *final(db)),
        final(db).wf(),
{
    let ghost all = sends@ + receives@;
    let n = sends.len() + receives.len();
    let pre_ext = embed_row_exec(&db.preprocessed);
    let main_ext = embed_row_exec(&db.main);
    let beta = db.perm_challenges[0];
    let alpha = db.perm_challenges[1];
    let base = db.constraint_index;
    let ghost a = *old(db);
    let mut j: usize = 0;
    proof {
        assert(all.skip(0) =~= all);
    }
    while j < n
        invariant
            j <= n,
            n == sends@.len() + receives@.len(),
            all == sends@ + receives@,
            interactions_wf(all, db.preprocessed@.len() as int, db.main@.len() as int),
            db.wf(),
            db.perm_local@.len() == n + 1,
            db.perm_next@.len() == n + 1,
            base == a.constraint_index,
            base + n + 3 <= usize::MAX,
            pre_ext@ == embed_row(db.preprocessed@),
            main_ext@ == embed_row(db.main@),
            forall|k: int| 0 <= k < pre_ext@.len() ==> (#[trigger] pre_ext@[k]).wf(),
            forall|k: int| 0 <= k < main_ext@.len() ==> (#[trigger] main_ext@[k]).wf(),
            beta == db.perm_challenges@[0],
            alpha == db.perm_challenges@[1],
            db.constraint_index == base,
            debug_frame(a, *db),
            a.preprocessed == db.preprocessed,
            a.main == db.main,
            perm_debug_iter(
                all.skip(j as int),
                pre_ext@,
                main_ext@,
                db.perm_local@,
                j as int,
                alpha,
                beta,
                db.row,
                base + j as int,
                db.violations@,
            ) == perm_debug_iter(
                all,
                pre_ext@,
                main_ext@,
                db.perm_local@,
                0,
                alpha,
                beta,
                a.row,
                a.constraint_index as int,
                a.violations@,
            ),
        decreases n - j,
    {
        proof {
            assert(all.skip(j as int)[0] == all[j as int]);
            assert(all.skip(j as int).skip(1) =~= all.skip(j as int + 1));
            assert(all[j as int].wf(db.preprocessed@.len() as int, db.main@.len() as int));
        }
        let itx = if j < sends.len() {
            proof {
                assert(all[j as int] == sends@[j as int]);
            }
            &sends[j]
        } else {
            proof {
                assert(all[j as int] == receives@[j as int - sends@.len()]);
            }
            &receives[j - sends.len()]
        };
        let v = perm_col_value(itx, &pre_ext, &main_ext, db.perm_local[j], alpha, beta);
        if !(v == ExtFelt::zero()) {
            db.violations.push(ConstraintViolation { row: db.row, constraint: base + j });
        }
        j = j + 1;
    }
    proof {
        assert(all.skip(n as int) =~= Seq::<Interaction>::empty());
    }
    let s_local = signed_prefix_delta(&db.perm_local, n, sends.len());
    let v_first = db.perm_local[n].sub(s_local);
    if db.is_first_row {
        if !(v_first == ExtFelt::zero()) {
            db.violations.push(ConstraintViolation { row: db.row, constraint: base + n });
        }
    }
    let s_next = signed_prefix_delta(&db.perm_next, n, sends.len());
    let v_trans = db.perm_next[n].sub(db.perm_local[n]).sub(s_next);
    if db.is_transition {
        if !(v_trans == ExtFelt::zero()) {
            db.violations.push(ConstraintViolation { row: db.row, constraint: base + n + 1 });
        }
    }
    let v_last = db.perm_local[n].sub(db.cumulative_sum);
    if db.is_last_row {
        if !(v_last == ExtFelt::zero()) {
            db.violations.push(ConstraintViolation { row: db.row, constraint: base + n + 2 });
        }
    }
    db.constraint_index = base + n + 3;
    proof {
        assert(db.violations@ == perm_debug_final(sends@, receives@, a));
    }
}

/// Quotient-folding evaluation of the permutation constraints of one row.
#[verifier::rlimit(100)]
#[verifier::spinoff_prover]
fn eval_perm_fold(sends: &Vec<Interaction>, receives: &Vec<Interaction>, f: &mut ConstraintFolder)
    requires
        old(f).wf(),
        interactions_wf(
            sends@ + receives@,
            old(f).preprocessed@.len() as int,
            old(f).main@.len() as int,
        ),
        old(f).perm_local@.len() == sends@.len() + receives@.len() + 1,
        old(f).perm_next@.len() == sends@.len() + receives@.len() + 1,
        sends@.len() + receives@.len() + 1 <= usize::MAX,
    ensures
        final(f).accumulator == perm_fold_final(sends@, receives@, *old(f)),
        fold_frame(*old(f), *final(f)),
        final(f).wf(),
{
    let ghost all = sends@ + receives@;
    let n = sends.len() + receives.len();
    let beta = f.perm_challenges[0];
    let alpha = f.perm_challenges[1];
    let ghost a = *old(f);
    let mut j: usize = 0;
    proof {
        assert(all.skip(0) =~= all);
    }
    while j < n
        invariant
            j <= n,
            n == sends@.len() + receives@.len(),
            all == sends@ + receives@,
            interactions_wf(all, f.preprocessed@.len() as int, f.main@.len() as int),
            f.wf(),
            f.perm_local@.len() == n + 1,
            f.perm_next@.len() == n + 1,
            beta == f.perm_challenges@[0],
            alpha == f.perm_challenges@[1],
            fold_frame(a, *f),
            a.preprocessed == f.preprocessed,
            a.main == f.main,
            perm_fold_iter(
                all.skip(j as int),
                f.preprocessed@,
                f.main@,
                f.perm_local@,
                j as int,
                alpha,
                beta,
                f.alpha,
                f.accumulator,
            ) == perm_fold_iter(
                all,
                f.preprocessed@,
                f.main@,
                f.perm_local@,
                0,
                alpha,
                beta,
                a.alpha,
                a.accumulator,
            ),
        decreases n - j,
    {
        proof {
            assert(all.skip(j as int)[0] == all[j as int]);
            assert(all.skip(j as int).skip(1) =~= all.skip(j as int + 1));
            assert(all[j as int].wf(f.preprocessed@.len() as int, f.main@.len() as int));
        }
        let itx = if j < sends.len() {
            proof {
                assert(all[j as int] == sends@[j as int]);
            }
            &sends[j]
        } else {
            proof {
                assert(all[j as int] == receives@[j as int - sends@.len()]);
            }
            &receives[j - sends.len()]
        };
        let v = perm_col_value(itx, &f.preprocessed, &f.main, f.perm_local[j], alpha, beta);
        f.accumulator = f.accumulator.mul(f.alpha).add(v);
        j = j + 1;
    }
    proof {
        assert(all.skip(n as int) =~= Seq::<Interaction>::empty());
    }
    let s_local = signed_prefix_delta(&f.perm_local, n, sends.len());
    let v_first = f.perm_local[n].sub(s_local);
    f.accumulator = f.accumulator.mul(f.alpha).add(f.is_first_row.mul(v_first));
    let s_next = signed_prefix_delta(&f.perm_next, n, sends.len());
    let v_trans = f.perm_next[n].sub(f.perm_local[n]).sub(s_next);
    f.accumulator = f.accumulator.mul(f.alpha).add(f.is_transition.mul(v_trans));
    let v_last = f.perm_local[n].sub(f.cumulative_sum);
    f.accumulator = f.accumulator.mul(f.alpha).add(f.is_last_row.mul(v_last));
    proof {
        assert(f.accumulator == perm_fold_final(sends@, receives@, a));
    }
}

/// Evaluate the permutation constraints that tie the sends and receives into
/// the running sum, under whichever semantics the builder carries: each
/// reciprocal column is consistent with its multiplicity and fingerprint, the
/// running sum starts at the first row's signed contribution, extends by each
/// next row's, and ends at the claimed cumulative value.
pub fn eval_permutation_constraints(
    sends: &Vec<Interaction>,
    receives: &Vec<Interaction>,
    builder: &mut ConstraintBuilder,
)
    requires
        old(builder).wf(),
        old(builder).headroom(sends@.len() + receives@.len() + 3int),
        interactions_wf(
            sends@ + receives@,
            old(builder).spec_preprocessed_width(),
            old(builder).spec_main_width(),
        ),
        perm_width_ok(*old(builder), sends@.len() + receives@.len() as int + 0int),
    ensures
        perm_effect(*old(builder), *final(builder), sends@, receives@),
        final(builder).wf(),
        final(builder).spec_preprocessed_width() == old(builder).spec_preprocessed_width(),
        final(builder).spec_main_width() == old(builder).spec_main_width(),
{
    match builder {
        ConstraintBuilder::Collect(_) => {
            proof {
                assert(*builder == *old(builder));
            }
        },
        ConstraintBuilder::Debug(db) => {
            eval_perm_debug(sends, receives, db);
        },
        ConstraintBuilder::Fold(f) => {
            proof {
                vstd::std_specs::vec::axiom_spec_len(&f.perm_local);
            }
            eval_perm_fold(sends, receives, f);
        },
    }
}

} // verus!
