//! Why the quotient identity holds for a satisfied circuit.
//!
//! Every cell of a circuit, one per wire and row, carries a value and two
//! labels: the label of the cell itself and the label of the cell that the
//! wiring maps it to. The circuit's copy constraints are satisfied when the
//! cells, paired with their own labels, are the same collection as the cells
//! paired with the labels of their images. The grand product then returns to
//! one after the last row, and every row's quotient contribution is zero.

use crate::field::{modulus, reduce};
use crate::permutation::{
    coset_labels, is_domain_labelling, is_grand_product, lemma_quotient_vanishes_on_domain,
    permutation_product, quotient_row, quotient_rows, quotient_sum, scaled_first_lagrange,
    wire_term, PermutationProverKey,
};
use vstd::arithmetic::div_mod::*;
use vstd::prelude::*;
use vstd::seq_lib::*;

verus! {

/// The four cells of a row, each a wire value with a label.
pub open spec fn row_cells(wires: (int, int, int, int), labels: (int, int, int, int)) -> Seq<
    (int, int),
> {
    seq![(wires.0, labels.0), (wires.1, labels.1), (wires.2, labels.2), (wires.3, labels.3)]
}

/// The cells of all rows, row by row.
pub open spec fn cells(wires: Seq<(int, int, int, int)>, labels: Seq<(int, int, int, int)>) -> Seq<
    (int, int),
>
    decreases wires.len(),
{
    if wires.len() == 0 || labels.len() == 0 {
        Seq::empty()
    } else {
        cells(wires.drop_last(), labels.drop_last()) + row_cells(wires.last(), labels.last())
    }
}

/// The labels that the identity permutation gives to the cells of every row.
pub open spec fn identity_labels(elements: Seq<int>) -> Seq<(int, int, int, int)> {
    Seq::new(elements.len(), |i: int| coset_labels(elements[i]))
}

/// The wire values satisfy the copy constraints that the sigma values
/// declare: the cells with their own labels and the cells with the labels of
/// their images are the same collection.
pub open spec fn satisfies_copy_constraints(
    wires: Seq<(int, int, int, int)>,
    elements: Seq<int>,
    sigmas: Seq<(int, int, int, int)>,
) -> bool {
    &&& wires.len() == elements.len()
    &&& wires.len() == sigmas.len()
    &&& cells(wires, identity_labels(elements)).to_multiset() == cells(wires, sigmas).to_multiset()
}

/// The product of the four-wire products of all rows.
pub open spec fn rows_product(
    wires: Seq<(int, int, int, int)>,
    labels: Seq<(int, int, int, int)>,
    beta: int,
    gamma: int,
) -> int
    decreases wires.len(),
{
    if wires.len() == 0 || labels.len() == 0 {
        1
    } else {
        rows_product(wires.drop_last(), labels.drop_last(), beta, gamma) * permutation_product(
            wires.last(),
            labels.last(),
            beta,
            gamma,
        )
    }
}

/// The product of a sequence of integers.
pub open spec fn product(factors: Seq<int>) -> int
    decreases factors.len(),
{
    if factors.len() == 0 {
        1
    } else {
        product(factors.drop_last()) * factors.last()
    }
}

/// Multiplies an accumulated product by the term of one cell.
pub open spec fn cell_step(beta: int, gamma: int) -> spec_fn((int, int), int) -> int {
    |cell: (int, int), acc: int| reduce(wire_term(cell.0, beta, cell.1, gamma) * acc)
}

/// `z` is the grand product that an honest prover builds: it starts at one
/// and is multiplied, row by row, by the row's identity product and by the
/// inverse of the row's copy product.
pub open spec fn is_running_product(
    wires: Seq<(int, int, int, int)>,
    elements: Seq<int>,
    sigmas: Seq<(int, int, int, int)>,
    inverses: Seq<int>,
    z: Seq<int>,
    beta: int,
    gamma: int,
) -> bool {
    &&& z.len() > 0
    &&& z.len() == wires.len()
    &&& z.len() == elements.len()
    &&& z.len() == sigmas.len()
    &&& z.len() == inverses.len()
    &&& z[0] == 1
    &&& forall|i: int|
        0 <= i < z.len() ==> reduce(
            permutation_product(wires[i], sigmas[i], beta, gamma) * #[trigger] inverses[i],
        ) == 1
    &&& forall|i: int|
        0 <= i < z.len() - 1 ==> #[trigger] z[i + 1] == reduce(
            z[i] * permutation_product(wires[i], coset_labels(elements[i]), beta, gamma)
                * inverses[i],
        )
}

/// A common factor that has an inverse can be cancelled from a congruence.
proof fn lemma_cancel(a: int, b: int, c: int, v: int)
    requires
        reduce(a * c) == reduce(b * c),
        reduce(c * v) == 1,
    ensures
        reduce(a) == reduce(b),
{
    let m = modulus();
    lemma_mul_mod_noop_general(a, c * v, m);
    lemma_mul_mod_noop_general(b, c * v, m);
    lemma_mul_mod_noop_general(a * c, v, m);
    lemma_mul_mod_noop_general(b * c, v, m);
    assert(a * (c * v) == a * c * v) by (nonlinear_arith);
    assert(b * (c * v) == b * c * v) by (nonlinear_arith);
    assert(a * 1 == a);
    assert(b * 1 == b);
}

/// Folding the cells of all rows into an accumulator multiplies it by the
/// product of the rows.
proof fn lemma_cells_fold(
    wires: Seq<(int, int, int, int)>,
    labels: Seq<(int, int, int, int)>,
    beta: int,
    gamma: int,
    v: int,
)
    requires
        wires.len() == labels.len(),
        0 <= v < modulus(),
    ensures
        cells(wires, labels).fold_right(cell_step(beta, gamma), v) == reduce(
            rows_product(wires, labels, beta, gamma) * v,
        ),
    decreases wires.len(),
{
    let m = modulus();
    let f = cell_step(beta, gamma);
    if wires.len() == 0 {
        lemma_small_mod(v as nat, m as nat);
        assert(1 * v == v);
    } else {
        let earlier = cells(wires.drop_last(), labels.drop_last());
        let (w, l) = (wires.last(), labels.last());
        let row = row_cells(w, l);
        let all = cells(wires, labels);
        let (t_0, t_1, t_2, t_3) = (
            wire_term(w.0, beta, l.0, gamma),
            wire_term(w.1, beta, l.1, gamma),
            wire_term(w.2, beta, l.2, gamma),
            wire_term(w.3, beta, l.3, gamma),
        );
        let v_3 = reduce(t_3 * v);
        let v_2 = reduce(t_2 * v_3);
        let v_1 = reduce(t_1 * v_2);
        let v_0 = reduce(t_0 * v_1);
        assert(row.fold_right(f, v) == v_0) by {
            reveal_with_fuel(Seq::fold_right, 5);
            assert(row.drop_last() =~= seq![(w.0, l.0), (w.1, l.1), (w.2, l.2)]);
            assert(row.drop_last().drop_last() =~= seq![(w.0, l.0), (w.1, l.1)]);
            assert(row.drop_last().drop_last().drop_last() =~= seq![(w.0, l.0)]);
            assert(row.drop_last().drop_last().drop_last().drop_last() =~= Seq::<
                (int, int),
            >::empty());
        }
        let row_product = permutation_product(w, l, beta, gamma);
        assert(v_0 == reduce(row_product * v)) by {
            lemma_mul_mod_noop_general(t_2, t_3 * v, m);
            lemma_mul_mod_noop_general(t_1, t_2 * (t_3 * v), m);
            lemma_mul_mod_noop_general(t_0, t_1 * (t_2 * (t_3 * v)), m);
            assert(t_0 * (t_1 * (t_2 * (t_3 * v))) == t_0 * t_1 * t_2 * t_3 * v)
                by (nonlinear_arith);
        }
        lemma_mod_bound(row_product * v, m);
        all.lemma_fold_right_split(f, v, earlier.len() as int);
        assert(all.subrange(0, earlier.len() as int) =~= earlier);
        assert(all.subrange(earlier.len() as int, all.len() as int) =~= row);
        lemma_cells_fold(wires.drop_last(), labels.drop_last(), beta, gamma, v_0);
        let earlier_product = rows_product(wires.drop_last(), labels.drop_last(), beta, gamma);
        lemma_mul_mod_noop_general(earlier_product, row_product * v, m);
        assert(earlier_product * (row_product * v) == earlier_product * row_product * v)
            by (nonlinear_arith);
    }
}

/// The order in which two cells are folded into a product does not matter.
proof fn lemma_cell_step_commutes(beta: int, gamma: int)
    ensures
        commutative_foldr(cell_step(beta, gamma)),
{
    let f = cell_step(beta, gamma);
    let m = modulus();
    assert forall|x: (int, int), y: (int, int), v: int| #[trigger]
        f(x, f(y, v)) == f(y, f(x, v)) by {
        let t_x = wire_term(x.0, beta, x.1, gamma);
        let t_y = wire_term(y.0, beta, y.1, gamma);
        lemma_mul_mod_noop_general(t_x, t_y * v, m);
        lemma_mul_mod_noop_general(t_y, t_x * v, m);
        assert(t_x * (t_y * v) == t_y * (t_x * v)) by (nonlinear_arith);
    }
}

/// For a satisfied circuit the product of all identity terms and the product
/// of all copy terms are congruent.
pub proof fn lemma_products_agree(
    wires: Seq<(int, int, int, int)>,
    elements: Seq<int>,
    sigmas: Seq<(int, int, int, int)>,
    beta: int,
    gamma: int,
)
    requires
        satisfies_copy_constraints(wires, elements, sigmas),
    ensures
        reduce(rows_product(wires, identity_labels(elements), beta, gamma)) == reduce(
            rows_product(wires, sigmas, beta, gamma),
        ),
{
    let f = cell_step(beta, gamma);
    let labels = identity_labels(elements);
    lemma_cell_step_commutes(beta, gamma);
    lemma_fold_right_permutation(cells(wires, labels), cells(wires, sigmas), f, 1);
    lemma_cells_fold(wires, labels, beta, gamma, 1);
    lemma_cells_fold(wires, sigmas, beta, gamma, 1);
    assert(rows_product(wires, labels, beta, gamma) * 1 == rows_product(
        wires,
        labels,
        beta,
        gamma,
    ));
    assert(rows_product(wires, sigmas, beta, gamma) * 1 == rows_product(
        wires,
        sigmas,
        beta,
        gamma,
    ));
}

/// The copy products of the first `k` rows, multiplied together, have the
/// product of their inverses as inverse.
proof fn lemma_copy_prefix_has_inverse(
    wires: Seq<(int, int, int, int)>,
    elements: Seq<int>,
    sigmas: Seq<(int, int, int, int)>,
    inverses: Seq<int>,
    z: Seq<int>,
    beta: int,
    gamma: int,
    k: int,
)
    requires
        is_running_product(wires, elements, sigmas, inverses, z, beta, gamma),
        0 <= k <= z.len(),
    ensures
        reduce(
            rows_product(wires.take(k), sigmas.take(k), beta, gamma) * product(inverses.take(k)),
        ) == 1,
    decreases k,
{
    let m = modulus();
    if k == 0 {
        lemma_small_mod(1, m as nat);
        assert(1int * 1int == 1int);
    } else {
        lemma_copy_prefix_has_inverse(wires, elements, sigmas, inverses, z, beta, gamma, k - 1);
        assert(wires.take(k).drop_last() =~= wires.take(k - 1));
        assert(sigmas.take(k).drop_last() =~= sigmas.take(k - 1));
        assert(inverses.take(k).drop_last() =~= inverses.take(k - 1));
        let c = rows_product(wires.take(k - 1), sigmas.take(k - 1), beta, gamma);
        let v = product(inverses.take(k - 1));
        let copy = permutation_product(wires[k - 1], sigmas[k - 1], beta, gamma);
        let inverse = inverses[k - 1];
        assert(reduce(copy * inverse) == 1);
        lemma_mul_mod_noop_general(c * v, copy * inverse, m);
        assert((c * copy) * (v * inverse) == (c * v) * (copy * inverse)) by (nonlinear_arith);
        assert(1int * 1int == 1int);
        lemma_small_mod(1, m as nat);
    }
}

/// From one row to the next the running product advances by the ratio of the
/// row's identity product to its copy product.
proof fn lemma_running_product_step(
    wires: Seq<(int, int, int, int)>,
    elements: Seq<int>,
    sigmas: Seq<(int, int, int, int)>,
    inverses: Seq<int>,
    z: Seq<int>,
    beta: int,
    gamma: int,
    i: int,
)
    requires
        is_running_product(wires, elements, sigmas, inverses, z, beta, gamma),
        0 <= i < z.len() - 1,
    ensures
        reduce(permutation_product(wires[i], coset_labels(elements[i]), beta, gamma) * z[i])
            == reduce(permutation_product(wires[i], sigmas[i], beta, gamma) * z[i + 1]),
{
    let m = modulus();
    let identity = permutation_product(wires[i], coset_labels(elements[i]), beta, gamma);
    let copy = permutation_product(wires[i], sigmas[i], beta, gamma);
    let inverse = inverses[i];
    assert(z[i + 1] == reduce(z[i] * identity * inverse));
    assert(reduce(copy * inverse) == 1);
    lemma_mul_mod_noop_general(copy, z[i] * identity * inverse, m);
    lemma_mul_mod_noop_general(copy * inverse, identity * z[i], m);
    assert(copy * (z[i] * identity * inverse) == (copy * inverse) * (identity * z[i]))
        by (nonlinear_arith);
    assert(1 * (identity * z[i]) == identity * z[i]);
}

/// After `k` rows the running product times the copy products of those rows
/// is congruent to their identity products.
proof fn lemma_running_product_prefix(
    wires: Seq<(int, int, int, int)>,
    elements: Seq<int>,
    sigmas: Seq<(int, int, int, int)>,
    inverses: Seq<int>,
    z: Seq<int>,
    beta: int,
    gamma: int,
    k: int,
)
    requires
        is_running_product(wires, elements, sigmas, inverses, z, beta, gamma),
        0 <= k < z.len(),
    ensures
        reduce(z[k] * rows_product(wires.take(k), sigmas.take(k), beta, gamma)) == reduce(
            rows_product(wires.take(k), identity_labels(elements).take(k), beta, gamma),
        ),
    decreases k,
{
    let m = modulus();
    let labels = identity_labels(elements);
    if k == 0 {
        assert(1int * 1int == 1int);
    } else {
        lemma_running_product_prefix(wires, elements, sigmas, inverses, z, beta, gamma, k - 1);
        lemma_running_product_step(wires, elements, sigmas, inverses, z, beta, gamma, k - 1);
        assert(wires.take(k).drop_last() =~= wires.take(k - 1));
        assert(sigmas.take(k).drop_last() =~= sigmas.take(k - 1));
        assert(labels.take(k).drop_last() =~= labels.take(k - 1));
        let c = rows_product(wires.take(k - 1), sigmas.take(k - 1), beta, gamma);
        let e = rows_product(wires.take(k - 1), labels.take(k - 1), beta, gamma);
        let identity = permutation_product(wires[k - 1], coset_labels(elements[k - 1]), beta, gamma);
        let copy = permutation_product(wires[k - 1], sigmas[k - 1], beta, gamma);
        // z[k] * (c * copy) = (copy * z[k]) * c, congruent to (identity * z[k - 1]) * c
        lemma_mul_mod_noop_general(copy * z[k], c, m);
        lemma_mul_mod_noop_general(identity * z[k - 1], c, m);
        assert(z[k] * (c * copy) == (copy * z[k]) * c) by (nonlinear_arith);
        // (identity * z[k - 1]) * c = (z[k - 1] * c) * identity, congruent to e * identity
        assert((identity * z[k - 1]) * c == (z[k - 1] * c) * identity) by (nonlinear_arith);
        lemma_mul_mod_noop_general(z[k - 1] * c, identity, m);
        lemma_mul_mod_noop_general(e, identity, m);
    }
}

/// For a satisfied circuit, the grand product that an honest prover builds
/// comes back to one after the last row: it advances by the ratio of the
/// identity product to the copy product on every row, the last one included.
pub proof fn lemma_grand_product_of_satisfied_circuit(
    wires: Seq<(int, int, int, int)>,
    elements: Seq<int>,
    sigmas: Seq<(int, int, int, int)>,
    inverses: Seq<int>,
    z: Seq<int>,
    beta: int,
    gamma: int,
)
    requires
        satisfies_copy_constraints(wires, elements, sigmas),
        is_running_product(wires, elements, sigmas, inverses, z, beta, gamma),
    ensures
        is_grand_product(wires, elements, sigmas, z, beta, gamma),
{
    let m = modulus();
    let n = z.len() as int;
    let labels = identity_labels(elements);
    assert forall|i: int| 0 <= i < n implies reduce(
        permutation_product(wires[i], coset_labels(elements[i]), beta, gamma) * #[trigger] z[i],
    ) == reduce(permutation_product(wires[i], sigmas[i], beta, gamma) * z[(i + 1) % n]) by {
        if i < n - 1 {
            lemma_small_mod((i + 1) as nat, n as nat);
            lemma_running_product_step(wires, elements, sigmas, inverses, z, beta, gamma, i);
        } else {
            lemma_mod_self_0(n);
            let last = n - 1;
            let identity = permutation_product(
                wires[last],
                coset_labels(elements[last]),
                beta,
                gamma,
            );
            let copy = permutation_product(wires[last], sigmas[last], beta, gamma);
            let c = rows_product(wires.take(last), sigmas.take(last), beta, gamma);
            let e = rows_product(wires.take(last), labels.take(last), beta, gamma);
            let v = product(inverses.take(last));
            lemma_running_product_prefix(
                wires,
                elements,
                sigmas,
                inverses,
                z,
                beta,
                gamma,
                last,
            );
            lemma_copy_prefix_has_inverse(
                wires,
                elements,
                sigmas,
                inverses,
                z,
                beta,
                gamma,
                last,
            );
            lemma_products_agree(wires, elements, sigmas, beta, gamma);
            assert(wires.drop_last() =~= wires.take(last));
            assert(sigmas.drop_last() =~= sigmas.take(last));
            assert(labels.drop_last() =~= labels.take(last));
            assert(labels.last() == coset_labels(elements[last]));
            // (identity * z[last]) * c = (z[last] * c) * identity, congruent to
            // e * identity, congruent to c * copy = copy * c
            assert((identity * z[last]) * c == (z[last] * c) * identity) by (nonlinear_arith);
            lemma_mul_mod_noop_general(z[last] * c, identity, m);
            lemma_mul_mod_noop_general(e, identity, m);
            assert(c * copy == (copy * 1) * c) by (nonlinear_arith);
            lemma_cancel(identity * z[last], copy * 1, c, v);
            assert(z[0] == 1);
        }
    }
}

/// For a circuit whose wire values satisfy the copy constraints that the
/// key declares, with the grand product that an honest prover builds and the
/// boundary scalars derived from `alpha` and the first Lagrange basis
/// polynomial, the quotient contribution of every row is zero, and so is
/// their sum. The polynomial that interpolates the contributions is then zero
/// on the whole domain, which is to say a multiple of the domain's vanishing
/// polynomial.
pub proof fn lemma_quotient_vanishes_for_satisfied_circuit(
    key: &PermutationProverKey,
    size: int,
    wires: Seq<(int, int, int, int)>,
    inverses: Seq<int>,
    z: Seq<int>,
    alpha: int,
    beta: int,
    gamma: int,
)
    requires
        is_domain_labelling(size, key.elements()),
        satisfies_copy_constraints(wires, key.elements(), key.sigmas()),
        is_running_product(wires, key.elements(), key.sigmas(), inverses, z, beta, gamma),
    ensures
        forall|i: int|
            0 <= i < key.rows() ==> quotient_row(
                #[trigger] wires[i],
                key.row_element(i),
                key.row_sigmas(i),
                z[i],
                z[(i + 1) % (key.rows() as int)],
                alpha,
                scaled_first_lagrange(size, key.elements(), alpha)[i],
                beta,
                gamma,
            ) == 0,
        quotient_sum(
            quotient_rows(
                wires,
                key.elements(),
                key.sigmas(),
                z,
                scaled_first_lagrange(size, key.elements(), alpha),
                alpha,
                beta,
                gamma,
            ),
        ) == 0,
{
    let (elements, sigmas) = (key.elements(), key.sigmas());
    let rows = quotient_rows(
        wires,
        elements,
        sigmas,
        z,
        scaled_first_lagrange(size, elements, alpha),
        alpha,
        beta,
        gamma,
    );
    lemma_grand_product_of_satisfied_circuit(wires, elements, sigmas, inverses, z, beta, gamma);
    lemma_quotient_vanishes_on_domain(size, wires, elements, sigmas, z, alpha, beta, gamma);
    assert forall|i: int| 0 <= i < key.rows() implies quotient_row(
        #[trigger] wires[i],
        key.row_element(i),
        key.row_sigmas(i),
        z[i],
        z[(i + 1) % (key.rows() as int)],
        alpha,
        scaled_first_lagrange(size, key.elements(), alpha)[i],
        beta,
        gamma,
    ) == 0 by {
        assert(rows[i] == 0);
    }
}

} // verus!
