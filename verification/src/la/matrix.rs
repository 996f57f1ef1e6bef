use vstd::prelude::*;

verus! {

/// The rows of a matrix with `X` columns and `Y` rows.
pub open spec fn rows<T, const X: usize, const Y: usize>(m: [[T; X]; Y]) -> Seq<Seq<T>> {
    Seq::new(Y as nat, |j: int| m[j]@)
}

/// The transpose of a matrix given by its rows, each of `columns` entries:
/// row `i` of the result is column `i` of the matrix.
pub open spec fn transposed<T>(rows: Seq<Seq<T>>, columns: nat) -> Seq<Seq<T>> {
    Seq::new(columns, |i: int| Seq::new(rows.len(), |j: int| rows[j][i]))
}

/// The transpose of `m`.
pub fn transpose<T: Copy + Default, const X: usize, const Y: usize>(m: &[[T; X]; Y]) -> (r: [[T;
    Y]; X])
    ensures
        rows(r) == transposed(rows(*m), X as nat),
{
    let mut res: [[T; Y]; X] = [[T::default(); Y]; X];
    let mut x: usize = 0;
    while x < X
        invariant
            x <= X,
            forall|i: int, j: int| 0 <= i < x && 0 <= j < Y ==> res[i][j] == m[j][i],
        decreases X - x,
    {
        let mut y: usize = 0;
        while y < Y
            invariant
                x < X,
                y <= Y,
                forall|i: int, j: int| 0 <= i < x && 0 <= j < Y ==> res[i][j] == m[j][i],
                forall|j: int| 0 <= j < y ==> res[x as int][j] == m[j][x as int],
            decreases Y - y,
        {
            res[x][y] = m[y][x];
            y += 1;
        }
        x += 1;
    }
    proof {
        let expected = transposed(rows(*m), X as nat);
        assert forall|i: int| 0 <= i < X implies #[trigger] rows(res)[i] == expected[i] by {
            assert(rows(res)[i] =~= expected[i]);
        }
        assert(rows(res) =~= expected);
    }
    res
}

/// Transposing twice gives the matrix back: if `t` is the transpose of `m`
/// and `back` is the transpose of `t`, then `back` is `m`.
pub proof fn lemma_transpose_involution<T, const X: usize, const Y: usize>(
    m: [[T; X]; Y],
    t: [[T; Y]; X],
    back: [[T; X]; Y],
)
    requires
        rows(t) == transposed(rows(m), X as nat),
        rows(back) == transposed(rows(t), Y as nat),
    ensures
        back == m,
{
    assert forall|j: int| 0 <= j < Y implies back[j] == m[j] by {
        assert forall|i: int| 0 <= i < X implies back[j][i] == m[j][i] by {
            assert(rows(back)[j][i] == rows(t)[i][j]);
            assert(rows(t)[i][j] == rows(m)[j][i]);
        }
        assert(back[j] =~= m[j]);
    }
    assert(back =~= m);
}

} // verus!
