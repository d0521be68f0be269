use vstd::prelude::*;

verus! {

/// The variables of an augmented Dickey-Fuller regression on a series.
///
/// The series is regressed in its differences: the change at `t` on an
/// intercept, on the level at `t - 1`, and on the changes at `t - 1` down to
/// `t - (lags - 1)`, where `lags` is the lag order. Each lag costs the sample
/// one observation, so a series of `len` values gives `len - lags` rows.
pub struct AugmentedDicketFuller {}

/// The lag order that a request for `max_lags` lags gives: at least one, the
/// lag that sets the level beside the change that follows it.
pub open spec fn lag_order(max_lags: int) -> int {
    if max_lags < 1 {
        1
    } else {
        max_lags
    }
}

/// The number of rows of the regression.
pub open spec fn sample_size(len: int, max_lags: int) -> int {
    len - lag_order(max_lags)
}

/// Whether a series gives the regression at least as many rows as it has
/// columns: one for the intercept and one for each lag.
pub open spec fn has_enough_rows(len: int, max_lags: int) -> bool {
    sample_size(len, max_lags) >= lag_order(max_lags) + 1
}

/// The place in the series that row `row` explains.
pub open spec fn row_time(max_lags: int, row: int) -> int {
    row + lag_order(max_lags)
}

/// The change of the series at `t`.
pub open spec fn change_at(y: Seq<i64>, t: int) -> int {
    y[t] - y[t - 1]
}

/// What row `row` explains: the change at the row's place.
pub open spec fn response_at(y: Seq<i64>, max_lags: int, row: int) -> int {
    change_at(y, row_time(max_lags, row))
}

/// What stands in row `row` of regressor `column`: in column 0 the level one
/// step before the row's place, in column `k` the change `k` steps before it.
pub open spec fn regressor_at(y: Seq<i64>, max_lags: int, column: int, row: int) -> int {
    if column == 0 {
        y[row_time(max_lags, row) - 1] as int
    } else {
        change_at(y, row_time(max_lags, row) - column)
    }
}

/// Whether `regressors` and `response` are the variables of the regression
/// on `y`: as many regressors as the lag order, all columns as long as the
/// sample, and every entry in its place.
pub open spec fn are_variables_of(
    regressors: Seq<Vec<i128>>,
    response: Seq<i128>,
    y: Seq<i64>,
    max_lags: int,
) -> bool {
    &&& response.len() == sample_size(y.len() as int, max_lags)
    &&& forall|row: int|
        0 <= row < response.len() ==> #[trigger] response[row] == response_at(y, max_lags, row)
    &&& regressors.len() == lag_order(max_lags)
    &&& forall|column: int|
        0 <= column < regressors.len() ==> (#[trigger] regressors[column])@.len() == sample_size(
            y.len() as int,
            max_lags,
        )
    &&& forall|column: int, row: int|
        0 <= column < regressors.len() && 0 <= row < sample_size(y.len() as int, max_lags)
            ==> #[trigger] regressors[column]@[row] == regressor_at(y, max_lags, column, row)
}

impl AugmentedDicketFuller {
    /// Lays out the regression on a series sorted from oldest to newest: the
    /// regressors without the intercept, column by column, and the response.
    /// `None` where the series is too short for its lag order.
    pub fn generate_variables(y: &[i64], max_lags: usize) -> (variables: Option<
        (Vec<Vec<i128>>, Vec<i128>),
    >)
        ensures
            variables is Some <==> has_enough_rows(y@.len() as int, max_lags as int),
            variables matches Some((regressors, response)) ==> are_variables_of(
                regressors@,
                response@,
                y@,
                max_lags as int,
            ),
    {
        let lags = if max_lags < 1 {
            1
        } else {
            max_lags
        };
        let len = y.len();
        if len <= lags || len - lags <= lags {
            return None;
        }
        let rows = len - lags;
        let mut response: Vec<i128> = Vec::new();
        let mut row: usize = 0;
        while row < rows
            invariant
                row <= rows,
                rows + lags == len == y@.len(),
                1 <= lags == lag_order(max_lags as int),
                response@.len() == row,
                forall|r: int|
                    0 <= r < row ==> #[trigger] response@[r] == response_at(y@, max_lags as int, r),
            decreases rows - row,
        {
            let t = row + lags;
            response.push(y[t] as i128 - y[t - 1] as i128);
            row = row + 1;
        }
        let mut regressors: Vec<Vec<i128>> = Vec::new();
        let mut column: usize = 0;
        while column < lags
            invariant
                column <= lags,
                lags < rows,
                rows + lags == len == y@.len(),
                1 <= lags == lag_order(max_lags as int),
                regressors@.len() == column,
                forall|c: int| 0 <= c < column ==> (#[trigger] regressors@[c])@.len() == rows,
                forall|c: int, r: int|
                    0 <= c < column && 0 <= r < rows ==> #[trigger] regressors@[c]@[r]
                        == regressor_at(y@, max_lags as int, c, r),
            decreases lags - column,
        {
            let mut values: Vec<i128> = Vec::new();
            let mut row: usize = 0;
            while row < rows
                invariant
                    row <= rows,
                    column < lags < rows,
                    rows + lags == len == y@.len(),
                    1 <= lags == lag_order(max_lags as int),
                    values@.len() == row,
                    forall|r: int|
                        0 <= r < row ==> #[trigger] values@[r] == regressor_at(
                            y@,
                            max_lags as int,
                            column as int,
                            r,
                        ),
                decreases rows - row,
            {
                let t = row + lags;
                if column == 0 {
                    values.push(y[t - 1] as i128);
                } else {
                    values.push(y[t - column] as i128 - y[t - column - 1] as i128);
                }
                row = row + 1;
            }
            regressors.push(values);
            column = column + 1;
        }
        Some((regressors, response))
    }
}

/// Whether all values of a series are one value. A series of no value or of
/// one value is constant.
pub open spec fn is_constant_series(series: Seq<i64>) -> bool {
    forall|i: int, j: int| 0 <= i < series.len() && 0 <= j < series.len() ==> series[i] == series[j]
}

/// Whether all values of a series lie above zero, as prices do.
pub open spec fn is_positive_series(series: Seq<i64>) -> bool {
    forall|i: int| 0 <= i < series.len() ==> series[i] > 0
}

/// Whether a series has no variance: whether all its values are one value.
pub fn is_constant(series: &[i64]) -> (constant: bool)
    ensures
        constant == is_constant_series(series@),
{
    let mut i: usize = 1;
    while i < series.len()
        invariant
            1 <= i,
            forall|j: int| 0 <= j < i && j < series@.len() ==> #[trigger] series@[j] == series@[0],
        decreases series@.len() - i,
    {
        if series[i] != series[0] {
            return false;
        }
        i = i + 1;
    }
    true
}

/// Whether every value of a series has a logarithm.
pub fn is_positive(series: &[i64]) -> (positive: bool)
    ensures
        positive == is_positive_series(series@),
{
    let mut i: usize = 0;
    while i < series.len()
        invariant
            forall|j: int| 0 <= j < i && j < series@.len() ==> #[trigger] series@[j] > 0,
        decreases series@.len() - i,
    {
        if series[i] <= 0 {
            return false;
        }
        i = i + 1;
    }
    true
}

/// Whether two series have a correlation: they are of one length, at least
/// two long, and neither is constant. Without variance in either series the
/// quotient that defines the correlation has no denominator.
pub open spec fn has_correlation_spec(x: Seq<i64>, y: Seq<i64>) -> bool {
    x.len() == y.len() && x.len() >= 2 && !is_constant_series(x) && !is_constant_series(y)
}

/// Whether two series have a correlation. Where they have, both have
/// variance.
pub fn has_correlation(x: &[i64], y: &[i64]) -> (defined: bool)
    ensures
        defined == has_correlation_spec(x@, y@),
        defined ==> normal_determinant(x@) > 0 && normal_determinant(y@) > 0,
{
    proof {
        lemma_normal_matrix_is_singular_iff_constant(x@);
        lemma_normal_matrix_is_singular_iff_constant(y@);
    }
    x.len() == y.len() && x.len() >= 2 && !is_constant(x) && !is_constant(y)
}

/// A regression of one series on an intercept and another series.
pub struct OLSRegression {}

impl OLSRegression {
    /// Whether the regression of `y` on an intercept and `x` has one
    /// solution: the series are of one length, at least two long, and `x` is
    /// not constant. A constant regressor cannot be told from the intercept.
    pub open spec fn has_solution_spec(y: Seq<i64>, x: Seq<i64>) -> bool {
        y.len() == x.len() && y.len() >= 2 && !is_constant_series(x)
    }

    /// Whether the regression of `y` on an intercept and `x` has one
    /// solution: whether the series fit and the normal matrix has an inverse.
    pub fn has_solution(y: &[i64], x: &[i64]) -> (solvable: bool)
        ensures
            solvable == Self::has_solution_spec(y@, x@),
            solvable == (y@.len() == x@.len() && y@.len() >= 2 && normal_determinant(x@) != 0),
    {
        proof {
            lemma_normal_matrix_is_singular_iff_constant(x@);
        }
        y.len() == x.len() && y.len() >= 2 && !is_constant(x)
    }
}

/// The sum of a series.
pub open spec fn series_sum(series: Seq<i64>) -> int
    decreases series.len(),
{
    if series.len() == 0 {
        0
    } else {
        series_sum(series.drop_last()) + series.last()
    }
}

/// The sum of the squares of a series.
pub open spec fn series_sum_of_squares(series: Seq<i64>) -> int
    decreases series.len(),
{
    if series.len() == 0 {
        0
    } else {
        series_sum_of_squares(series.drop_last()) + series.last() * series.last()
    }
}

/// The sum of the squared distances of a series from a value.
pub open spec fn squared_distance(series: Seq<i64>, from: int) -> int
    decreases series.len(),
{
    if series.len() == 0 {
        0
    } else {
        squared_distance(series.drop_last(), from) + (series.last() - from) * (series.last()
            - from)
    }
}

/// The determinant of the normal matrix `X^T.X` of a regression on an
/// intercept and `x`: of the matrix with the length of `x` and the sum of its
/// squares on the diagonal and its sum in the two other places. It is also
/// the variance of `x` times the square of its length.
pub open spec fn normal_determinant(x: Seq<i64>) -> int {
    x.len() * series_sum_of_squares(x) - series_sum(x) * series_sum(x)
}

proof fn lemma_squared_distance(series: Seq<i64>, from: int)
    ensures
        squared_distance(series, from) == series_sum_of_squares(series) - 2 * from * series_sum(
            series,
        ) + series.len() * (from * from),
        squared_distance(series, from) >= 0,
        squared_distance(series, from) == 0 <==> forall|i: int|
            0 <= i < series.len() ==> series[i] == from,
    decreases series.len(),
{
    if series.len() > 0 {
        let rest = series.drop_last();
        let last = series.last() as int;
        lemma_squared_distance(rest, from);
        let square = (last - from) * (last - from);
        assert(square >= 0) by (nonlinear_arith)
            requires
                square == (last - from) * (last - from),
        ;
        assert(square == 0 <==> last == from) by (nonlinear_arith)
            requires
                square == (last - from) * (last - from),
        ;
        assert(square == last * last - 2 * from * last + from * from) by (nonlinear_arith)
            requires
                square == (last - from) * (last - from),
        ;
        assert(2 * from * (series_sum(rest) + last) == 2 * from * series_sum(rest) + 2 * from
            * last) by (nonlinear_arith);
        assert(series.len() * (from * from) == rest.len() * (from * from) + from * from)
            by (nonlinear_arith)
            requires
                series.len() == rest.len() + 1,
        ;
        if squared_distance(series, from) == 0 {
            assert forall|i: int| 0 <= i < series.len() implies series[i] == from by {
                if i < rest.len() {
                    assert(rest[i] == series[i]);
                }
            }
        }
        if forall|i: int| 0 <= i < series.len() ==> series[i] == from {
            assert forall|i: int| 0 <= i < rest.len() implies rest[i] == from by {
                assert(rest[i] == series[i]);
            }
        }
    }
}

/// The normal matrix of a regression on an intercept and `x` has no inverse
/// exactly where `x` is constant: its determinant is never negative, and it
/// is zero for a constant `x` and for no other.
pub proof fn lemma_normal_matrix_is_singular_iff_constant(x: Seq<i64>)
    ensures
        normal_determinant(x) >= 0,
        normal_determinant(x) == 0 <==> is_constant_series(x),
    decreases x.len(),
{
    if x.len() > 0 {
        let rest = x.drop_last();
        let last = x.last() as int;
        let count = rest.len() as int;
        let sum = series_sum(rest);
        let squares = series_sum_of_squares(rest);
        lemma_normal_matrix_is_singular_iff_constant(rest);
        lemma_squared_distance(rest, last);
        assert(normal_determinant(x) == normal_determinant(rest) + squared_distance(rest, last))
            by (nonlinear_arith)
            requires
                normal_determinant(x) == (count + 1) * (squares + last * last) - (sum + last) * (
                sum + last),
                normal_determinant(rest) == count * squares - sum * sum,
                squared_distance(rest, last) == squares - 2 * last * sum + count * (last * last),
        ;
        if normal_determinant(x) == 0 {
            assert forall|i: int, j: int| 0 <= i < x.len() && 0 <= j < x.len() implies x[i]
                == x[j] by {
                if i < rest.len() {
                    assert(rest[i] == x[i]);
                }
                if j < rest.len() {
                    assert(rest[j] == x[j]);
                }
            }
        }
        if is_constant_series(x) {
            assert forall|i: int| 0 <= i < rest.len() implies rest[i] == last by {
                assert(rest[i] == x[i]);
            }
            assert forall|i: int, j: int| 0 <= i < rest.len() && 0 <= j < rest.len() implies rest[i]
                == rest[j] by {
                assert(rest[i] == x[i]);
                assert(rest[j] == x[j]);
            }
        }
    }
}

} // verus!
