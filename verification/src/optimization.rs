//! Parameter grids for strategy optimisation, the windows of walk-forward
//! validation, and the naming of stored optimisation runs.
use vstd::prelude::*;

verus! {

/// The values one parameter takes in a search.
pub struct ParamRange<V> {
    pub name: String,
    pub values: Vec<V>,
}

/// A parameter combination: one value per parameter, in the order in which
/// the parameters were added.
pub open spec fn combo_views<V>(c: Seq<Vec<V>>) -> Seq<Seq<V>> {
    c.map_values(|x: Vec<V>| x@)
}

/// Each combination of `combos` extended by each value of `values`, the
/// values of the new parameter varying fastest.
pub open spec fn extend_each<V>(combos: Seq<Seq<V>>, values: Seq<V>) -> Seq<Seq<V>>
    decreases combos.len(),
{
    if combos.len() == 0 {
        Seq::empty()
    } else {
        extend_each(combos.drop_last(), values) + values.map_values(
            |v: V| combos.last().push(v),
        )
    }
}

/// Every combination of one value per axis, in lexicographic order (the last
/// axis varying fastest). With no axis there is one, empty, combination.
pub open spec fn grid<V>(axes: Seq<Seq<V>>) -> Seq<Seq<V>>
    decreases axes.len(),
{
    if axes.len() == 0 {
        seq![Seq::empty()]
    } else {
        extend_each(grid(axes.drop_last()), axes.last())
    }
}

/// The product of the axis lengths.
pub open spec fn product(lens: Seq<nat>) -> nat
    decreases lens.len(),
{
    if lens.len() == 0 {
        1
    } else {
        product(lens.drop_last()) * lens.last()
    }
}

/// The values of each axis.
pub open spec fn axes_of<V>(ranges: Seq<ParamRange<V>>) -> Seq<Seq<V>> {
    ranges.map_values(|r: ParamRange<V>| r.values@)
}

/// Every partial product of `lens` fits in a `usize`.
pub open spec fn products_fit(lens: Seq<nat>) -> bool {
    forall|i: int| 0 <= i <= lens.len() ==> #[trigger] product(lens.take(i)) <= usize::MAX
}

/// The length of each axis.
pub open spec fn lens_of<V>(axes: Seq<Seq<V>>) -> Seq<nat> {
    axes.map_values(|a: Seq<V>| a.len())
}

proof fn lemma_extend_each_len<V>(combos: Seq<Seq<V>>, values: Seq<V>)
    ensures
        extend_each(combos, values).len() == combos.len() * values.len(),
    decreases combos.len(),
{
    if combos.len() > 0 {
        lemma_extend_each_len(combos.drop_last(), values);
        let n = combos.len();
        let m = values.len();
        assert((n - 1) * m + m == n * m) by (nonlinear_arith);
    }
}

proof fn lemma_grid_len<V>(axes: Seq<Seq<V>>)
    ensures
        grid(axes).len() == product(lens_of(axes)),
    decreases axes.len(),
{
    if axes.len() > 0 {
        lemma_grid_len(axes.drop_last());
        assert(lens_of(axes.drop_last()) =~= lens_of(axes).drop_last());
        lemma_extend_each_len(grid(axes.drop_last()), axes.last());
    }
}


/// Searches every combination of parameter values.
pub struct GridSearchOptimizer<V> {
    param_ranges: Vec<ParamRange<V>>,
}

impl<V: Copy> GridSearchOptimizer<V> {
    /// The searched parameters, in the order they were added.
    pub closed spec fn ranges(&self) -> Seq<ParamRange<V>> {
        self.param_ranges@
    }

    /// The value axes of the search.
    pub open spec fn axes(&self) -> Seq<Seq<V>> {
        axes_of(self.ranges())
    }

    /// An optimizer with no parameter.
    pub fn new() -> (o: Self)
        ensures
            o.ranges().len() == 0,
    {
        GridSearchOptimizer { param_ranges: Vec::new() }
    }

    /// Adds a parameter with its values; returns the optimizer for chaining.
    pub fn add_param(&mut self, name: &str, values: Vec<V>) -> (r: &mut Self)
        ensures
            r.ranges().len() == old(self).ranges().len() + 1,
            r.ranges().drop_last() == old(self).ranges(),
            r.ranges().last().name@ == name@,
            r.ranges().last().values@ == values@,
            *final(self) == *final(r),
    {
        self.param_ranges.push(ParamRange { name: name.to_string(), values });
        assert(self.param_ranges@.drop_last() =~= old(self).param_ranges@);
        self
    }

    /// The names of the parameters, in order.
    pub fn param_names(&self) -> (v: Vec<String>)
        ensures
            v@.len() == self.ranges().len(),
            forall|i: int| 0 <= i < v@.len() ==> #[trigger] v@[i]@ == self.ranges()[i].name@,
    {
        let mut v: Vec<String> = Vec::new();
        let mut i: usize = 0;
        while i < self.param_ranges.len()
            invariant
                i <= self.param_ranges@.len(),
                v@.len() == i,
                forall|j: int| 0 <= j < i ==> #[trigger] v@[j]@ == self.param_ranges@[j].name@,
            decreases self.param_ranges@.len() - i,
        {
            v.push(self.param_ranges[i].name.clone());
            i = i + 1;
        }
        v
    }

    /// The number of combinations the search visits: the product of the
    /// value counts, and 0 when no parameter was added.
    pub fn total_combinations(&self) -> (n: usize)
        requires
            products_fit(lens_of(self.axes())),
        ensures
            self.ranges().len() == 0 ==> n == 0,
            self.ranges().len() > 0 ==> n == product(lens_of(self.axes())),
    {
        if self.param_ranges.len() == 0 {
            return 0;
        }
        let ghost lens = lens_of(self.axes());
        let mut total: usize = 1;
        let mut i: usize = 0;
        while i < self.param_ranges.len()
            invariant
                i <= self.param_ranges@.len(),
                lens == lens_of(axes_of(self.param_ranges@)),
                products_fit(lens),
                total == product(lens.take(i as int)),
            decreases self.param_ranges@.len() - i,
        {
            let len = self.param_ranges[i].values.len();
            assert(lens.take(i + 1).drop_last() =~= lens.take(i as int));
            assert(product(lens.take(i + 1)) <= usize::MAX);
            total = total * len;
            i = i + 1;
        }
        assert(lens.take(i as int) =~= lens);
        total
    }

    /// Every combination of one value per parameter, in lexicographic order
    /// of value positions (the last parameter varying fastest). With no
    /// parameter there is exactly one, empty, combination.
    pub fn generate_combinations(&self) -> (c: Vec<Vec<V>>)
        ensures
            combo_views(c@) == grid(self.axes()),
    {
        let mut combinations: Vec<Vec<V>> = Vec::new();
        combinations.push(Vec::new());
        assert(combo_views(combinations@) =~= grid(axes_of(self.param_ranges@).take(0)));
        let mut i: usize = 0;
        while i < self.param_ranges.len()
            invariant
                i <= self.param_ranges@.len(),
                combo_views(combinations@) == grid(axes_of(self.param_ranges@).take(i as int)),
            decreases self.param_ranges@.len() - i,
        {
            let values = &self.param_ranges[i].values;
            let ghost axes = axes_of(self.param_ranges@).take(i as int + 1);
            assert(axes.drop_last() =~= axes_of(self.param_ranges@).take(i as int));
            assert(axes.last() == values@);
            let mut next: Vec<Vec<V>> = Vec::new();
            let mut j: usize = 0;
            while j < combinations.len()
                invariant
                    j <= combinations@.len(),
                    combo_views(next@) == extend_each(
                        combo_views(combinations@).take(j as int),
                        values@,
                    ),
                decreases combinations@.len() - j,
            {
                let ghost before = combo_views(next@);
                let mut t: usize = 0;
                while t < values.len()
                    invariant
                        j < combinations@.len(),
                        t <= values@.len(),
                        combo_views(next@) == before + values@.take(t as int).map_values(
                            |v: V| combinations@[j as int]@.push(v),
                        ),
                    decreases values@.len() - t,
                {
                    let ghost prev = combo_views(next@);
                    let mut combo = copy_values(&combinations[j]);
                    combo.push(values[t]);
                    let ghost cv = combo@;
                    next.push(combo);
                    assert(combo_views(next@) =~= prev.push(cv));
                    assert(values@.take(t + 1).map_values(|v: V| combinations@[j as int]@.push(v))
                        =~= values@.take(t as int).map_values(
                        |v: V| combinations@[j as int]@.push(v),
                    ).push(combinations@[j as int]@.push(values@[t as int])));
                    assert(combo_views(next@) =~= before + values@.take(t + 1).map_values(
                        |v: V| combinations@[j as int]@.push(v),
                    ));
                    t = t + 1;
                }
                let ghost cs = combo_views(combinations@).take(j + 1);
                assert(cs.drop_last() =~= combo_views(combinations@).take(j as int));
                assert(values@.take(t as int) =~= values@);
                assert(combo_views(next@) =~= extend_each(cs, values@));
                j = j + 1;
            }
            assert(combo_views(combinations@).take(j as int) =~= combo_views(combinations@));
            combinations = next;
            i = i + 1;
        }
        assert(axes_of(self.param_ranges@).take(i as int) =~= axes_of(self.param_ranges@));
        combinations
    }
}



/// A copy of a combination.
fn copy_values<V: Copy>(v: &Vec<V>) -> (c: Vec<V>)
    ensures
        c@ == v@,
{
    let mut c: Vec<V> = Vec::new();
    let mut i: usize = 0;
    while i < v.len()
        invariant
            i <= v@.len(),
            c@ == v@.take(i as int),
        decreases v@.len() - i,
    {
        c.push(v[i]);
        assert(c@ =~= v@.take(i + 1));
        i = i + 1;
    }
    assert(v@.take(i as int) =~= v@);
    c
}

/// A grid visits as many combinations as the product of its value counts:
/// the count that `total_combinations` reports, except for the grid with no
/// parameter, which visits its one empty combination.
pub proof fn law_grid_size<V>(axes: Seq<Seq<V>>)
    ensures
        grid(axes).len() == product(lens_of(axes)),
        axes.len() == 0 ==> grid(axes) == seq![Seq::<V>::empty()],
{
    lemma_grid_len(axes);
}

/// The rows of one walk-forward window: training on
/// `train_start..train_end`, testing on `test_start..test_end`.
#[derive(Debug, Clone, Copy, PartialEq, Eq, Structural)]
pub struct WindowBounds {
    pub train_start: usize,
    pub train_end: usize,
    pub test_start: usize,
    pub test_end: usize,
}

/// The window whose training block starts at `start`.
pub open spec fn window_at(start: nat, in_len: nat, out_len: nat) -> WindowBounds {
    WindowBounds {
        train_start: start as usize,
        train_end: (start + in_len) as usize,
        test_start: (start + in_len) as usize,
        test_end: (start + in_len + out_len) as usize,
    }
}

/// The windows from `start` on, each `step` rows after the last, as long as
/// a whole window fits in `total` rows. None when a block is empty; a zero
/// step, which would never advance, gives the first window alone.
pub open spec fn windows_from(start: nat, total: nat, in_len: nat, out_len: nat, step: nat) -> Seq<
    WindowBounds,
>
    decreases (if start <= total {
        total - start
    } else {
        0
    }),
{
    if in_len == 0 || out_len == 0 || start + in_len + out_len > total {
        Seq::empty()
    } else if step == 0 {
        seq![window_at(start, in_len, out_len)]
    } else {
        seq![window_at(start, in_len, out_len)] + windows_from(
            start + step,
            total,
            in_len,
            out_len,
            step,
        )
    }
}

/// Plans walk-forward validation over `total` rows: windows of `in_len`
/// training rows followed by `out_len` test rows, the first at row 0 and
/// each next one `step` rows later, as long as a whole window fits. No
/// window when either block is empty; with a zero step, only the first.
pub fn walk_forward_plan(total: usize, in_len: usize, out_len: usize, step: usize) -> (r: Vec<
    WindowBounds,
>)
    ensures
        r@ == windows_from(0, total as nat, in_len as nat, out_len as nat, step as nat),
{
    let mut windows: Vec<WindowBounds> = Vec::new();
    if in_len == 0 || out_len == 0 {
        return windows;
    }
    let ghost all = windows_from(0, total as nat, in_len as nat, out_len as nat, step as nat);
    let mut start: usize = 0;
    while start <= total && in_len <= total - start && out_len <= total - start - in_len
        invariant
            in_len > 0,
            out_len > 0,
            all == windows_from(0, total as nat, in_len as nat, out_len as nat, step as nat),
            all == windows@ + windows_from(
                start as nat,
                total as nat,
                in_len as nat,
                out_len as nat,
                step as nat,
            ),
        decreases (if start <= total {
            total + 1 - start
        } else {
            0
        }),
    {
        let train_end = start + in_len;
        let test_end = train_end + out_len;
        let ghost rest = windows_from(
            start as nat,
            total as nat,
            in_len as nat,
            out_len as nat,
            step as nat,
        );
        windows.push(
            WindowBounds { train_start: start, train_end, test_start: train_end, test_end },
        );
        if step == 0 {
            assert(all =~= windows@);
            return windows;
        }
        if step > usize::MAX - start {
            assert(windows_from(
                (start + step) as nat,
                total as nat,
                in_len as nat,
                out_len as nat,
                step as nat,
            ) =~= Seq::empty());
            assert(all =~= windows@);
            return windows;
        }
        assert(all =~= windows@ + windows_from(
            (start + step) as nat,
            total as nat,
            in_len as nat,
            out_len as nat,
            step as nat,
        ));
        start = start + step;
    }
    assert(windows_from(
        start as nat,
        total as nat,
        in_len as nat,
        out_len as nat,
        step as nat,
    ) =~= Seq::empty());
    assert(all =~= windows@);
    windows
}

proof fn lemma_windows_from(start: nat, total: nat, in_len: nat, out_len: nat, step: nat)
    requires
        in_len > 0,
        out_len > 0,
        step > 0,
        total <= usize::MAX,
    ensures
        forall|i: int|
            0 <= i < windows_from(start, total, in_len, out_len, step).len() ==> #[trigger] windows_from(
                start,
                total,
                in_len,
                out_len,
                step,
            )[i] == window_at((start + i * step) as nat, in_len, out_len) && start + i * step
                + in_len + out_len <= total,
        start + windows_from(start, total, in_len, out_len, step).len() * step + in_len + out_len
            > total,
    decreases (if start <= total {
        total - start
    } else {
        0
    }),
{
    let w = windows_from(start, total, in_len, out_len, step);
    if start + in_len + out_len <= total {
        lemma_windows_from(start + step, total, in_len, out_len, step);
        let rest = windows_from(start + step, total, in_len, out_len, step);
        assert forall|i: int| 0 <= i < w.len() implies #[trigger] w[i] == window_at(
            (start + i * step) as nat,
            in_len,
            out_len,
        ) && start + i * step + in_len + out_len <= total by {
            if i > 0 {
                assert(w[i] == rest[i - 1]);
                assert(start + step + (i - 1) * step == start + i * step) by (nonlinear_arith);
            }
        }
        assert(start + step + rest.len() * step == start + w.len() * step) by (nonlinear_arith)
            requires
                w.len() == rest.len() + 1,
        ;
    }
}

/// Walk-forward windows never test on the rows they train on and never look
/// ahead: each window trains on `in_len` rows, tests on the `out_len` rows
/// right after them, lies within the data, and starts `step` rows after the
/// one before it, the first at row 0; the windows stop at the last that
/// fits.
pub proof fn law_walk_forward_windows(total: usize, in_len: usize, out_len: usize, step: usize)
    requires
        in_len > 0,
        out_len > 0,
        step > 0,
    ensures
        ({
            let w = windows_from(0, total as nat, in_len as nat, out_len as nat, step as nat);
            &&& forall|i: int|
                0 <= i < w.len() ==> {
                    &&& #[trigger] w[i].train_start == i * step
                    &&& w[i].train_end == w[i].train_start + in_len
                    &&& w[i].test_start == w[i].train_end
                    &&& w[i].test_end == w[i].test_start + out_len
                    &&& w[i].test_end <= total
                }
            &&& w.len() * step + in_len + out_len > total
        }),
{
    lemma_windows_from(0, total as nat, in_len as nat, out_len as nat, step as nat);
}

} // verus!
