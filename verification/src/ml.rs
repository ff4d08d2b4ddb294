//! Feature selection, trading-agent vocabulary, random baseline agent and
//! the integer bookkeeping of model evaluation.
use vstd::prelude::*;
use vstd::string::*;
use crate::http_client::{symbols_of, views};
use crate::text::{
    ascii_lower, find_char_from, first_or_len, lemma_first_or_len, str_eq, to_ascii_lowercase, trim,
    trim_str,
};

verus! {

/// Errors of feature engineering, training and evaluation.
#[derive(Debug, Clone)]
pub enum MlError {
    InvalidConfig(String),
    InvalidInput(String),
    NoData(String),
    Compute(String),
    Store(String),
    Training(String),
    Prediction(String),
    Onnx(String),
}

/// Which technical indicators to compute.
#[derive(Debug, Clone, Copy, PartialEq, Eq, Structural)]
pub struct IndicatorSelection {
    pub rsi: bool,
    pub macd: bool,
    pub bb: bool,
    pub atr: bool,
}

/// Every indicator.
pub open spec fn all_indicators() -> IndicatorSelection {
    IndicatorSelection { rsi: true, macd: true, bb: true, atr: true }
}

/// Applies the tokens of a selection list in order to `acc`: `all` selects
/// everything at once, `rsi`, `macd`, `bb`/`bollinger` and `atr` add one
/// indicator, and any other token is refused (reported as `Err(token)`).
pub open spec fn apply_tokens(tokens: Seq<Seq<char>>, acc: IndicatorSelection) -> Result<IndicatorSelection, Seq<char>>
    decreases tokens.len(),
{
    if tokens.len() == 0 {
        Ok(acc)
    } else {
        let t = tokens[0];
        let rest = tokens.drop_first();
        if t == "all"@ {
            Ok(all_indicators())
        } else if t == "rsi"@ {
            apply_tokens(rest, IndicatorSelection { rsi: true, ..acc })
        } else if t == "macd"@ {
            apply_tokens(rest, IndicatorSelection { macd: true, ..acc })
        } else if t == "bb"@ || t == "bollinger"@ {
            apply_tokens(rest, IndicatorSelection { bb: true, ..acc })
        } else if t == "atr"@ {
            apply_tokens(rest, IndicatorSelection { atr: true, ..acc })
        } else {
            Err(t)
        }
    }
}

/// Each known token selects exactly its own indicator: applying a list made
/// only of `rsi`, `macd`, `bb`, `bollinger` and `atr` to a selection adds
/// RSI exactly when `rsi` occurs, MACD exactly when `macd` occurs, Bollinger
/// bands exactly when `bb` or `bollinger` occurs and ATR exactly when `atr`
/// occurs, and leaves everything already selected in place.
pub proof fn law_tokens_select_their_indicators(tokens: Seq<Seq<char>>, acc: IndicatorSelection)
    requires
        forall|i: int|
            0 <= i < tokens.len() ==> {
                let t = #[trigger] tokens[i];
                t == "rsi"@ || t == "macd"@ || t == "bb"@ || t == "bollinger"@ || t == "atr"@
            },
    ensures
        apply_tokens(tokens, acc) == Ok::<IndicatorSelection, Seq<char>>(
            IndicatorSelection {
                rsi: acc.rsi || tokens.contains("rsi"@),
                macd: acc.macd || tokens.contains("macd"@),
                bb: acc.bb || tokens.contains("bb"@) || tokens.contains("bollinger"@),
                atr: acc.atr || tokens.contains("atr"@),
            },
        ),
    decreases tokens.len(),
{
    if tokens.len() > 0 {
        reveal_strlit("all");
        reveal_strlit("rsi");
        reveal_strlit("macd");
        reveal_strlit("bb");
        reveal_strlit("bollinger");
        reveal_strlit("atr");
        assert("rsi"@ != "all"@) by {
            assert("rsi"@[0] != "all"@[0]);
        }
        assert("macd"@ != "all"@) by {
            assert("macd"@.len() != "all"@.len());
        }
        assert("macd"@ != "rsi"@) by {
            assert("macd"@.len() != "rsi"@.len());
        }
        assert("bb"@ != "all"@) by {
            assert("bb"@.len() != "all"@.len());
        }
        assert("bb"@ != "rsi"@) by {
            assert("bb"@.len() != "rsi"@.len());
        }
        assert("bb"@ != "macd"@) by {
            assert("bb"@.len() != "macd"@.len());
        }
        assert("bollinger"@ != "all"@) by {
            assert("bollinger"@.len() != "all"@.len());
        }
        assert("bollinger"@ != "rsi"@) by {
            assert("bollinger"@.len() != "rsi"@.len());
        }
        assert("bollinger"@ != "macd"@) by {
            assert("bollinger"@.len() != "macd"@.len());
        }
        assert("bollinger"@ != "bb"@) by {
            assert("bollinger"@.len() != "bb"@.len());
        }
        assert("atr"@ != "all"@) by {
            assert("atr"@[1] != "all"@[1]);
        }
        assert("atr"@ != "rsi"@) by {
            assert("atr"@[0] != "rsi"@[0]);
        }
        assert("atr"@ != "macd"@) by {
            assert("atr"@.len() != "macd"@.len());
        }
        assert("atr"@ != "bb"@) by {
            assert("atr"@.len() != "bb"@.len());
        }
        assert("atr"@ != "bollinger"@) by {
            assert("atr"@.len() != "bollinger"@.len());
        }
        let t = tokens[0];
        let rest = tokens.drop_first();
        assert forall|x: Seq<char>| tokens.contains(x) <==> (t == x || rest.contains(x)) by {
            if tokens.contains(x) && t != x {
                let i = choose|i: int| 0 <= i < tokens.len() && tokens[i] == x;
                assert(rest[i - 1] == x);
            }
            if rest.contains(x) {
                let i = choose|i: int| 0 <= i < rest.len() && rest[i] == x;
                assert(tokens[i + 1] == x);
            }
            if t == x {
                assert(tokens[0] == x);
            }
        }
        assert forall|i: int| 0 <= i < rest.len() implies {
            let u = #[trigger] rest[i];
            u == "rsi"@ || u == "macd"@ || u == "bb"@ || u == "bollinger"@ || u == "atr"@
        } by {
            assert(rest[i] == tokens[i + 1]);
        }
        let next = if t == "rsi"@ {
            IndicatorSelection { rsi: true, ..acc }
        } else if t == "macd"@ {
            IndicatorSelection { macd: true, ..acc }
        } else if t == "bb"@ || t == "bollinger"@ {
            IndicatorSelection { bb: true, ..acc }
        } else {
            IndicatorSelection { atr: true, ..acc }
        };
        assert(apply_tokens(tokens, acc) == apply_tokens(rest, next));
        law_tokens_select_their_indicators(rest, next);
    }
}

/// The selection a comma-separated list names: the list is trimmed and
/// ASCII lower-cased; empty or `all` selects everything.
pub open spec fn selection_of(raw: Seq<char>) -> Result<IndicatorSelection, Seq<char>> {
    let lowered = ascii_lower(trim(raw));
    if lowered.len() == 0 || lowered == "all"@ {
        Ok(all_indicators())
    } else {
        apply_tokens(
            symbols_of(lowered),
            IndicatorSelection { rsi: false, macd: false, bb: false, atr: false },
        )
    }
}

/// The message refusing an unknown indicator.
pub open spec fn unsupported_indicator_message(token: Seq<char>) -> Seq<char> {
    "unsupported indicator '"@ + token + "'. Valid values: all,rsi,macd,bb,atr"@
}

impl IndicatorSelection {
    /// Every indicator.
    pub fn all() -> (s: Self)
        ensures
            s == all_indicators(),
    {
        IndicatorSelection { rsi: true, macd: true, bb: true, atr: true }
    }

    /// Parses a selection such as `rsi, MACD,bb`.
    pub fn from_csv(raw: &str) -> (r: Result<Self, MlError>)
        ensures
            match selection_of(raw@) {
                Ok(s) => r == Ok::<Self, MlError>(s),
                Err(t) => r matches Err(MlError::InvalidInput(m)) && m@ == unsupported_indicator_message(t),
            },
    {
        let lowered = to_ascii_lowercase(trim_str(raw));
        let l = lowered.as_str();
        if l.unicode_len() == 0 || str_eq(l, "all") {
            return Ok(Self::all());
        }
        let tokens = split_tokens(l);
        let mut sel = IndicatorSelection { rsi: false, macd: false, bb: false, atr: false };
        let n = tokens.len();
        let mut i: usize = 0;
        assert(views(tokens@).skip(0) =~= views(tokens@));
        assert(selection_of(raw@) == apply_tokens(
            views(tokens@),
            IndicatorSelection { rsi: false, macd: false, bb: false, atr: false },
        ));
        while i < n
            invariant
                n == tokens@.len(),
                selection_of(raw@) == apply_tokens(
                    views(tokens@),
                    IndicatorSelection { rsi: false, macd: false, bb: false, atr: false },
                ),
                i <= n,
                views(tokens@) == symbols_of(lowered@),
                apply_tokens(views(tokens@), IndicatorSelection { rsi: false, macd: false, bb: false, atr: false })
                    == apply_tokens(views(tokens@).skip(i as int), sel),
            decreases n - i,
        {
            let ghost rest = views(tokens@).skip(i as int);
            assert(rest[0] == tokens@[i as int]@);
            assert(rest.drop_first() =~= views(tokens@).skip(i + 1));
            let t = tokens[i].as_str();
            if str_eq(t, "all") {
                return Ok(Self::all());
            } else if str_eq(t, "rsi") {
                sel.rsi = true;
            } else if str_eq(t, "macd") {
                sel.macd = true;
            } else if str_eq(t, "bb") || str_eq(t, "bollinger") {
                sel.bb = true;
            } else if str_eq(t, "atr") {
                sel.atr = true;
            } else {
                let mut m = String::from_str("unsupported indicator '");
                m.append(t);
                m.append("'. Valid values: all,rsi,macd,bb,atr");
                return Err(MlError::InvalidInput(m));
            }
            i = i + 1;
        }
        assert(views(tokens@).skip(n as int) =~= Seq::<Seq<char>>::empty());
        Ok(sel)
    }
}

/// The non-empty trimmed pieces of a comma-separated list.
pub fn split_tokens(s: &str) -> (r: Vec<String>)
    ensures
        views(r@) == symbols_of(s@),
{
    let n = s.unicode_len();
    let mut out: Vec<String> = Vec::new();
    let mut pos: usize = 0;
    assert(s@.skip(0) =~= s@);
    assert(views(out@) + symbols_of(s@) =~= symbols_of(s@));
    while pos <= n
        invariant
            n == s@.len(),
            pos <= n,
            views(out@) + symbols_of(s@.skip(pos as int)) == symbols_of(s@),
        decreases n - pos,
    {
        let ghost rest = s@.skip(pos as int);
        let e = find_char_from(s, ',', pos);
        let piece = s.substring_char(pos, e);
        assert(piece@ =~= rest.take((e - pos) as int));
        let t = trim_str(piece);
        let ghost before = out@;
        if t.unicode_len() > 0 {
            out.push(String::from_str(t));
            assert(views(out@) =~= views(before) + seq![t@]);
        }
        if e == n {
            assert(views(out@) == symbols_of(s@)) by {
                assert(symbols_of(rest) == if t@.len() == 0 {
                    Seq::<Seq<char>>::empty()
                } else {
                    seq![t@] + Seq::<Seq<char>>::empty()
                });
                if t@.len() == 0 {
                    assert(views(before) + Seq::<Seq<char>>::empty() =~= views(before));
                } else {
                    assert(views(before) + (seq![t@] + Seq::<Seq<char>>::empty()) =~= views(out@));
                }
            }
            return out;
        }
        assert(rest.skip((e - pos) + 1) =~= s@.skip(e + 1));
        proof {
            let tail = symbols_of(s@.skip(e + 1));
            if t@.len() > 0 {
                assert(views(before) + (seq![t@] + tail) =~= views(out@) + tail);
            }
        }
        pos = e + 1;
    }
    out
}

} // verus!

verus! {

/// A trading action.
#[derive(Clone, Copy, Debug, PartialEq, Eq, Structural, Hash)]
pub enum Action {
    Hold,
    Buy,
    Sell,
}

impl Action {
    /// Every action: hold, buy, sell.
    pub fn all() -> (a: [Action; 3])
        ensures
            a@ == seq![Action::Hold, Action::Buy, Action::Sell],
    {
        let a = [Action::Hold, Action::Buy, Action::Sell];
        assert(a@ =~= seq![Action::Hold, Action::Buy, Action::Sell]);
        a
    }
}

/// A trading position.
#[derive(Clone, Copy, Debug, PartialEq, Eq, Structural, Hash)]
pub enum Position {
    Flat,
    Long,
    Short,
}

/// Direction of the price since the last observation.
#[derive(Clone, Copy, Debug, PartialEq, Eq, Structural, Hash)]
pub enum PriceChangeBucket {
    Up,
    Flat,
    Down,
}

/// Position as the agent's state sees it.
#[derive(Clone, Copy, Debug, PartialEq, Eq, Structural, Hash)]
pub enum PositionBucket {
    Flat,
    Long,
    Short,
}

/// Whether the balance is at or above its starting value.
#[derive(Clone, Copy, Debug, PartialEq, Eq, Structural, Hash)]
pub enum BalanceBucket {
    Above,
    Below,
}

/// The discretised state a tabular agent learns over.
#[derive(Clone, Copy, Debug, PartialEq, Eq, Structural, Hash)]
pub struct StateKey {
    pub price_change: PriceChangeBucket,
    pub position: PositionBucket,
    pub balance: BalanceBucket,
}

/// An action as a table key.
#[derive(Clone, Copy, Debug, PartialEq, Eq, Structural, Hash)]
pub enum ActionKey {
    Hold,
    Buy,
    Sell,
}

/// The table key of an action.
pub open spec fn action_key(a: Action) -> ActionKey {
    match a {
        Action::Hold => ActionKey::Hold,
        Action::Buy => ActionKey::Buy,
        Action::Sell => ActionKey::Sell,
    }
}

/// The bucket of a position.
pub open spec fn position_bucket(p: Position) -> PositionBucket {
    match p {
        Position::Flat => PositionBucket::Flat,
        Position::Long => PositionBucket::Long,
        Position::Short => PositionBucket::Short,
    }
}

impl From<Action> for ActionKey {
    fn from(value: Action) -> (r: Self) {
        match value {
            Action::Hold => ActionKey::Hold,
            Action::Buy => ActionKey::Buy,
            Action::Sell => ActionKey::Sell,
        }
    }
}

impl vstd::std_specs::convert::FromSpecImpl<Action> for ActionKey {
    open spec fn obeys_from_spec() -> bool {
        true
    }

    open spec fn from_spec(v: Action) -> ActionKey {
        action_key(v)
    }
}

impl From<Position> for PositionBucket {
    fn from(value: Position) -> (r: Self) {
        match value {
            Position::Flat => PositionBucket::Flat,
            Position::Long => PositionBucket::Long,
            Position::Short => PositionBucket::Short,
        }
    }
}

impl vstd::std_specs::convert::FromSpecImpl<Position> for PositionBucket {
    open spec fn obeys_from_spec() -> bool {
        true
    }

    open spec fn from_spec(v: Position) -> PositionBucket {
        position_bucket(v)
    }
}

#[verifier::external_type_specification]
#[verifier::external_body]
pub struct ExStdRng(rand::rngs::StdRng);

/// What `StdRng::seed_from_u64` gives for a seed: the generator state it
/// expands the seed into, the same for the same seed.
pub uninterp spec fn seeded_generator(seed: u64) -> rand::rngs::StdRng;

/// A random number generator seeded with `seed` (`StdRng::seed_from_u64`).
///
/// Trusted: the state is the crate's expansion of the seed, named
/// `seeded_generator`; nothing more is claimed of it.
#[verifier::external_body]
fn seeded_rng(seed: u64) -> (r: rand::rngs::StdRng)
    ensures
        r == seeded_generator(seed),
{
    <rand::rngs::StdRng as rand::SeedableRng>::seed_from_u64(seed)
}

/// A uniformly drawn index below `n` (`Rng::gen_range(0..n)`).
///
/// The contract states only the range of the result: which index comes out
/// depends on the generator's state.
#[verifier::external_body]
fn random_index(rng: &mut rand::rngs::StdRng, n: usize) -> (r: usize)
    requires
        n > 0,
    ensures
        r < n,
{
    rand::Rng::gen_range(rng, 0..n)
}

/// An agent that picks uniformly among the offered actions.
pub struct RandomAgent {
    rng: rand::rngs::StdRng,
    seed: Ghost<u64>,
}

/// The action at a drawn position among the offered ones.
pub fn pick(actions: &[Action], idx: usize) -> (r: Action)
    requires
        idx < actions@.len(),
    ensures
        r == actions@[idx as int],
{
    actions[idx]
}

impl RandomAgent {
    /// The seed the agent's generator was made from.
    pub closed spec fn seed(&self) -> u64 {
        self.seed@
    }

    /// The agent's generator state.
    pub closed spec fn generator(&self) -> rand::rngs::StdRng {
        self.rng
    }

    /// An agent whose choices are drawn from a generator seeded with `seed`.
    pub fn new(seed: u64) -> (a: Self)
        ensures
            a.seed() == seed,
            a.generator() == seeded_generator(seed),
    {
        RandomAgent { rng: seeded_rng(seed), seed: Ghost(seed) }
    }

    /// One of `actions`, at a uniformly drawn position, or `Hold` when none
    /// is offered.
    pub fn choose_action(&mut self, actions: &[Action]) -> (r: Action)
        ensures
            actions@.len() == 0 ==> r == Action::Hold,
            actions@.len() > 0 ==> actions@.contains(r),
            final(self).seed() == old(self).seed(),
    {
        if actions.len() == 0 {
            return Action::Hold;
        }
        let idx = random_index(&mut self.rng, actions.len());
        let a = pick(actions, idx);
        assert(actions@[idx as int] == a);
        a
    }
}

/// The target a dataset predicts.
#[derive(Debug, Clone, Copy, PartialEq, Eq, Structural)]
pub enum TargetColumn {
    Return1d,
    Return5d,
    Return20d,
}

/// Builds training datasets from feature rows.
pub struct DatasetBuilder;

/// The columns of a dataset, in order.
pub open spec fn feature_name_list() -> Seq<Seq<char>> {
    seq!["rsi"@, "macd"@, "macd_signal"@, "bb_upper"@, "bb_lower"@, "atr"@, "rolling_mean_20"@, "rolling_std_20"@, "lag_1"@, "lag_2"@, "lag_3"@, "rolling_momentum"@]
}

/// Which values a feature row holds: whether every feature column is
/// present, and which forward returns are known.
#[derive(Debug, Clone, Copy, PartialEq, Eq, Structural)]
pub struct RowAvailability {
    pub features_complete: bool,
    pub return_1d: bool,
    pub return_5d: bool,
    pub return_20d: bool,
}

/// Whether a row can enter a dataset that predicts `target`.
pub open spec fn row_usable(r: RowAvailability, target: TargetColumn) -> bool {
    r.features_complete && match target {
        TargetColumn::Return1d => r.return_1d,
        TargetColumn::Return5d => r.return_5d,
        TargetColumn::Return20d => r.return_20d,
    }
}

/// The positions, in order, of the usable rows among the first `n`.
pub open spec fn usable_rows(rows: Seq<RowAvailability>, target: TargetColumn, n: int) -> Seq<usize>
    decreases n,
{
    if n <= 0 {
        Seq::empty()
    } else if row_usable(rows[n - 1], target) {
        usable_rows(rows, target, n - 1).push((n - 1) as usize)
    } else {
        usable_rows(rows, target, n - 1)
    }
}

impl DatasetBuilder {
    pub fn new() -> Self {
        DatasetBuilder
    }

    /// The names of the feature columns, in column order.
    pub fn feature_names(&self) -> (v: Vec<String>)
        ensures
            v@.len() == feature_name_list().len(),
            forall|i: int| 0 <= i < v@.len() ==> #[trigger] v@[i]@ == feature_name_list()[i],
    {
        let mut v: Vec<String> = Vec::new();
        v.push(String::from_str("rsi"));
        v.push(String::from_str("macd"));
        v.push(String::from_str("macd_signal"));
        v.push(String::from_str("bb_upper"));
        v.push(String::from_str("bb_lower"));
        v.push(String::from_str("atr"));
        v.push(String::from_str("rolling_mean_20"));
        v.push(String::from_str("rolling_std_20"));
        v.push(String::from_str("lag_1"));
        v.push(String::from_str("lag_2"));
        v.push(String::from_str("lag_3"));
        v.push(String::from_str("rolling_momentum"));
        proof {
            reveal_strlit("rsi");
            reveal_strlit("macd");
            reveal_strlit("macd_signal");
            reveal_strlit("bb_upper");
            reveal_strlit("bb_lower");
            reveal_strlit("atr");
            reveal_strlit("rolling_mean_20");
            reveal_strlit("rolling_std_20");
            reveal_strlit("lag_1");
            reveal_strlit("lag_2");
            reveal_strlit("lag_3");
            reveal_strlit("rolling_momentum");
        }
        assert(views(v@) =~= feature_name_list());
        v
    }

    /// The rows that enter a dataset predicting `target`: those with every
    /// feature and the target present, in their order. Refuses a dataset
    /// with no such row.
    pub fn select_rows(&self, rows: &[RowAvailability], target: TargetColumn) -> (r: Result<
        Vec<usize>,
        MlError,
    >)
        ensures
            usable_rows(rows@, target, rows@.len() as int).len() == 0 ==> (r matches Err(
                MlError::NoData(m),
            ) && m@ == "no rows with complete features and target"@),
            usable_rows(rows@, target, rows@.len() as int).len() > 0 ==> (r matches Ok(v) && v@
                == usable_rows(rows@, target, rows@.len() as int)),
    {
        let mut kept: Vec<usize> = Vec::new();
        let mut i: usize = 0;
        while i < rows.len()
            invariant
                i <= rows@.len(),
                kept@ == usable_rows(rows@, target, i as int),
            decreases rows@.len() - i,
        {
            let row = rows[i];
            let usable = row.features_complete && match target {
                TargetColumn::Return1d => row.return_1d,
                TargetColumn::Return5d => row.return_5d,
                TargetColumn::Return20d => row.return_20d,
            };
            if usable {
                kept.push(i);
            }
            i = i + 1;
        }
        if kept.len() == 0 {
            let m = String::from_str("no rows with complete features and target");
            proof {
                reveal_strlit("no rows with complete features and target");
            }
            return Err(MlError::NoData(m));
        }
        Ok(kept)
    }
}

/// How many rows train and how many test when `test_count` of `total_rows`
/// rows are held out (the last ones); refuses a split that leaves either
/// side empty.
pub fn train_test_counts(total_rows: usize, test_count: usize) -> (r: Result<(usize, usize), MlError>)
    requires
        test_count <= total_rows,
    ensures
        (test_count == 0 || test_count == total_rows) ==> (r matches Err(MlError::NoData(m)) && m@
            == "insufficient data for train/test split"@),
        (0 < test_count < total_rows) ==> r == Ok::<(usize, usize), MlError>(
            ((total_rows - test_count) as usize, test_count),
        ),
{
    let train_count = total_rows - test_count;
    if train_count == 0 || test_count == 0 {
        let m = String::from_str("insufficient data for train/test split");
        proof {
            reveal_strlit("insufficient data for train/test split");
        }
        return Err(MlError::NoData(m));
    }
    Ok((train_count, test_count))
}

/// Counts of a binary classifier's outcomes.
#[derive(Debug, Clone, Copy, PartialEq, Eq, Structural)]
pub struct ConfusionCounts {
    pub true_positives: usize,
    pub false_positives: usize,
    pub true_negatives: usize,
    pub false_negatives: usize,
}

/// How many of the first `n` prediction/label pairs are `(p, l)`.
pub open spec fn count_pairs(preds: Seq<bool>, labels: Seq<bool>, n: int, p: bool, l: bool) -> nat
    decreases n,
{
    if n <= 0 {
        0
    } else {
        count_pairs(preds, labels, n - 1, p, l) + if preds[n - 1] == p && labels[n - 1] == l {
            1nat
        } else {
            0nat
        }
    }
}

proof fn lemma_count_pairs_bound(preds: Seq<bool>, labels: Seq<bool>, n: int, p: bool, l: bool)
    requires
        n >= 0,
    ensures
        count_pairs(preds, labels, n, p, l) <= n,
    decreases n,
{
    if n > 0 {
        lemma_count_pairs_bound(preds, labels, n - 1, p, l);
    }
}

/// Every pair falls in exactly one of the four outcomes.
pub proof fn law_confusion_counts_cover_pairs(preds: Seq<bool>, labels: Seq<bool>, n: int)
    requires
        0 <= n,
    ensures
        count_pairs(preds, labels, n, true, true) + count_pairs(preds, labels, n, true, false)
            + count_pairs(preds, labels, n, false, false) + count_pairs(preds, labels, n, false, true)
            == n,
    decreases n,
{
    if n > 0 {
        law_confusion_counts_cover_pairs(preds, labels, n - 1);
    }
}

proof fn lemma_count_pairs_counts_positions(preds: Seq<bool>, labels: Seq<bool>, n: nat, p: bool, l: bool)
    ensures
        count_pairs(preds, labels, n as int, p, l) == Seq::new(n, |i: int| i).filter(
            |i: int| preds[i] == p && labels[i] == l,
        ).len(),
    decreases n,
{
    reveal(Seq::filter);
    if n > 0 {
        lemma_count_pairs_counts_positions(preds, labels, (n - 1) as nat, p, l);
        assert(Seq::new(n, |i: int| i).drop_last() =~= Seq::new((n - 1) as nat, |i: int| i));
    }
}

/// Outcomes are counted position by position: among the first `n` pairs,
/// the true positives are the positions predicted `true` and labelled
/// `true`, the false positives those predicted `true` but labelled `false`,
/// the true negatives those predicted and labelled `false`, and the false
/// negatives those predicted `false` but labelled `true`.
pub proof fn law_confusion_counts_by_position(preds: Seq<bool>, labels: Seq<bool>, n: nat)
    ensures
        count_pairs(preds, labels, n as int, true, true) == Seq::new(n, |i: int| i).filter(
            |i: int| preds[i] && labels[i],
        ).len(),
        count_pairs(preds, labels, n as int, true, false) == Seq::new(n, |i: int| i).filter(
            |i: int| preds[i] && !labels[i],
        ).len(),
        count_pairs(preds, labels, n as int, false, false) == Seq::new(n, |i: int| i).filter(
            |i: int| !preds[i] && !labels[i],
        ).len(),
        count_pairs(preds, labels, n as int, false, true) == Seq::new(n, |i: int| i).filter(
            |i: int| !preds[i] && labels[i],
        ).len(),
{
    lemma_count_pairs_counts_positions(preds, labels, n, true, true);
    lemma_count_pairs_counts_positions(preds, labels, n, true, false);
    lemma_count_pairs_counts_positions(preds, labels, n, false, false);
    lemma_count_pairs_counts_positions(preds, labels, n, false, true);
    assert((|i: int| preds[i] == true && labels[i] == true) =~= (|i: int| preds[i] && labels[i]));
    assert((|i: int| preds[i] == true && labels[i] == false) =~= (|i: int| preds[i] && !labels[i]));
    assert((|i: int| preds[i] == false && labels[i] == false) =~= (|i: int| !preds[i] && !labels[i]));
    assert((|i: int| preds[i] == false && labels[i] == true) =~= (|i: int| !preds[i] && labels[i]));
}

impl ConfusionCounts {
    /// Counts outcomes over the pairs of `predictions` and `labels` (as far
    /// as both go).
    pub fn from_predictions(predictions: &[bool], labels: &[bool]) -> (c: Self)
        ensures
            ({
                let n = if predictions@.len() < labels@.len() {
                    predictions@.len() as int
                } else {
                    labels@.len() as int
                };
                &&& c.true_positives == count_pairs(predictions@, labels@, n, true, true)
                &&& c.false_positives == count_pairs(predictions@, labels@, n, true, false)
                &&& c.true_negatives == count_pairs(predictions@, labels@, n, false, false)
                &&& c.false_negatives == count_pairs(predictions@, labels@, n, false, true)
                &&& c.false_positives == Seq::new(n as nat, |i: int| i).filter(
                    |i: int| predictions@[i] && !labels@[i],
                ).len()
                &&& c.false_negatives == Seq::new(n as nat, |i: int| i).filter(
                    |i: int| !predictions@[i] && labels@[i],
                ).len()
                &&& c.true_positives == Seq::new(n as nat, |i: int| i).filter(
                    |i: int| predictions@[i] && labels@[i],
                ).len()
                &&& c.true_negatives == Seq::new(n as nat, |i: int| i).filter(
                    |i: int| !predictions@[i] && !labels@[i],
                ).len()
            }),
    {
        let n = if predictions.len() < labels.len() {
            predictions.len()
        } else {
            labels.len()
        };
        let mut tp: usize = 0;
        let mut fp: usize = 0;
        let mut tn: usize = 0;
        let mut fneg: usize = 0;
        let mut i: usize = 0;
        while i < n
            invariant
                n <= predictions@.len(),
                n <= labels@.len(),
                i <= n,
                tp == count_pairs(predictions@, labels@, i as int, true, true),
                fp == count_pairs(predictions@, labels@, i as int, true, false),
                tn == count_pairs(predictions@, labels@, i as int, false, false),
                fneg == count_pairs(predictions@, labels@, i as int, false, true),
            decreases n - i,
        {
            proof {
                lemma_count_pairs_bound(predictions@, labels@, i as int, true, true);
                lemma_count_pairs_bound(predictions@, labels@, i as int, true, false);
                lemma_count_pairs_bound(predictions@, labels@, i as int, false, false);
                lemma_count_pairs_bound(predictions@, labels@, i as int, false, true);
            }
            let p = predictions[i];
            let l = labels[i];
            if p && l {
                tp = tp + 1;
            } else if p && !l {
                fp = fp + 1;
            } else if !p && l {
                fneg = fneg + 1;
            } else {
                tn = tn + 1;
            }
            i = i + 1;
        }
        proof {
            law_confusion_counts_by_position(predictions@, labels@, n as nat);
        }
        ConfusionCounts { true_positives: tp, false_positives: fp, true_negatives: tn, false_negatives: fneg }
    }

    /// All pairs counted.
    pub fn total(&self) -> (t: u128)
        ensures
            t == self.true_positives + self.false_positives + self.true_negatives + self.false_negatives,
    {
        self.true_positives as u128 + self.false_positives as u128 + self.true_negatives as u128
            + self.false_negatives as u128
    }
}


/// One fold of forward-chaining cross-validation: the model trains on rows
/// `0..test_start` and is scored on rows `test_start..test_end`.
#[derive(Debug, Clone, Copy, PartialEq, Eq, Structural)]
pub struct FoldBounds {
    pub test_start: usize,
    pub test_end: usize,
}

/// Fold `i` of `k` over `total` rows.
pub open spec fn fold_at(total: nat, k: nat, i: nat) -> FoldBounds {
    let size = total / (k + 1);
    let start = (i + 1) * size;
    FoldBounds {
        test_start: start as usize,
        test_end: (if i + 1 == k { total } else { start + size }) as usize,
    }
}

/// The folds of `k`-fold forward-chaining cross-validation over `total` rows.
pub open spec fn cv_plan(total: nat, k: nat) -> Seq<FoldBounds> {
    Seq::new(k, |i: int| fold_at(total, k, i as nat))
}

/// Whether a fold plan can be made: at least two folds, and at least one
/// row per block.
pub open spec fn cv_accepts(total: nat, k: nat) -> bool {
    k >= 2 && total / (k + 1) > 0
}

proof fn lemma_fold_fits(total: nat, k: nat, i: nat)
    requires
        i < k,
        k >= 2,
    ensures
        (i + 1) * (total / (k + 1)) + total / (k + 1) <= total,
        (i + 1) * (total / (k + 1)) <= k * (total / (k + 1)),
{
    let size = total / (k + 1);
    assert((i + 1) * size <= k * size) by (nonlinear_arith)
        requires
            i + 1 <= k,
    ;
    assert((k + 1) * size <= total) by (nonlinear_arith)
        requires
            size == total / (k + 1),
            k + 1 > 0,
    ;
    assert(k * size + size == (k + 1) * size) by (nonlinear_arith);
}

/// Plans the folds of forward-chaining cross-validation over `total_rows`
/// rows: each fold tests on the next block of `total_rows / (k + 1)` rows
/// and trains on every row before it; the last fold runs to the end.
pub fn cv_folds(total_rows: usize, k: usize) -> (r: Result<Vec<FoldBounds>, MlError>)
    requires
        k < usize::MAX,
    ensures
        k < 2 ==> (r matches Err(MlError::InvalidInput(m)) && m@
            == "k must be at least 2 for cross-validation"@),
        k >= 2 && total_rows as int / (k as int + 1) == 0 ==> (r matches Err(MlError::NoData(m)) && m@
            == "insufficient data for cross-validation"@),
        cv_accepts(total_rows as nat, k as nat) ==> (r matches Ok(v) && v@ == cv_plan(
            total_rows as nat,
            k as nat,
        )),
{
    if k < 2 {
        let m = String::from_str("k must be at least 2 for cross-validation");
        proof {
            reveal_strlit("k must be at least 2 for cross-validation");
        }
        return Err(MlError::InvalidInput(m));
    }
    let fold_size = total_rows / (k + 1);
    if fold_size == 0 {
        let m = String::from_str("insufficient data for cross-validation");
        proof {
            reveal_strlit("insufficient data for cross-validation");
        }
        return Err(MlError::NoData(m));
    }
    let ghost plan = cv_plan(total_rows as nat, k as nat);
    let mut folds: Vec<FoldBounds> = Vec::new();
    let mut fold: usize = 0;
    while fold < k
        invariant
            2 <= k < usize::MAX,
            fold <= k,
            fold_size as int == total_rows as int / (k as int + 1),
            plan == cv_plan(total_rows as nat, k as nat),
            folds@ == plan.subrange(0, fold as int),
        decreases k - fold,
    {
        proof {
            lemma_fold_fits(total_rows as nat, k as nat, fold as nat);
        }
        let test_start = (fold + 1) * fold_size;
        let test_end = if fold == k - 1 {
            total_rows
        } else {
            test_start + fold_size
        };
        folds.push(FoldBounds { test_start, test_end });
        assert(folds@ =~= plan.subrange(0, fold + 1));
        fold = fold + 1;
    }
    assert(folds@ =~= plan);
    Ok(folds)
}

/// Every fold of a plan tests on a nonempty block that lies after its
/// training rows and within the data, and the blocks follow each other
/// without gap or overlap.
pub proof fn law_cv_folds_partition_forward(total: usize, k: usize)
    requires
        cv_accepts(total as nat, k as nat),
    ensures
        forall|i: int|
            0 <= i < k ==> {
                let f = #[trigger] cv_plan(total as nat, k as nat)[i];
                &&& 0 < f.test_start < f.test_end <= total
            },
        forall|i: int|
            0 <= i < k - 1 ==> #[trigger] cv_plan(total as nat, k as nat)[i].test_end == cv_plan(
                total as nat,
                k as nat,
            )[i + 1].test_start,
        cv_plan(total as nat, k as nat)[k - 1].test_end == total,
        cv_plan(total as nat, k as nat)[0].test_start == total as int / (k as int + 1),
{
    let t = total as nat;
    let n = k as nat;
    let size = t / (n + 1);
    assert forall|i: int| 0 <= i < k implies {
        let f = #[trigger] cv_plan(t, n)[i];
        &&& 0 < f.test_start < f.test_end <= total
    } by {
        lemma_fold_fits(t, n, i as nat);
        assert((i + 1) * size >= size) by (nonlinear_arith)
            requires
                i >= 0,
                size >= 0,
        ;
    }
    assert forall|i: int| 0 <= i < k - 1 implies #[trigger] cv_plan(t, n)[i].test_end == cv_plan(
        t,
        n,
    )[i + 1].test_start by {
        lemma_fold_fits(t, n, i as nat);
        lemma_fold_fits(t, n, (i + 1) as nat);
        assert((i + 1) * size + size == (i + 2) * size) by (nonlinear_arith);
    }
    lemma_fold_fits(t, n, (n - 1) as nat);
    lemma_fold_fits(t, n, 0);
    assert((0nat + 1) * size == size) by (nonlinear_arith);
}

/// `values` shifted `k` places later: position `i` holds the value `k`
/// places before it, and the first `k` positions hold nothing.
pub open spec fn lagged<T>(values: Seq<T>, k: nat) -> Seq<Option<T>> {
    Seq::new(values.len(), |i: int| if i >= k { Some(values[i - k]) } else { None })
}

/// The series lagged by one, two and three places.
pub fn lag_features<T: Copy>(values: &[T]) -> (r: (Vec<Option<T>>, Vec<Option<T>>, Vec<Option<T>>))
    ensures
        r.0@ == lagged(values@, 1),
        r.1@ == lagged(values@, 2),
        r.2@ == lagged(values@, 3),
{
    let mut lag_1: Vec<Option<T>> = Vec::new();
    let mut lag_2: Vec<Option<T>> = Vec::new();
    let mut lag_3: Vec<Option<T>> = Vec::new();
    let mut index: usize = 0;
    while index < values.len()
        invariant
            index <= values@.len(),
            lag_1@ == lagged(values@, 1).take(index as int),
            lag_2@ == lagged(values@, 2).take(index as int),
            lag_3@ == lagged(values@, 3).take(index as int),
        decreases values@.len() - index,
    {
        lag_1.push(if index >= 1 { Some(values[index - 1]) } else { None });
        lag_2.push(if index >= 2 { Some(values[index - 2]) } else { None });
        lag_3.push(if index >= 3 { Some(values[index - 3]) } else { None });
        assert(lag_1@ =~= lagged(values@, 1).take(index + 1));
        assert(lag_2@ =~= lagged(values@, 2).take(index + 1));
        assert(lag_3@ =~= lagged(values@, 3).take(index + 1));
        index = index + 1;
    }
    assert(lagged(values@, 1).take(index as int) =~= lagged(values@, 1));
    assert(lagged(values@, 2).take(index as int) =~= lagged(values@, 2));
    assert(lagged(values@, 3).take(index as int) =~= lagged(values@, 3));
    (lag_1, lag_2, lag_3)
}

} // verus!
