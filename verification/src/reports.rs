//! Assembling Yahoo's company reports from its replies: which line items a
//! financial statement holds, how earnings quarters are numbered, and where
//! each fundamental figure is read from. The figures themselves are carried
//! by the caller; here each reply is seen through flags of which values are
//! present.
use vstd::prelude::*;
use vstd::string::*;
use crate::requests::{FinancialPeriod, StatementType};
use crate::yahoo::uses_annual_history;

verus! {

/// One history entry of a statement as the reply gives it: one flag per
/// field of the statement, in the order of `statement_labels`, set when the
/// field is present and the line item built from it is accepted. Missing
/// trailing flags count as unset.
#[derive(Debug, Clone)]
pub struct StatementPresence {
    pub fields: Vec<bool>,
}

/// One line item of a statement: the history entry it comes from, the
/// field of that entry it reads, and its label.
#[derive(Debug, Clone)]
pub struct LineItemRef {
    pub entry: usize,
    pub field: usize,
    pub label: String,
}

/// The labels of the line items of each kind of statement, in the order
/// the entries' fields are read.
pub open spec fn statement_labels(t: StatementType) -> Seq<Seq<char>> {
    match t {
        StatementType::Income => seq![
            "Total Revenue"@,
            "Gross Profit"@,
            "Net Income"@,
            "Basic EPS"@,
        ],
        StatementType::Balance => seq![
            "Total Assets"@,
            "Total Liabilities"@,
            "Total Stockholder Equity"@,
            "Cash"@,
        ],
        StatementType::CashFlow => seq![
            "Operating Cash Flow"@,
            "Investing Cash Flow"@,
            "Financing Cash Flow"@,
            "Capital Expenditures"@,
        ],
    }
}

/// Whether field `k` of an entry is set.
pub open spec fn field_set(e: StatementPresence, k: int) -> bool {
    0 <= k < e.fields@.len() && e.fields@[k]
}

/// A line item seen as (entry, field, label).
pub open spec fn item_view(r: LineItemRef) -> (int, int, Seq<char>) {
    (r.entry as int, r.field as int, r.label@)
}

/// The line items of entry `i` from its first `k` fields, in field order.
pub open spec fn entry_items(t: StatementType, i: int, e: StatementPresence, k: int) -> Seq<
    (int, int, Seq<char>),
>
    decreases k,
{
    if k <= 0 {
        Seq::empty()
    } else {
        entry_items(t, i, e, k - 1) + if field_set(e, k - 1) {
            seq![(i, k - 1, statement_labels(t)[k - 1])]
        } else {
            Seq::empty()
        }
    }
}

/// The line items of the first `n` entries, entry by entry.
pub open spec fn items_upto(t: StatementType, entries: Seq<StatementPresence>, n: int) -> Seq<
    (int, int, Seq<char>),
>
    decreases n,
{
    if n <= 0 {
        Seq::empty()
    } else {
        items_upto(t, entries, n - 1) + entry_items(t, n - 1, entries[n - 1], 4)
    }
}

/// The line items of a statement built from a history: the first `limit`
/// entries, each giving one item per set field.
pub open spec fn statement_items(t: StatementType, entries: Seq<StatementPresence>, limit: int) -> Seq<
    (int, int, Seq<char>),
> {
    items_upto(t, entries, if limit < entries.len() { limit } else { entries.len() as int })
}

/// The label of field `k` of a statement.
fn statement_label(t: StatementType, k: usize) -> (r: &'static str)
    requires
        k < 4,
    ensures
        r@ == statement_labels(t)[k as int],
{
    proof {
        reveal_strlit("Total Revenue");
        reveal_strlit("Gross Profit");
        reveal_strlit("Net Income");
        reveal_strlit("Basic EPS");
        reveal_strlit("Total Assets");
        reveal_strlit("Total Liabilities");
        reveal_strlit("Total Stockholder Equity");
        reveal_strlit("Cash");
        reveal_strlit("Operating Cash Flow");
        reveal_strlit("Investing Cash Flow");
        reveal_strlit("Financing Cash Flow");
        reveal_strlit("Capital Expenditures");
    }
    match t {
        StatementType::Income => if k == 0 {
            "Total Revenue"
        } else if k == 1 {
            "Gross Profit"
        } else if k == 2 {
            "Net Income"
        } else {
            "Basic EPS"
        },
        StatementType::Balance => if k == 0 {
            "Total Assets"
        } else if k == 1 {
            "Total Liabilities"
        } else if k == 2 {
            "Total Stockholder Equity"
        } else {
            "Cash"
        },
        StatementType::CashFlow => if k == 0 {
            "Operating Cash Flow"
        } else if k == 1 {
            "Investing Cash Flow"
        } else if k == 2 {
            "Financing Cash Flow"
        } else {
            "Capital Expenditures"
        },
    }
}

/// The line items of a statement of kind `statement_type`: the annual
/// history for an annual statement and the quarterly one otherwise, its
/// first `limit` entries, one item per set field, entry by entry in field
/// order.
pub fn statement_line_items(
    statement_type: StatementType,
    period: FinancialPeriod,
    limit: usize,
    annual: &[StatementPresence],
    quarterly: &[StatementPresence],
) -> (r: Vec<LineItemRef>)
    ensures
        r@.map_values(|x: LineItemRef| item_view(x)) == statement_items(
            statement_type,
            if period == FinancialPeriod::Annual {
                annual@
            } else {
                quarterly@
            },
            limit as int,
        ),
{
    let entries = if uses_annual_history(period) {
        annual
    } else {
        quarterly
    };
    let n = if limit < entries.len() {
        limit
    } else {
        entries.len()
    };
    let mut out: Vec<LineItemRef> = Vec::new();
    let mut i: usize = 0;
    while i < n
        invariant
            n <= entries@.len(),
            i <= n,
            out@.map_values(|x: LineItemRef| item_view(x)) == items_upto(
                statement_type,
                entries@,
                i as int,
            ),
        decreases n - i,
    {
        let e = &entries[i];
        let ghost before = out@.map_values(|x: LineItemRef| item_view(x));
        let mut k: usize = 0;
        while k < 4
            invariant
                i < n,
                n <= entries@.len(),
                *e == entries@[i as int],
                k <= 4,
                before == items_upto(statement_type, entries@, i as int),
                out@.map_values(|x: LineItemRef| item_view(x)) == before + entry_items(
                    statement_type,
                    i as int,
                    *e,
                    k as int,
                ),
            decreases 4 - k,
        {
            let ghost prev = out@;
            if k < e.fields.len() && e.fields[k] {
                let label = String::from_str(statement_label(statement_type, k));
                out.push(LineItemRef { entry: i, field: k, label });
                assert(out@.map_values(|x: LineItemRef| item_view(x)) =~= prev.map_values(
                    |x: LineItemRef| item_view(x),
                ).push((i as int, k as int, statement_labels(statement_type)[k as int])));
            }
            assert(before + entry_items(statement_type, i as int, *e, k + 1) =~= before
                + entry_items(statement_type, i as int, *e, k as int) + if field_set(*e, k as int) {
                seq![(i as int, k as int, statement_labels(statement_type)[k as int])]
            } else {
                Seq::empty()
            });
            k = k + 1;
        }
        assert(items_upto(statement_type, entries@, i + 1) == before + entry_items(
            statement_type,
            i as int,
            entries@[i as int],
            4,
        ));
        i = i + 1;
    }
    out
}

/// One quarter of an earnings chart as the reply gives it: its fiscal
/// quarter and year, when the reply names them.
#[derive(Debug, Clone, Copy)]
pub struct QuarterPresence {
    pub quarter: Option<i32>,
    pub year: Option<i32>,
}

/// One earnings entry: the chart quarter it comes from, its fiscal quarter
/// and its fiscal year (none when the reply names none, which stands for
/// the current year).
#[derive(Debug, Clone, Copy)]
pub struct EarningsRow {
    pub index: usize,
    pub fiscal_quarter: i32,
    pub fiscal_year: Option<i32>,
}

/// The fiscal quarter of chart quarter `i`: the one the reply names, or the
/// position in a run of four.
pub open spec fn fiscal_quarter_of(q: QuarterPresence, i: int) -> i32 {
    match q.quarter {
        Some(f) => f,
        None => (i % 4 + 1) as i32,
    }
}

/// The earnings entries of a chart: its first `limit` quarters in order,
/// each with its fiscal quarter and year.
pub fn earnings_rows(quarters: &[QuarterPresence], limit: usize) -> (r: Vec<EarningsRow>)
    ensures
        r@.len() == (if limit < quarters@.len() {
            limit as int
        } else {
            quarters@.len() as int
        }),
        forall|i: int|
            0 <= i < r@.len() ==> {
                &&& (#[trigger] r@[i]).index == i
                &&& r@[i].fiscal_quarter == fiscal_quarter_of(quarters@[i], i)
                &&& r@[i].fiscal_year == quarters@[i].year
            },
{
    let n = if limit < quarters.len() {
        limit
    } else {
        quarters.len()
    };
    let mut rows: Vec<EarningsRow> = Vec::new();
    let mut i: usize = 0;
    while i < n
        invariant
            n <= quarters@.len(),
            i <= n,
            rows@.len() == i,
            forall|j: int|
                0 <= j < i ==> {
                    &&& (#[trigger] rows@[j]).index == j
                    &&& rows@[j].fiscal_quarter == fiscal_quarter_of(quarters@[j], j)
                    &&& rows@[j].fiscal_year == quarters@[j].year
                },
        decreases n - i,
    {
        let q = quarters[i];
        let fiscal_quarter: i32 = match q.quarter {
            Some(f) => f,
            None => (i % 4 + 1) as i32,
        };
        rows.push(EarningsRow { index: i, fiscal_quarter, fiscal_year: q.year });
        i = i + 1;
    }
    rows
}

/// Which fundamental values one module of a quote summary holds: a flag
/// per value, set when the value is there and usable (a number other than
/// zero). A module missing from the reply has no flag set.
#[derive(Debug, Clone, Copy)]
pub struct FieldPresence {
    pub market_cap: bool,
    pub pe_ratio: bool,
    pub forward_pe: bool,
    pub dividend_yield: bool,
}

/// Where a fundamental value is read from.
#[derive(Debug, Clone, Copy, PartialEq, Eq, Structural)]
pub enum FundamentalSource {
    /// The `price` module.
    Price,
    /// The `summaryDetail` module's own field.
    SummaryDetail,
    /// The `summaryDetail` module's forward P/E, standing in for the P/E.
    SummaryDetailForward,
    /// The `defaultKeyStatistics` module.
    KeyStatistics,
}

/// Where each fundamental value of a symbol is read from; none when no
/// module has it.
#[derive(Debug, Clone, Copy)]
pub struct FundamentalSources {
    pub market_cap: Option<FundamentalSource>,
    pub pe_ratio: Option<FundamentalSource>,
    pub dividend_yield: Option<FundamentalSource>,
}

/// The market capitalisation comes from the price module, else from the key
/// statistics.
pub open spec fn market_cap_source(price: FieldPresence, stats: FieldPresence) -> Option<
    FundamentalSource,
> {
    if price.market_cap {
        Some(FundamentalSource::Price)
    } else if stats.market_cap {
        Some(FundamentalSource::KeyStatistics)
    } else {
        None
    }
}

/// The P/E comes from the summary detail, else its forward P/E, else the key
/// statistics.
pub open spec fn pe_ratio_source(summary: FieldPresence, stats: FieldPresence) -> Option<
    FundamentalSource,
> {
    if summary.pe_ratio {
        Some(FundamentalSource::SummaryDetail)
    } else if summary.forward_pe {
        Some(FundamentalSource::SummaryDetailForward)
    } else if stats.pe_ratio {
        Some(FundamentalSource::KeyStatistics)
    } else {
        None
    }
}

/// The dividend yield comes from the summary detail, else the key
/// statistics.
pub open spec fn dividend_yield_source(summary: FieldPresence, stats: FieldPresence) -> Option<
    FundamentalSource,
> {
    if summary.dividend_yield {
        Some(FundamentalSource::SummaryDetail)
    } else if stats.dividend_yield {
        Some(FundamentalSource::KeyStatistics)
    } else {
        None
    }
}

/// Where a symbol's market cap, P/E and dividend yield are read from, given
/// what its `price`, `summaryDetail` and `defaultKeyStatistics` modules hold.
pub fn fundamentals_sources(
    price: FieldPresence,
    summary: FieldPresence,
    stats: FieldPresence,
) -> (r: FundamentalSources)
    ensures
        r.market_cap == market_cap_source(price, stats),
        r.pe_ratio == pe_ratio_source(summary, stats),
        r.dividend_yield == dividend_yield_source(summary, stats),
{
    let market_cap = if price.market_cap {
        Some(FundamentalSource::Price)
    } else if stats.market_cap {
        Some(FundamentalSource::KeyStatistics)
    } else {
        None
    };
    let pe_ratio = if summary.pe_ratio {
        Some(FundamentalSource::SummaryDetail)
    } else if summary.forward_pe {
        Some(FundamentalSource::SummaryDetailForward)
    } else if stats.pe_ratio {
        Some(FundamentalSource::KeyStatistics)
    } else {
        None
    };
    let dividend_yield = if summary.dividend_yield {
        Some(FundamentalSource::SummaryDetail)
    } else if stats.dividend_yield {
        Some(FundamentalSource::KeyStatistics)
    } else {
        None
    };
    FundamentalSources { market_cap, pe_ratio, dividend_yield }
}

} // verus!
