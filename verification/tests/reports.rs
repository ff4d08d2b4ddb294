use ferrotick::reports::{
    earnings_rows, fundamentals_sources, statement_line_items, FieldPresence, FundamentalSource,
    QuarterPresence, StatementPresence,
};
use ferrotick::requests::{FinancialPeriod, StatementType};

fn entry(fields: &[bool]) -> StatementPresence {
    StatementPresence { fields: fields.to_vec() }
}

fn items(r: &[ferrotick::reports::LineItemRef]) -> Vec<(usize, String)> {
    r.iter().map(|x| (x.entry, x.label.clone())).collect()
}

fn fields(r: &[ferrotick::reports::LineItemRef]) -> Vec<(usize, usize)> {
    r.iter().map(|x| (x.entry, x.field)).collect()
}

#[test]
fn income_statement_takes_annual_history_up_to_limit() {
    let annual = vec![entry(&[true, false, true, true]), entry(&[true, true, true, true])];
    let quarterly = vec![entry(&[false, true, false, false])];
    let r = statement_line_items(StatementType::Income, FinancialPeriod::Annual, 1, &annual, &quarterly);
    assert_eq!(
        items(&r),
        vec![
            (0, "Total Revenue".to_string()),
            (0, "Net Income".to_string()),
            (0, "Basic EPS".to_string()),
        ]
    );
    let all = statement_line_items(StatementType::Income, FinancialPeriod::Annual, 10, &annual, &quarterly);
    assert_eq!(all.len(), 7);
    assert_eq!(fields(&all), vec![(0, 0), (0, 2), (0, 3), (1, 0), (1, 1), (1, 2), (1, 3)]);
    assert_eq!(items(&all)[3], (1, "Total Revenue".to_string()));
}

#[test]
fn quarterly_statements_read_the_quarterly_history() {
    let annual = vec![entry(&[true, true, true, true])];
    let quarterly = vec![entry(&[false, true]), entry(&[]), entry(&[false, false, false, true])];
    let r = statement_line_items(StatementType::Balance, FinancialPeriod::Quarterly, 5, &annual, &quarterly);
    assert_eq!(
        items(&r),
        vec![(0, "Total Liabilities".to_string()), (2, "Cash".to_string())]
    );
    let c = statement_line_items(StatementType::CashFlow, FinancialPeriod::Quarterly, 5, &annual, &quarterly);
    assert_eq!(
        items(&c),
        vec![(0, "Investing Cash Flow".to_string()), (2, "Capital Expenditures".to_string())]
    );
    assert!(statement_line_items(StatementType::Income, FinancialPeriod::Annual, 0, &annual, &quarterly).is_empty());
}

#[test]
fn earnings_quarters_default_to_position() {
    let q = |quarter: Option<i32>, year: Option<i32>| QuarterPresence { quarter, year };
    let quarters = vec![q(None, Some(2024)), q(Some(3), None), q(None, None), q(None, None), q(None, Some(2025))];
    let rows = earnings_rows(&quarters, 10);
    let got: Vec<(usize, i32, Option<i32>)> =
        rows.iter().map(|r| (r.index, r.fiscal_quarter, r.fiscal_year)).collect();
    assert_eq!(
        got,
        vec![(0, 1, Some(2024)), (1, 3, None), (2, 3, None), (3, 4, None), (4, 1, Some(2025))]
    );
    assert_eq!(earnings_rows(&quarters, 2).len(), 2);
    assert!(earnings_rows(&[], 4).is_empty());
}

#[test]
fn fundamentals_prefer_price_then_summary_then_statistics() {
    let none = FieldPresence { market_cap: false, pe_ratio: false, forward_pe: false, dividend_yield: false };
    let all = FieldPresence { market_cap: true, pe_ratio: true, forward_pe: true, dividend_yield: true };
    let r = fundamentals_sources(all, all, all);
    assert_eq!(r.market_cap, Some(FundamentalSource::Price));
    assert_eq!(r.pe_ratio, Some(FundamentalSource::SummaryDetail));
    assert_eq!(r.dividend_yield, Some(FundamentalSource::SummaryDetail));

    let forward_only = FieldPresence { forward_pe: true, ..none };
    let r = fundamentals_sources(none, forward_only, all);
    assert_eq!(r.market_cap, Some(FundamentalSource::KeyStatistics));
    assert_eq!(r.pe_ratio, Some(FundamentalSource::SummaryDetailForward));
    assert_eq!(r.dividend_yield, Some(FundamentalSource::KeyStatistics));

    let r = fundamentals_sources(none, none, none);
    assert_eq!(r.market_cap, None);
    assert_eq!(r.pe_ratio, None);
    assert_eq!(r.dividend_yield, None);
}
