//! The tabular report of the registry, printed by prettytable.

use crate::market::{Stock, StockMarket};
use prettytable::{Cell, Row, Table};
use vstd::prelude::*;

verus! {

/// The text that prettytable prints, in its default format, for a table of
/// these rows of cell texts.
pub uninterp spec fn printed_table(rows: Seq<Seq<Seq<char>>>) -> Seq<char>;

/// Relies on prettytable's `Table::new`, `Table::add_row`, `Row::new`,
/// `Cell::new` and `Table::print`: one table row per row of texts, printed
/// into a byte buffer, which cannot fail. The crate's `win_crlf` feature is
/// off, so lines end in `\n` on every target.
#[verifier::external_body]
fn print_rows(rows: &Vec<Vec<String>>) -> (r: String)
    ensures
        r@ == printed_table(rows@.map_values(|row: Vec<String>| row@.map_values(|c: String| c@))),
{
    let mut table = Table::new();
    for row in rows {
        table.add_row(Row::new(row.iter().map(|c| Cell::new(c)).collect()));
    }
    let mut out: Vec<u8> = Vec::new();
    let _ = table.print(&mut out);
    String::from_utf8_lossy(&out).into_owned()
}

/// Relies on `String::push`: appends one character.
#[verifier::external_body]
fn push_char(s: &mut String, c: char)
    ensures
        final(s)@ == old(s)@.push(c),
{
    s.push(c)
}

/// The character of a decimal digit.
pub open spec fn digit_char(d: int) -> char {
    if d == 0 {
        '0'
    } else if d == 1 {
        '1'
    } else if d == 2 {
        '2'
    } else if d == 3 {
        '3'
    } else if d == 4 {
        '4'
    } else if d == 5 {
        '5'
    } else if d == 6 {
        '6'
    } else if d == 7 {
        '7'
    } else if d == 8 {
        '8'
    } else {
        '9'
    }
}

/// The decimal digits of `n`, most significant first, without leading zeros.
pub open spec fn decimal(n: nat) -> Seq<char>
    decreases n,
{
    if n < 10 {
        seq![digit_char(n as int)]
    } else {
        decimal(n / 10).push(digit_char((n % 10) as int))
    }
}

/// A price in cents as text in whole units: `1234` reads `12.34`, `5` reads
/// `0.05`.
pub open spec fn price_text(cents: u64) -> Seq<char> {
    decimal((cents / 100) as nat) + seq![
        '.',
        digit_char(((cents % 100) / 10) as int),
        digit_char((cents % 10) as int),
    ]
}

fn digit(d: u64) -> (r: char)
    requires
        d < 10,
    ensures
        r == digit_char(d as int),
{
    if d == 0 {
        '0'
    } else if d == 1 {
        '1'
    } else if d == 2 {
        '2'
    } else if d == 3 {
        '3'
    } else if d == 4 {
        '4'
    } else if d == 5 {
        '5'
    } else if d == 6 {
        '6'
    } else if d == 7 {
        '7'
    } else if d == 8 {
        '8'
    } else {
        '9'
    }
}

/// Appends the decimal digits of `n`.
fn push_decimal(s: &mut String, n: u64)
    ensures
        final(s)@ == old(s)@ + decimal(n as nat),
    decreases n,
{
    let ghost s0 = s@;
    if n >= 10 {
        push_decimal(s, n / 10);
    }
    push_char(s, digit(n % 10));
    proof {
        if n >= 10 {
            assert((s0 + decimal((n / 10) as nat)).push(digit_char((n % 10) as int)) =~= s0 + decimal(
                n as nat,
            ));
        } else {
            assert(s0.push(digit_char(n as int)) =~= s0 + decimal(n as nat));
        }
    }
}

/// The decimal text of a whole number.
pub fn integer_text(n: u64) -> (r: String)
    ensures
        r@ == decimal(n as nat),
{
    let mut s = String::new();
    push_decimal(&mut s, n);
    proof {
        assert(Seq::<char>::empty() + decimal(n as nat) =~= decimal(n as nat));
    }
    s
}

/// A price in cents as text in whole units.
pub fn price_text_of(cents: u64) -> (r: String)
    ensures
        r@ == price_text(cents),
{
    let mut s = integer_text(cents / 100);
    push_char(&mut s, '.');
    push_char(&mut s, digit((cents % 100) / 10));
    push_char(&mut s, digit(cents % 10));
    proof {
        assert(s@ =~= price_text(cents));
    }
    s
}

/// The column titles.
pub open spec fn header_row() -> Seq<Seq<char>> {
    seq!["Stock ID"@, "Name"@, "Sell Price"@, "Buy Price"@, "Available Stock"@]
}

/// The row of one instrument.
pub open spec fn stock_row(st: Stock) -> Seq<Seq<char>> {
    seq![
        st.id@,
        st.name@,
        price_text(st.sell_price as u64),
        price_text(st.buy_price),
        decimal(st.available_stock as nat),
    ]
}

/// The rows of the report: the titles, then one row per instrument in order.
pub open spec fn report_rows(s: Seq<Stock>) -> Seq<Seq<Seq<char>>> {
    seq![header_row()] + s.map_values(|st: Stock| stock_row(st))
}

fn header_cells() -> (r: Vec<String>)
    ensures
        r@.map_values(|c: String| c@) == header_row(),
{
    let r = vec![
        "Stock ID".to_string(),
        "Name".to_string(),
        "Sell Price".to_string(),
        "Buy Price".to_string(),
        "Available Stock".to_string(),
    ];
    assert(r@.map_values(|c: String| c@) =~= header_row());
    r
}

fn stock_cells(st: &Stock) -> (r: Vec<String>)
    ensures
        r@.map_values(|c: String| c@) == stock_row(*st),
{
    let r = vec![
        st.id.clone(),
        st.name.clone(),
        price_text_of(st.sell_price as u64),
        price_text_of(st.buy_price),
        integer_text(st.available_stock as u64),
    ];
    assert(r@.map_values(|c: String| c@) =~= stock_row(*st));
    r
}

impl StockMarket {
    /// The registry as a printed table: a title row, then one row per
    /// instrument with its identifier, name, prices and available units.
    pub fn generate_stock_table(&self) -> (r: String)
        ensures
            r@ == printed_table(report_rows(self@)),
    {
        let mut rows: Vec<Vec<String>> = Vec::new();
        rows.push(header_cells());
        let n = self.len();
        let mut i: usize = 0;
        while i < n
            invariant
                i <= n,
                n == self@.len(),
                rows@.map_values(|row: Vec<String>| row@.map_values(|c: String| c@))
                    == report_rows(self@.take(i as int)),
            decreases n - i,
        {
            let st = self.stock_at(i);
            let cells = stock_cells(&st);
            let ghost prev = rows@;
            rows.push(cells);
            proof {
                let f = |row: Vec<String>| row@.map_values(|c: String| c@);
                let g = |st: Stock| stock_row(st);
                assert(rows@ == prev.push(cells));
                assert(rows@.map_values(f) =~= prev.map_values(f).push(f(cells)));
                assert(self@.take(i + 1) =~= self@.take(i as int).push(self@[i as int]));
                assert(self@.take(i + 1).map_values(g) =~= self@.take(i as int).map_values(g).push(
                    stock_row(self@[i as int]),
                ));
                assert(report_rows(self@.take(i + 1)) =~= report_rows(self@.take(i as int)).push(
                    stock_row(self@[i as int]),
                ));
            }
            i += 1;
        }
        assert(self@.take(i as int) =~= self@);
        print_rows(&rows)
    }
}

} // verus!
