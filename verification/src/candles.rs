//! Candles as the exchange sends them, and their cache.
use crate::features::{candles_ok, Candle, PRICE_MAX};
use crate::numeral::{fixed_value, parse_fixed};
use crate::text::{nat_text, u64_string};
use vstd::prelude::*;

verus! {

/// The length of a candle.
#[derive(Clone, Copy, Debug, PartialEq, Eq, Structural)]
pub enum Interval {
    OneMinute,
    FiveMinutes,
    OneHour,
}

/// The exchange's name of an interval.
pub open spec fn interval_text(i: Interval) -> Seq<char> {
    match i {
        Interval::OneMinute => "1m"@,
        Interval::FiveMinutes => "5m"@,
        Interval::OneHour => "1h"@,
    }
}

impl Interval {
    /// The exchange's name of the interval.
    pub fn as_str(self) -> (s: &'static str)
        ensures
            s@ == interval_text(self),
    {
        match self {
            Interval::OneMinute => "1m",
            Interval::FiveMinutes => "5m",
            Interval::OneHour => "1h",
        }
    }
}

/// The name of the file that holds the candles of a symbol.
pub open spec fn cache_text(symbol: Seq<char>, interval: Interval) -> Seq<char> {
    symbol + "_"@ + interval_text(interval) + ".json"@
}

/// The name of the file that holds the candles of a symbol.
pub fn cache_file(symbol: &str, interval: Interval) -> (s: String)
    ensures
        s@ == cache_text(symbol@, interval),
{
    let mut s: String = String::from_str(symbol);
    s.append("_");
    s.append(interval.as_str());
    s.append(".json");
    s
}

/// The age that a file has whose age cannot be told: 999999 seconds.
pub const UNKNOWN_AGE_MS: u64 = 999_999_000;

/// Whether a cache file is fresh. One that is not there is not; one whose age
/// cannot be told counts as old.
pub fn cache_is_fresh(exists: bool, age_ms: Option<u64>, max_age_ms: u64) -> (r: bool)
    ensures
        r == (exists && (if age_ms is Some {
            age_ms->0
        } else {
            UNKNOWN_AGE_MS
        }) <= max_age_ms),
        r ==> exists,
        exists && age_ms is Some ==> (r <==> age_ms->0 <= max_age_ms),
{
    if !exists {
        return false;
    }
    match age_ms {
        Some(a) => a <= max_age_ms,
        None => UNKNOWN_AGE_MS <= max_age_ms,
    }
}

/// What becomes of a cache file.
#[derive(Clone, Copy, Debug, PartialEq, Eq, Structural)]
pub enum CacheUse {
    /// Its candles are used.
    Use,
    /// It counts as missing.
    Miss,
    /// It is damaged: it is put aside, and counts as missing.
    Quarantine,
}

/// What becomes of a cache file: an old one is not looked at, and one that cannot
/// be read or holds no candles is put aside.
pub fn judge_cache(fresh: bool, readable: bool, parsed: bool) -> (u: CacheUse)
    ensures
        u == (if !fresh {
            CacheUse::Miss
        } else if readable && parsed {
            CacheUse::Use
        } else {
            CacheUse::Quarantine
        }),
{
    if !fresh {
        CacheUse::Miss
    } else if readable && parsed {
        CacheUse::Use
    } else {
        CacheUse::Quarantine
    }
}

/// Whether the number of candles of one request is acceptable.
pub fn limit_ok(limit: usize) -> (r: bool)
    ensures
        r == (1 <= limit <= 1000),
{
    1 <= limit && limit <= 1000
}

/// The address of the last candles.
pub open spec fn klines_text(
    base_url: Seq<char>,
    symbol: Seq<char>,
    interval: Interval,
    limit: nat,
) -> Seq<char> {
    base_url + "/api/v3/klines?symbol="@ + symbol + "&interval="@ + interval_text(interval)
        + "&limit="@ + nat_text(limit)
}

/// The address of the last candles.
pub fn klines_url(base_url: &str, symbol: &str, interval: Interval, limit: usize) -> (s: String)
    ensures
        s@ == klines_text(base_url@, symbol@, interval, limit as nat),
{
    let mut s: String = String::from_str(base_url);
    s.append("/api/v3/klines?symbol=");
    s.append(symbol);
    s.append("&interval=");
    s.append(interval.as_str());
    s.append("&limit=");
    s.append(u64_string(limit as u64).as_str());
    s
}

/// A cell of a table.
#[derive(Clone, Debug)]
pub enum Cell {
    /// A whole number of 64 bits.
    Int(i64),
    Text(String),
    /// Anything else.
    Other,
}

/// The content of a [`Cell`].
pub enum CellView {
    Int(i64),
    Text(Seq<char>),
    Other,
}

impl View for Cell {
    type V = CellView;

    open spec fn view(&self) -> CellView {
        match *self {
            Cell::Int(i) => CellView::Int(i),
            Cell::Text(t) => CellView::Text(t@),
            Cell::Other => CellView::Other,
        }
    }
}

/// The content of a row; `None` where the element of the list is no list.
pub open spec fn row_view(row: Option<Vec<Cell>>) -> Option<Seq<CellView>> {
    match row {
        Some(cells) => Some(Seq::new(cells@.len(), |i: int| cells@[i]@)),
        None => None,
    }
}

/// The content of a table; `None` where the value is no list.
pub open spec fn table_view(table: Option<Vec<Option<Vec<Cell>>>>) -> Option<
    Seq<Option<Seq<CellView>>>,
> {
    match table {
        Some(rows) => Some(Seq::new(rows@.len(), |i: int| row_view(rows@[i]))),
        None => None,
    }
}

/// The table that `serde_json` reads from a text: a list of lists of cells. The
/// outer `None` is a text that is no JSON, the inner ones are values that are no
/// lists.
pub uninterp spec fn json_table(text: Seq<char>) -> Option<Option<Seq<Option<Seq<CellView>>>>>;

/// `serde_json::from_str` on a text, as a table. The result is named by
/// [`json_table`]; the error carries the parser's message, of which nothing is
/// claimed.
#[verifier::external_body]
fn read_table(text: &str) -> (r: Result<Option<Vec<Option<Vec<Cell>>>>, String>)
    ensures
        match r {
            Ok(t) => json_table(text@) == Some(table_view(t)),
            Err(_) => json_table(text@) is None,
        },
{
    let cell = |c: serde_json::Value| match c {
        serde_json::Value::Number(n) => n.as_i64().map_or(Cell::Other, Cell::Int),
        serde_json::Value::String(s) => Cell::Text(s),
        _ => Cell::Other,
    };
    let row = |r: serde_json::Value| match r {
        serde_json::Value::Array(cells) => Some(cells.into_iter().map(cell).collect()),
        _ => None,
    };
    match serde_json::from_str::<serde_json::Value>(text).map_err(|e| e.to_string())? {
        serde_json::Value::Array(rows) => Ok(Some(rows.into_iter().map(row).collect())),
        _ => Ok(None),
    }
}

/// Why candles could not be read.
#[derive(Clone, Debug)]
pub enum KlineError {
    /// The text is no JSON.
    NotJson { detail: String },
    /// The reply is no list.
    NotAList,
    /// A row is no list.
    RowNotAList,
    /// A row has fewer than six cells.
    TooFewColumns,
    /// The time of a row is no whole number.
    BadOpenTime,
    /// A price or the volume is no text.
    NotText { column: usize },
    /// A price or the volume is no number.
    BadNumber { column: usize },
}

/// The name of a column of a row.
pub open spec fn column_text(column: int) -> Seq<char> {
    if column == 1 {
        "open"@
    } else if column == 2 {
        "high"@
    } else if column == 3 {
        "low"@
    } else if column == 4 {
        "close"@
    } else {
        "volume"@
    }
}

fn column_name(column: usize) -> (s: &'static str)
    ensures
        s@ == column_text(column as int),
{
    match column {
        1 => "open",
        2 => "high",
        3 => "low",
        4 => "close",
        _ => "volume",
    }
}

impl KlineError {
    /// The error in words.
    pub fn message(&self) -> (s: String)
        ensures
            s@ == (match *self {
                KlineError::NotJson { detail } => detail@,
                KlineError::NotAList => "Klines response was not an array"@,
                KlineError::RowNotAList => "Kline row was not an array"@,
                KlineError::TooFewColumns => "Kline row had too few columns"@,
                KlineError::BadOpenTime => "openTime was not an integer"@,
                KlineError::NotText { column } => column_text(column as int)
                    + " was not a string"@,
                KlineError::BadNumber { column } => column_text(column as int)
                    + " was not a number"@,
            }),
    {
        match self {
            KlineError::NotJson { detail } => String::from_str(detail.as_str()),
            KlineError::NotAList => String::from_str("Klines response was not an array"),
            KlineError::RowNotAList => String::from_str("Kline row was not an array"),
            KlineError::TooFewColumns => String::from_str("Kline row had too few columns"),
            KlineError::BadOpenTime => String::from_str("openTime was not an integer"),
            KlineError::NotText { column } => {
                let mut s: String = String::from_str(column_name(*column));
                s.append(" was not a string");
                s
            },
            KlineError::BadNumber { column } => {
                let mut s: String = String::from_str(column_name(*column));
                s.append(" was not a number");
                s
            },
        }
    }
}

/// The number in a cell of a row.
pub open spec fn cell_number(cells: Seq<CellView>, column: int) -> Result<i128, KlineError> {
    match cells[column] {
        CellView::Text(t) => match fixed_value(t) {
            Some(v) => Ok(v),
            None => Err(KlineError::BadNumber { column: column as usize }),
        },
        _ => Err(KlineError::NotText { column: column as usize }),
    }
}

/// The candle of a row: the time, then open, high, low, close and volume. The first
/// cell that does not fit is the error.
pub open spec fn row_candle(row: Option<Seq<CellView>>) -> Result<Candle, KlineError> {
    match row {
        None => Err(KlineError::RowNotAList),
        Some(c) => if c.len() < 6 {
            Err(KlineError::TooFewColumns)
        } else if !(c[0] is Int) {
            Err(KlineError::BadOpenTime)
        } else if cell_number(c, 1) is Err {
            Err(cell_number(c, 1)->Err_0)
        } else if cell_number(c, 2) is Err {
            Err(cell_number(c, 2)->Err_0)
        } else if cell_number(c, 3) is Err {
            Err(cell_number(c, 3)->Err_0)
        } else if cell_number(c, 4) is Err {
            Err(cell_number(c, 4)->Err_0)
        } else if cell_number(c, 5) is Err {
            Err(cell_number(c, 5)->Err_0)
        } else {
            Ok(
                Candle {
                    open_time: c[0]->Int_0,
                    open: cell_number(c, 1)->Ok_0,
                    high: cell_number(c, 2)->Ok_0,
                    low: cell_number(c, 3)->Ok_0,
                    close: cell_number(c, 4)->Ok_0,
                    volume: cell_number(c, 5)->Ok_0,
                },
            )
        },
    }
}

/// Whether a list of rows reads as these candles.
pub open spec fn reads_as(rows: Seq<Option<Seq<CellView>>>, candles: Seq<Candle>) -> bool {
    &&& candles.len() == rows.len()
    &&& forall|i: int|
        0 <= i < rows.len() ==> row_candle(#[trigger] rows[i]) == Ok::<Candle, KlineError>(candles[i])
}

/// Whether reading a list of rows fails with an error: it is that of the first row
/// that does not fit.
pub open spec fn fails_with(rows: Seq<Option<Seq<CellView>>>, e: KlineError) -> bool {
    exists|i: int|
        0 <= i < rows.len() && row_candle(#[trigger] rows[i]) == Err::<Candle, KlineError>(e)
            && forall|k: int| 0 <= k < i ==> row_candle(#[trigger] rows[k]) is Ok
}

fn number_in(cells: &Vec<Cell>, column: usize, Ghost(view): Ghost<Seq<CellView>>) -> (r: Result<
    i128,
    KlineError,
>)
    requires
        column < cells@.len(),
        view == Seq::new(cells@.len(), |i: int| cells@[i]@),
    ensures
        r == cell_number(view, column as int),
{
    assert(view[column as int] == cells@[column as int]@);
    match &cells[column] {
        Cell::Text(t) => match parse_fixed(t.as_str()) {
            Some(v) => Ok(v),
            None => Err(KlineError::BadNumber { column }),
        },
        _ => Err(KlineError::NotText { column }),
    }
}

fn candle_in(row: &Option<Vec<Cell>>) -> (r: Result<Candle, KlineError>)
    ensures
        r == row_candle(row_view(*row)),
{
    let cells: &Vec<Cell> = match row {
        Some(c) => c,
        None => return Err(KlineError::RowNotAList),
    };
    let ghost view = Seq::new(cells@.len(), |i: int| cells@[i]@);
    if cells.len() < 6 {
        return Err(KlineError::TooFewColumns);
    }
    assert(view[0] == cells@[0]@);
    let open_time: i64 = match &cells[0] {
        Cell::Int(t) => *t,
        _ => return Err(KlineError::BadOpenTime),
    };
    let open: i128 = match number_in(cells, 1, Ghost(view)) {
        Ok(v) => v,
        Err(e) => return Err(e),
    };
    let high: i128 = match number_in(cells, 2, Ghost(view)) {
        Ok(v) => v,
        Err(e) => return Err(e),
    };
    let low: i128 = match number_in(cells, 3, Ghost(view)) {
        Ok(v) => v,
        Err(e) => return Err(e),
    };
    let close: i128 = match number_in(cells, 4, Ghost(view)) {
        Ok(v) => v,
        Err(e) => return Err(e),
    };
    let volume: i128 = match number_in(cells, 5, Ghost(view)) {
        Ok(v) => v,
        Err(e) => return Err(e),
    };
    Ok(Candle { open_time, open, high, low, close, volume })
}

/// Reads candles from a table. A value that is no list is an error, and so is the
/// first row that does not fit.
pub fn parse_klines_body(table: &Option<Vec<Option<Vec<Cell>>>>) -> (r: Result<
    Vec<Candle>,
    KlineError,
>)
    ensures
        match table_view(*table) {
            None => r is Err && r->Err_0 == KlineError::NotAList,
            Some(rows) => match r {
                Ok(candles) => reads_as(rows, candles@),
                Err(e) => fails_with(rows, e),
            },
        },
{
    let rows: &Vec<Option<Vec<Cell>>> = match table {
        Some(rows) => rows,
        None => return Err(KlineError::NotAList),
    };
    let ghost views = Seq::new(rows@.len(), |i: int| row_view(rows@[i]));
    let mut out: Vec<Candle> = Vec::new();
    let mut i: usize = 0;
    while i < rows.len()
        invariant
            i <= rows@.len(),
            views == Seq::new(rows@.len(), |i: int| row_view(rows@[i])),
            table_view(*table) == Some(views),
            out@.len() == i,
            forall|k: int|
                0 <= k < i ==> row_candle(#[trigger] views[k]) == Ok::<Candle, KlineError>(out@[k]),
        decreases rows@.len() - i,
    {
        assert(views[i as int] == row_view(rows@[i as int]));
        match candle_in(&rows[i]) {
            Ok(c) => {
                out.push(c);
            },
            Err(e) => {
                return Err(e);
            },
        }
        i += 1;
    }
    Ok(out)
}

/// Reads candles from the text of a reply.
pub fn parse_klines(text: &str) -> (r: Result<Vec<Candle>, KlineError>)
    ensures
        match json_table(text@) {
            None => r is Err && r->Err_0 is NotJson,
            Some(None) => r is Err && r->Err_0 == KlineError::NotAList,
            Some(Some(rows)) => match r {
                Ok(candles) => reads_as(rows, candles@),
                Err(e) => fails_with(rows, e),
            },
        },
{
    match read_table(text) {
        Ok(table) => parse_klines_body(&table),
        Err(detail) => Err(KlineError::NotJson { detail }),
    }
}

/// Whether the prices of all candles are within the range of the indicators.
pub fn candles_in_range(candles: &Vec<Candle>) -> (r: bool)
    ensures
        r == candles_ok(candles@),
{
    let mut i: usize = 0;
    while i < candles.len()
        invariant
            i <= candles@.len(),
            forall|k: int| 0 <= k < i ==> (#[trigger] candles@[k]).ok(),
        decreases candles@.len() - i,
    {
        let c: Candle = candles[i];
        if c.high < -PRICE_MAX || c.high > PRICE_MAX || c.low < -PRICE_MAX || c.low > PRICE_MAX
            || c.close < -PRICE_MAX || c.close > PRICE_MAX {
            assert(!candles@[i as int].ok());
            return false;
        }
        i += 1;
    }
    true
}

/// A row is a candle exactly where it has six columns, the first one whole and the next five
/// numbers in text; the columns are the opening time, the four prices and the volume.
pub proof fn law_columns_of_a_candle(cells: Seq<CellView>)
    ensures
        ({
            let r = row_candle(Some(cells));
            &&& r is Ok <==> cells.len() >= 6 && cells[0] is Int && (forall|k: int|
                1 <= k <= 5 ==> #[trigger] cells[k] is Text && fixed_value(cells[k]->Text_0)
                    is Some)
            &&& r is Ok ==> {
                let c = r->Ok_0;
                &&& cells[0] == CellView::Int(c.open_time)
                &&& fixed_value(cells[1]->Text_0) == Some(c.open)
                &&& fixed_value(cells[2]->Text_0) == Some(c.high)
                &&& fixed_value(cells[3]->Text_0) == Some(c.low)
                &&& fixed_value(cells[4]->Text_0) == Some(c.close)
                &&& fixed_value(cells[5]->Text_0) == Some(c.volume)
            }
        }),
        row_candle(None) is Err,
{
    let r = row_candle(Some(cells));
    if r is Ok {
        assert forall|k: int| 1 <= k <= 5 implies #[trigger] cells[k] is Text && fixed_value(
            cells[k]->Text_0,
        ) is Some by {
            assert(cell_number(cells, k) is Ok);
        }
    } else if cells.len() >= 6 && cells[0] is Int && (forall|k: int|
        1 <= k <= 5 ==> #[trigger] cells[k] is Text && fixed_value(cells[k]->Text_0) is Some) {
        assert(cells[1] is Text && cells[2] is Text && cells[3] is Text && cells[4] is Text
            && cells[5] is Text);
    }
}

} // verus!
