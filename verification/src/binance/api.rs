use vstd::prelude::*;
use vstd::string::StringExecFns;

verus! {

/// What the exchange says of one trading pair.
#[allow(non_snake_case)]
#[derive(Debug)]
pub struct SymbolInfo {
    /// The pair's name, such as `BTCUSDT`.
    pub symbol: String,
    /// Whether the pair trades, in the exchange's word.
    pub status: String,
    /// The asset that is bought and sold.
    pub baseAsset: String,
    /// The asset in which it is priced.
    pub quoteAsset: String,
}

/// Whether a pair is open for trading and priced in USDT.
pub open spec fn is_listed_against_usdt(info: SymbolInfo) -> bool {
    info.status@ == "TRADING"@ && info.quoteAsset@ == "USDT"@
}

/// The line that is written for a pair: name, status, base and quote asset
/// with commas between them, and a line break.
pub open spec fn symbol_line_text(info: SymbolInfo) -> Seq<char> {
    info.symbol@ + seq![','] + info.status@ + seq![','] + info.baseAsset@ + seq![',']
        + info.quoteAsset@ + seq!['\n']
}

/// The lines of the pairs that are open for trading and priced in USDT, in
/// the order of the pairs.
pub open spec fn listed_lines(symbols: Seq<SymbolInfo>) -> Seq<Seq<char>>
    decreases symbols.len(),
{
    if symbols.len() == 0 {
        Seq::empty()
    } else if is_listed_against_usdt(symbols.last()) {
        listed_lines(symbols.drop_last()).push(symbol_line_text(symbols.last()))
    } else {
        listed_lines(symbols.drop_last())
    }
}

/// The texts of a list of strings.
pub open spec fn texts_of(strings: Seq<String>) -> Seq<Seq<char>> {
    strings.map_values(|text: String| text@)
}

/// Fields with commas between them.
pub open spec fn joined_by_commas(fields: Seq<Seq<char>>) -> Seq<char>
    decreases fields.len(),
{
    if fields.len() == 0 {
        Seq::empty()
    } else if fields.len() == 1 {
        fields[0]
    } else {
        joined_by_commas(fields.drop_last()) + seq![','] + fields.last()
    }
}

/// Whether a pair is open for trading and priced in USDT.
pub fn is_tradable_against_usdt(info: &SymbolInfo) -> (listed: bool)
    ensures
        listed == is_listed_against_usdt(*info),
{
    let trading = String::from_str("TRADING");
    let usdt = String::from_str("USDT");
    info.status == trading && info.quoteAsset == usdt
}

/// The line that is written for a pair.
pub fn symbol_line(info: &SymbolInfo) -> (line: String)
    ensures
        line@ == symbol_line_text(*info),
{
    proof {
        reveal_strlit(",");
        reveal_strlit("\n");
    }
    let mut line = info.symbol.clone();
    line.append(",");
    line.append(info.status.as_str());
    line.append(",");
    line.append(info.baseAsset.as_str());
    line.append(",");
    line.append(info.quoteAsset.as_str());
    line.append("\n");
    line
}

/// The lines to write for the exchange's pairs: one for each pair that is
/// open for trading and priced in USDT.
pub fn tradable_symbol_lines(symbols: &[SymbolInfo]) -> (lines: Vec<String>)
    ensures
        texts_of(lines@) == listed_lines(symbols@),
{
    let mut lines: Vec<String> = Vec::new();
    let mut i: usize = 0;
    while i < symbols.len()
        invariant
            i <= symbols@.len(),
            texts_of(lines@) == listed_lines(symbols@.take(i as int)),
        decreases symbols@.len() - i,
    {
        assert(symbols@.take(i + 1).drop_last() == symbols@.take(i as int));
        if is_tradable_against_usdt(&symbols[i]) {
            let line = symbol_line(&symbols[i]);
            lines.push(line);
        }
        i = i + 1;
    }
    assert(symbols@.take(symbols@.len() as int) == symbols@);
    lines
}

/// One row of bars as a line: its fields with commas between them, and a
/// line break.
pub fn kline_row_line(row: &[String]) -> (line: String)
    ensures
        line@ == joined_by_commas(texts_of(row@)) + seq!['\n'],
{
    proof {
        reveal_strlit("\n");
    }
    let mut line = String::new();
    let mut i: usize = 0;
    while i < row.len()
        invariant
            i <= row@.len(),
            line@ == joined_by_commas(texts_of(row@.take(i as int))),
        decreases row@.len() - i,
    {
        proof {
            reveal_strlit(",");
            assert(texts_of(row@.take(i + 1)).drop_last() =~= texts_of(row@.take(i as int)));
        }
        if i > 0 {
            line.append(",");
        }
        line.append(row[i].as_str());
        i = i + 1;
    }
    assert(row@.take(row@.len() as int) == row@);
    line.append("\n");
    line
}

} // verus!
