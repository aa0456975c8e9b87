//! The Bybit market-data client's own logic: the kline request's address and
//! what is kept of a kline response. The HTTP call and JSON decoding are done
//! by the caller, who hands the decoded response in.

use vstd::prelude::*;
use vstd::string::*;

use crate::decimal::{
    all_decimal_digits, decimal_text, digits_value, lemma_decimal_text_denotes,
    lemma_parse_decimal_text, parsed_u64, push_decimal,
};

verus! {

/// A decoded Bybit API response.
pub struct BybitResponse {
    pub ret_code: i32,
    pub ret_msg: String,
    pub result: BybitResult,
}

/// The `result` object of a Bybit kline response: rows of text fields,
/// newest row first.
pub struct BybitResult {
    pub symbol: Option<String>,
    pub category: Option<String>,
    pub list: Vec<Vec<String>>,
}

/// Client for fetching market data from Bybit.
pub struct BybitClient {
    pub base_url: String,
}

/// The error a response with a nonzero `retCode` stands for.
pub struct BybitApiError {
    pub ret_code: i32,
    pub ret_msg: String,
}

/// The address of a kline request.
pub open spec fn kline_url_text(
    base_url: Seq<char>,
    symbol: Seq<char>,
    interval: Seq<char>,
    limit: nat,
) -> Seq<char> {
    base_url + "/v5/market/kline?category=linear&symbol="@ + symbol + "&interval="@ + interval
        + "&limit="@ + decimal_text(limit)
}

/// Everything of a kline request's address before the limit's digits.
pub open spec fn kline_url_prefix(base_url: Seq<char>, symbol: Seq<char>, interval: Seq<char>) -> Seq<
    char,
> {
    base_url + "/v5/market/kline?category=linear&symbol="@ + symbol + "&interval="@ + interval
        + "&limit="@
}

/// The address of a kline request asks for exactly the given limit: past the
/// fixed part (base, path, symbol, interval, `&limit=`) it holds nothing but a
/// nonempty run of digits that denotes `limit` and reads back as `limit`.
pub proof fn lemma_kline_url_limit(base_url: Seq<char>, symbol: Seq<char>, interval: Seq<char>, limit: u64)
    ensures
        ({
            let url = kline_url_text(base_url, symbol, interval, limit as nat);
            let k = kline_url_prefix(base_url, symbol, interval).len() as int;
            &&& url.len() > k
            &&& url.take(k) == kline_url_prefix(base_url, symbol, interval)
            &&& all_decimal_digits(url.skip(k))
            &&& digits_value(url.skip(k)) == limit
            &&& parsed_u64(url.skip(k)) == Some(limit)
        }),
{
    let url = kline_url_text(base_url, symbol, interval, limit as nat);
    let p = kline_url_prefix(base_url, symbol, interval);
    let t = decimal_text(limit as nat);
    assert(url =~= p + t);
    assert(url.take(p.len() as int) =~= p);
    assert(url.skip(p.len() as int) =~= t);
    lemma_decimal_text_denotes(limit as nat);
    lemma_parse_decimal_text(limit);
}

/// A kline row is used only where it has all six fields (start time, open,
/// high, low, close, volume).
pub open spec fn is_complete_row(row: Vec<String>) -> bool {
    row@.len() >= 6
}

/// The complete rows of a newest-first list, oldest first.
pub open spec fn complete_rows_oldest_first(list: Seq<Vec<String>>) -> Seq<Vec<String>> {
    list.filter(|row: Vec<String>| is_complete_row(row)).reverse()
}

proof fn lemma_push_reverse<A>(s: Seq<A>, x: A)
    ensures
        s.push(x).reverse() =~= seq![x] + s.reverse(),
{
}

proof fn lemma_complete_rows_last(list: Seq<Vec<String>>)
    requires
        list.len() > 0,
    ensures
        complete_rows_oldest_first(list) == if is_complete_row(list.last()) {
            seq![list.last()] + complete_rows_oldest_first(list.drop_last())
        } else {
            complete_rows_oldest_first(list.drop_last())
        },
{
    let pred = |row: Vec<String>| is_complete_row(row);
    reveal(Seq::filter);
    assert(list.filter(pred) == if pred(list.last()) {
        list.drop_last().filter(pred).push(list.last())
    } else {
        list.drop_last().filter(pred)
    });
    lemma_push_reverse(list.drop_last().filter(pred), list.last());
}

/// A successful response keeps exactly the rows that have at least six
/// fields, whatever text those fields hold, newest-first order turned into
/// oldest first: the result is the list's rows of length at least six, reversed.
/// Each kept row has six fields or more, and each such row of the list is kept.
pub proof fn lemma_complete_rows_by_length(list: Seq<Vec<String>>)
    ensures
        complete_rows_oldest_first(list) == list.filter(|row: Vec<String>| row@.len() >= 6).reverse(),
        forall|i: int|
            0 <= i < complete_rows_oldest_first(list).len() ==> (#[trigger] complete_rows_oldest_first(
                list,
            )[i])@.len() >= 6,
        forall|j: int|
            0 <= j < list.len() && (#[trigger] list[j])@.len() >= 6 ==> complete_rows_oldest_first(
                list,
            ).contains(list[j]),
{
    let f1 = |row: Vec<String>| is_complete_row(row);
    let f2 = |row: Vec<String>| row@.len() >= 6;
    assert(f1 =~= f2);
    let kept = list.filter(f2);
    let out = kept.reverse();
    assert forall|i: int| 0 <= i < out.len() implies (#[trigger] out[i])@.len() >= 6 by {
        assert(out[i] == kept[kept.len() - 1 - i]);
        list.lemma_filter_pred(f2, kept.len() - 1 - i);
    }
    assert forall|j: int| 0 <= j < list.len() && (#[trigger] list[j])@.len() >= 6 implies out.contains(
        list[j],
    ) by {
        list.lemma_filter_contains(f2, j);
        let k = choose|k: int| 0 <= k < kept.len() && kept[k] == list[j];
        assert(out[kept.len() - 1 - k] == list[j]);
    }
}

impl BybitClient {
    pub fn new() -> (r: BybitClient)
        ensures
            r.base_url@ == "https://api.bybit.com"@,
    {
        BybitClient { base_url: String::from_str("https://api.bybit.com") }
    }

    /// The address of the kline (candlestick) request for `symbol`, `interval`
    /// and `limit`.
    pub fn kline_url(&self, symbol: &str, interval: &str, limit: usize) -> (r: String)
        ensures
            r@ == kline_url_text(self.base_url@, symbol@, interval@, limit as nat),
            r@.take(kline_url_prefix(self.base_url@, symbol@, interval@).len() as int)
                == kline_url_prefix(self.base_url@, symbol@, interval@),
            parsed_u64(r@.skip(kline_url_prefix(self.base_url@, symbol@, interval@).len() as int))
                == Some(limit as u64),
    {
        let mut url = self.base_url.clone();
        url.append("/v5/market/kline?category=linear&symbol=");
        url.append(symbol);
        url.append("&interval=");
        url.append(interval);
        url.append("&limit=");
        push_decimal(&mut url, limit);
        proof {
            lemma_kline_url_limit(self.base_url@, symbol@, interval@, limit as u64);
        }
        url
    }
}

impl Default for BybitClient {
    fn default() -> (r: BybitClient)
        ensures
            r.base_url@ == "https://api.bybit.com"@,
    {
        BybitClient::new()
    }
}

impl BybitApiError {
    /// The text of the error: `Bybit API error: ` and the response's message.
    pub fn message(&self) -> (r: String)
        ensures
            r@ == "Bybit API error: "@ + self.ret_msg@,
    {
        let mut text = String::from_str("Bybit API error: ");
        text.append(self.ret_msg.as_str());
        text
    }
}

/// The kline rows of a response, oldest first, keeping only complete rows;
/// a response whose `retCode` is not `0` is an error carrying its code and message.
pub fn kline_rows(response: BybitResponse) -> (r: Result<Vec<Vec<String>>, BybitApiError>)
    ensures
        r is Ok <==> response.ret_code == 0,
        r matches Ok(rows) ==> rows@ == complete_rows_oldest_first(response.result.list@),
        r matches Ok(rows) ==> rows@ == response.result.list@.filter(
            |row: Vec<String>| row@.len() >= 6,
        ).reverse(),
        r matches Err(e) ==> e.ret_code == response.ret_code && e.ret_msg == response.ret_msg,
{
    let BybitResponse { ret_code, ret_msg, result } = response;
    if ret_code != 0 {
        return Err(BybitApiError { ret_code, ret_msg });
    }
    let ghost all_rows = result.list@;
    let mut list = result.list;
    let mut rows: Vec<Vec<String>> = Vec::new();
    while list.len() > 0
        invariant
            rows@ + complete_rows_oldest_first(list@) == complete_rows_oldest_first(all_rows),
        decreases list.len(),
    {
        let ghost before = list@;
        proof {
            lemma_complete_rows_last(before);
        }
        let row = list.pop().unwrap();
        assert(list@ == before.drop_last());
        if row.len() >= 6 {
            let ghost prev = rows@;
            rows.push(row);
            assert(rows@ + complete_rows_oldest_first(list@) =~= prev + (seq![row]
                + complete_rows_oldest_first(list@)));
        }
    }
    assert(list@ =~= Seq::<Vec<String>>::empty());
    assert(complete_rows_oldest_first(list@) =~= Seq::<Vec<String>>::empty()) by {
        reveal(Seq::filter);
    }
    assert(rows@ + Seq::<Vec<String>>::empty() =~= rows@);
    proof {
        lemma_complete_rows_by_length(all_rows);
    }
    Ok(rows)
}

} // verus!
