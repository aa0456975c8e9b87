use reward_shaping_trading::bybit::{kline_rows, BybitClient, BybitResponse, BybitResult};

fn row(ts: &str, n: usize) -> Vec<String> {
    let mut r = vec![ts.to_string()];
    for i in 1..n {
        r.push(format!("{}", i));
    }
    r
}

fn response(code: i32, msg: &str, list: Vec<Vec<String>>) -> BybitResponse {
    BybitResponse {
        ret_code: code,
        ret_msg: msg.to_string(),
        result: BybitResult {
            symbol: Some("BTCUSDT".to_string()),
            category: Some("linear".to_string()),
            list,
        },
    }
}

#[test]
fn test_bybit_client_new() {
    let c = BybitClient::new();
    assert_eq!(c.base_url, "https://api.bybit.com");
    let d = BybitClient::default();
    assert_eq!(d.base_url, "https://api.bybit.com");
}

#[test]
fn test_kline_url() {
    let c = BybitClient::new();
    assert_eq!(
        c.kline_url("BTCUSDT", "60", 200),
        "https://api.bybit.com/v5/market/kline?category=linear&symbol=BTCUSDT&interval=60&limit=200"
    );
    let custom = BybitClient { base_url: "http://localhost:8080".to_string() };
    assert_eq!(
        custom.kline_url("ETHUSDT", "D", 0),
        "http://localhost:8080/v5/market/kline?category=linear&symbol=ETHUSDT&interval=D&limit=0"
    );
}

#[test]
fn test_kline_rows_oldest_first_complete_only() {
    let list = vec![row("3000", 7), row("2000", 5), row("1000", 6), row("500", 0)];
    let rows = match kline_rows(response(0, "OK", list)) {
        Ok(rows) => rows,
        Err(_) => panic!("expected rows"),
    };
    assert_eq!(rows.len(), 2);
    assert_eq!(rows[0], row("1000", 6));
    assert_eq!(rows[1], row("3000", 7));
}

#[test]
fn test_kline_rows_empty_list() {
    match kline_rows(response(0, "OK", vec![])) {
        Ok(rows) => assert!(rows.is_empty()),
        Err(_) => panic!("expected rows"),
    }
}

#[test]
fn test_kline_rows_api_error() {
    match kline_rows(response(10001, "params error", vec![row("1", 6)])) {
        Ok(_) => panic!("expected an error"),
        Err(e) => {
            assert_eq!(e.ret_code, 10001);
            assert_eq!(e.ret_msg, "params error");
            assert_eq!(e.message(), "Bybit API error: params error");
        }
    }
}
