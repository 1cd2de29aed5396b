use data_fetch::{
    classify_fetch_error, format_log_line, format_price, format_timestamp, is_even, parse_price,
    persist_outcome, registered_sources, ChartQuotes, CoinQuotes, Cycle, ErrorKind, FetchError,
    Outcome, Price, PriceSource, Response, Step, UtcTime, COIN_QUOTE_URL, INDEX_CHART_URL,
};

fn coins(bitcoin: Option<&str>, ethereum: Option<&str>) -> Response {
    Response::Coins(CoinQuotes {
        bitcoin: bitcoin.map(|s| s.to_string()),
        ethereum: ethereum.map(|s| s.to_string()),
    })
}

fn chart(prices: &[&str]) -> Response {
    Response::Chart(ChartQuotes { market_prices: prices.iter().map(|s| s.to_string()).collect() })
}

fn instant() -> UtcTime {
    UtcTime { year: 2024, month: 3, day: 5, hour: 7, minute: 8, second: 9 }
}

fn price(cents: u64) -> Price {
    Price { negative: false, cents }
}

#[test]
fn crypto_answer_decodes_to_its_price() {
    let p = PriceSource::Bitcoin.decode_price(&coins(Some("65000.5"), None)).unwrap();
    assert_eq!(p, price(6500050));
    assert_eq!(format_price(p), "65000.50");
}

#[test]
fn second_coin_reads_its_own_field() {
    let answer = coins(Some("65000.5"), Some("3100.75"));
    assert_eq!(PriceSource::Ethereum.decode_price(&answer).unwrap(), price(310075));
    assert_eq!(PriceSource::Bitcoin.decode_price(&answer).unwrap(), price(6500050));
}

#[test]
fn chart_answer_decodes_first_result() {
    let p = PriceSource::SP500.decode_price(&chart(&["4500.25", "1.0"])).unwrap();
    assert_eq!(p, price(450025));
    assert_eq!(format_price(p), "4500.25");
}

#[test]
fn missing_coin_is_a_data_shape_error() {
    let e = PriceSource::Bitcoin.decode_price(&coins(None, Some("3100.75"))).unwrap_err();
    assert!(matches!(e, FetchError::PriceNotFound));
    assert_eq!(e.kind(), ErrorKind::DataShape);
}

#[test]
fn empty_chart_is_a_data_shape_error() {
    let e = PriceSource::SP500.decode_price(&chart(&[])).unwrap_err();
    assert!(matches!(e, FetchError::PriceNotFound));
    assert_eq!(e.kind(), ErrorKind::DataShape);
}

#[test]
fn wrong_answer_shape_has_no_price() {
    let e = PriceSource::SP500.decode_price(&coins(Some("1.0"), Some("2.0"))).unwrap_err();
    assert!(matches!(e, FetchError::PriceNotFound));
    let e = PriceSource::Ethereum.decode_price(&chart(&["1.0"])).unwrap_err();
    assert!(matches!(e, FetchError::PriceNotFound));
}

#[test]
fn unreadable_price_is_a_data_shape_error() {
    let e = PriceSource::Bitcoin.decode_price(&coins(Some("NaN"), None)).unwrap_err();
    assert!(matches!(e, FetchError::UnreadablePrice));
    assert_eq!(e.kind(), ErrorKind::DataShape);
}

#[test]
fn transport_failure_passes_through() {
    let r = PriceSource::Bitcoin.fetch_price(Err(FetchError::Transport("refused".to_string())));
    match r {
        Err(FetchError::Transport(m)) => assert_eq!(m, "refused"),
        other => panic!("unexpected {:?}", other),
    }
    let r = PriceSource::SP500.fetch_price(Ok(chart(&["4500.25"])));
    assert_eq!(r.unwrap(), price(450025));
}

#[test]
fn status_429_is_rate_limited() {
    assert!(matches!(classify_fetch_error(FetchError::Status(429)), Outcome::RateLimited));
}

#[test]
fn other_statuses_are_transport_errors() {
    for code in [400u16, 404, 428, 430, 500, 503] {
        let e = FetchError::Status(code);
        assert_eq!(e.kind(), ErrorKind::Transport);
        match classify_fetch_error(e) {
            Outcome::FetchFailed(FetchError::Status(c)) => assert_eq!(c, code),
            other => panic!("unexpected {:?}", other),
        }
    }
    let e = FetchError::Transport("connection reset".to_string());
    assert_eq!(e.kind(), ErrorKind::Transport);
    assert!(matches!(classify_fetch_error(e), Outcome::FetchFailed(FetchError::Transport(_))));
}

#[test]
fn price_renders_two_decimals() {
    assert_eq!(format_price(parse_price("100").unwrap()), "100.00");
    assert_eq!(format_price(parse_price("0.5").unwrap()), "0.50");
    assert_eq!(format_price(parse_price("7.04").unwrap()), "7.04");
    assert_eq!(format_price(parse_price("12.3456").unwrap()), "12.35");
    assert_eq!(format_price(parse_price("12.344").unwrap()), "12.34");
    assert_eq!(format_price(parse_price("0.995").unwrap()), "1.00");
    assert_eq!(format_price(price(5)), "0.05");
}

#[test]
fn negative_prices_keep_their_sign() {
    assert_eq!(parse_price("-2.5").unwrap(), Price { negative: true, cents: 250 });
    assert_eq!(format_price(parse_price("-2.5").unwrap()), "-2.50");
    assert_eq!(format_price(parse_price("-0.001").unwrap()), "-0.00");
}

#[test]
fn malformed_literals_are_refused() {
    for text in ["", "-", ".5", "5.", "1e5", "1.2.3", "+1", " 1", "1,5", "inf", "--1"] {
        assert_eq!(parse_price(text), None, "{text}");
    }
}

#[test]
fn integer_digits_are_bounded() {
    assert_eq!(parse_price("999999999999999.99").unwrap(), price(99999999999999999));
    assert_eq!(parse_price("1000000000000000"), None);
}

#[test]
fn timestamp_has_fixed_pattern() {
    assert_eq!(format_timestamp(&instant()), "2024-03-05 07:08:09 UTC");
    let t = UtcTime { year: 999, month: 12, day: 31, hour: 23, minute: 59, second: 59 };
    assert_eq!(format_timestamp(&t), "0999-12-31 23:59:59 UTC");
}

#[test]
fn years_outside_four_digits_carry_a_sign() {
    let t = UtcTime { year: 12345, month: 1, day: 1, hour: 0, minute: 0, second: 0 };
    assert_eq!(format_timestamp(&t), "+12345-01-01 00:00:00 UTC");
    let t = UtcTime { year: -44, month: 3, day: 15, hour: 12, minute: 0, second: 0 };
    assert_eq!(format_timestamp(&t), "-0044-03-15 12:00:00 UTC");
}

#[test]
fn log_line_is_one_record() {
    assert_eq!(format_log_line(&instant(), price(10000)), "2024-03-05 07:08:09 UTC: $100.00\n");
}

#[test]
fn two_records_append_as_two_lines_in_order() {
    let prior = "2024-03-05 07:07:39 UTC: $99.00\n".to_string();
    let mut log = prior.clone();
    log.push_str(&format_log_line(&instant(), price(10000)));
    log.push_str(&format_log_line(&instant(), price(10100)));
    assert!(log.starts_with(&prior));
    let lines: Vec<&str> = log.lines().collect();
    assert_eq!(
        lines,
        vec![
            "2024-03-05 07:07:39 UTC: $99.00",
            "2024-03-05 07:08:09 UTC: $100.00",
            "2024-03-05 07:08:09 UTC: $101.00",
        ]
    );
}

#[test]
fn current_time_is_in_range() {
    let t = UtcTime::now();
    assert!(t.year >= 2024);
    assert!((1..=12).contains(&t.month) && (1..=31).contains(&t.day));
    assert!(t.hour < 24 && t.minute < 60 && t.second < 60);
    assert_eq!(format_timestamp(&t).len(), 23);
}

#[test]
fn fetched_price_becomes_a_record() {
    match PriceSource::Ethereum.step_at(Ok(coins(None, Some("3100.75"))), &instant()) {
        Step::Append(rec) => {
            assert_eq!(rec.file, "ethereum_prices.txt");
            assert_eq!(rec.line, "2024-03-05 07:08:09 UTC: $3100.75\n");
            assert_eq!(rec.price, price(310075));
        }
        other => panic!("unexpected {:?}", other),
    }
}

#[test]
fn record_stamped_now_has_the_price() {
    match PriceSource::SP500.next_step(Ok(chart(&["4500.25"]))) {
        Step::Append(rec) => {
            assert_eq!(rec.file, "sp500_prices.txt");
            assert!(rec.line.ends_with(" UTC: $4500.25\n"));
            assert_eq!(rec.line.len(), 23 + ": $4500.25\n".len());
        }
        other => panic!("unexpected {:?}", other),
    }
}

#[test]
fn failed_fetch_becomes_a_report() {
    match PriceSource::Bitcoin.step_at(Err(FetchError::Status(429)), &instant()) {
        Step::Report(Outcome::RateLimited) => {}
        other => panic!("unexpected {:?}", other),
    }
    match PriceSource::SP500.step_at(Ok(chart(&[])), &instant()) {
        Step::Report(Outcome::FetchFailed(FetchError::PriceNotFound)) => {}
        other => panic!("unexpected {:?}", other),
    }
}

#[test]
fn write_result_gives_the_outcome() {
    assert!(matches!(persist_outcome(price(1), Ok(())), Outcome::Saved(p) if p == price(1)));
    match persist_outcome(price(1), Err("disk full".to_string())) {
        Outcome::PersistFailed(m) => assert_eq!(m, "disk full"),
        other => panic!("unexpected {:?}", other),
    }
}

#[test]
fn failures_do_not_stop_the_cycle() {
    let mut cycle = Cycle::new();
    let mut polled = Vec::new();
    let mut outcomes = vec![
        Outcome::FetchFailed(FetchError::Transport("timeout".to_string())),
        Outcome::PersistFailed("read-only".to_string()),
        Outcome::Saved(price(450025)),
    ]
    .into_iter();
    while let Some(source) = cycle.next_source() {
        polled.push(source);
        cycle.record(outcomes.next().unwrap());
    }
    assert!(cycle.is_complete());
    assert_eq!(polled, vec![PriceSource::Bitcoin, PriceSource::Ethereum, PriceSource::SP500]);
    let reports = cycle.reports();
    assert_eq!(reports.len(), 3);
    assert!(matches!(reports[0].outcome, Outcome::FetchFailed(_)));
    assert!(matches!(reports[1].outcome, Outcome::PersistFailed(_)));
    assert!(matches!(reports[2].outcome, Outcome::Saved(_)));
    assert_eq!(reports[2].source, PriceSource::SP500);
}

#[test]
fn full_cycle_ignores_extra_outcomes() {
    let mut cycle = Cycle::new();
    for _ in 0..4 {
        cycle.record(Outcome::RateLimited);
    }
    assert_eq!(cycle.reports().len(), 3);
    assert_eq!(cycle.next_source(), None);
}

#[test]
fn sources_are_registered_in_order() {
    assert_eq!(
        registered_sources(),
        vec![PriceSource::Bitcoin, PriceSource::Ethereum, PriceSource::SP500]
    );
    assert_eq!(PriceSource::Bitcoin.get_name(), "Bitcoin");
    assert_eq!(PriceSource::Ethereum.get_name(), "Ethereum");
    assert_eq!(PriceSource::SP500.get_name(), "S&P 500");
    assert_eq!(PriceSource::Bitcoin.log_file(), "bitcoin_prices.txt");
    assert_eq!(PriceSource::SP500.log_file(), "sp500_prices.txt");
    assert_eq!(PriceSource::Ethereum.endpoint(), COIN_QUOTE_URL);
    assert_eq!(PriceSource::SP500.endpoint(), INDEX_CHART_URL);
    assert!(PriceSource::Bitcoin.wants_coin_quotes());
    assert!(!PriceSource::SP500.wants_coin_quotes());
}

#[test]
fn parity() {
    assert!(is_even(12));
    assert!(!is_even(5));
    assert!(is_even(0));
    assert!(!is_even(-3));
}
