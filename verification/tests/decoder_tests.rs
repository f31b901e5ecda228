use trader_core::market_data::{envelope_tag, MessageTag};

#[test]
fn recognized_tags_classify_their_events() {
    assert_eq!(envelope_tag(b"[\"q\",{\"c\":\"SPY.US\"}]"), MessageTag::Quote);
    assert_eq!(
        envelope_tag(b"[\"b\",{\"i\":\"QQQ.US\",\"n\":1}]"),
        MessageTag::OrderBookDelta
    );
    assert_eq!(
        envelope_tag(b"[\"portfolio\",{\"pos\":[]}]"),
        MessageTag::PortfolioSnapshot
    );
}

#[test]
fn leading_whitespace_is_skipped() {
    assert_eq!(envelope_tag(b"  \t\n[ \"q\", {}]"), MessageTag::Quote);
}

#[test]
fn unrecognized_shapes_yield_no_event() {
    assert_eq!(envelope_tag(b""), MessageTag::Unknown);
    assert_eq!(envelope_tag(b"{\"q\": 1}"), MessageTag::Unknown);
    assert_eq!(envelope_tag(b"[\"orders\", {}]"), MessageTag::Unknown);
    assert_eq!(envelope_tag(b"[\"portfolioX\", {}]"), MessageTag::Unknown);
    assert_eq!(envelope_tag(b"[\"portfoli\", {}]"), MessageTag::Unknown);
    assert_eq!(envelope_tag(b"[[\"q\"], {}]"), MessageTag::Unknown);
    assert_eq!(envelope_tag(b"[\"q"), MessageTag::Unknown);
    // A tag with an escape never matches the plain grammar.
    assert_eq!(envelope_tag(b"[\"\\u0071\", {}]"), MessageTag::Unknown);
}
