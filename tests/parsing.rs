use arraybutt::json::{decode, Json};
use arraybutt::quotes::{flatten, parse_quotes, ParseError, QuoteCollection};

fn s(text: &str) -> Json {
    Json::Str(text.to_string())
}

fn entry(key: &str, value: Json) -> (String, Json) {
    (key.to_string(), value)
}

fn triples(c: &QuoteCollection) -> Vec<(String, String, String)> {
    flatten(&c.years)
        .iter()
        .map(|q| (q.year.clone(), q.month.clone(), q.text.clone()))
        .collect()
}

fn t(y: &str, m: &str, x: &str) -> (String, String, String) {
    (y.to_string(), m.to_string(), x.to_string())
}

#[test]
fn uniform_document_counts_every_quote() {
    let mut years = Vec::new();
    for y in 0..2 {
        let mut months = Vec::new();
        for m in 1..4 {
            let quotes = (0..4).map(|q| s(&format!("q{}-{}-{}", y, m, q))).collect();
            months.push(entry(&m.to_string(), Json::Array(quotes)));
        }
        years.push(entry(&format!("201{}", y), Json::Object(months)));
    }
    let c = parse_quotes(&Json::Object(years)).unwrap();
    assert_eq!(c.size, 2 * 3 * 4);
    let all = triples(&c);
    assert_eq!(all.len(), 24);
    for (year, month, text) in all {
        let y = year.chars().last().unwrap();
        assert_eq!(text[..text.rfind('-').unwrap()], format!("q{}-{}", y, month));
    }
    let year = c.years.get("2011").unwrap();
    let month = year.months.get("2").unwrap();
    assert_eq!(month.quotes[3].text, "q1-2-3");
    assert_eq!(month.quotes[3].year, "2011");
    assert_eq!(month.quotes[3].month, "2");
}

#[test]
fn year_that_is_not_an_object_is_skipped() {
    let doc = Json::Object(vec![
        entry("2018", Json::Object(vec![entry("1", Json::Array(vec![s("a"), s("b")]))])),
        entry("2019", Json::Other),
        entry("2020", Json::Object(vec![entry("5", Json::Array(vec![s("c")]))])),
    ]);
    let c = parse_quotes(&doc).unwrap();
    assert_eq!(c.size, 3);
    assert_eq!(c.years.len(), 2);
    assert!(c.years.get("2019").is_none());
    assert_eq!(triples(&c), vec![t("2018", "1", "a"), t("2018", "1", "b"), t("2020", "5", "c")]);
}

#[test]
fn month_that_is_not_an_array_is_skipped() {
    let doc = Json::Object(vec![entry(
        "2018",
        Json::Object(vec![entry("1", s("oops")), entry("2", Json::Array(vec![s("kept")]))]),
    )]);
    let c = parse_quotes(&doc).unwrap();
    assert_eq!(c.size, 1);
    assert_eq!(c.years.get("2018").unwrap().months.len(), 1);
    assert_eq!(triples(&c), vec![t("2018", "2", "kept")]);
}

#[test]
fn non_string_items_are_not_counted() {
    let doc = Json::Object(vec![entry(
        "2018",
        Json::Object(vec![entry("1", Json::Array(vec![s("a"), Json::Other, s("b"), Json::Array(vec![])]))]),
    )]);
    let c = parse_quotes(&doc).unwrap();
    assert_eq!(c.size, 2);
    assert_eq!(triples(&c), vec![t("2018", "1", "a"), t("2018", "1", "b")]);
}

#[test]
fn top_level_array_is_malformed() {
    let doc = Json::Array(vec![s("a")]);
    assert_eq!(parse_quotes(&doc).err(), Some(ParseError::MalformedDocument));
    let doc = decode("[\"a\", \"b\"]").unwrap();
    assert_eq!(parse_quotes(&doc).err(), Some(ParseError::MalformedDocument));
    assert_eq!(parse_quotes(&Json::Other).err(), Some(ParseError::MalformedDocument));
}

#[test]
fn empty_document_parses_to_nothing() {
    let c = parse_quotes(&Json::Object(vec![])).unwrap();
    assert_eq!(c.size, 0);
    assert_eq!(c.years.len(), 0);
}

#[test]
fn repeated_key_keeps_its_place_and_takes_the_last_value() {
    let doc = Json::Object(vec![
        entry("2018", Json::Object(vec![entry("1", Json::Array(vec![s("old")]))])),
        entry("2019", Json::Object(vec![entry("1", Json::Array(vec![s("mid")]))])),
        entry("2018", Json::Object(vec![entry("2", Json::Array(vec![s("new"), s("newer")]))])),
    ]);
    let c = parse_quotes(&doc).unwrap();
    assert_eq!(c.size, 3);
    assert_eq!(triples(&c), vec![t("2018", "2", "new"), t("2018", "2", "newer"), t("2019", "1", "mid")]);
}

#[test]
fn decode_reads_the_example_document() {
    let doc = decode("{\"2020\": {\"3\": [\"hello\", \"world\"]}}").unwrap();
    let c = parse_quotes(&doc).unwrap();
    assert_eq!(c.size, 2);
    assert_eq!(triples(&c), vec![t("2020", "3", "hello"), t("2020", "3", "world")]);
}

#[test]
fn decode_keeps_document_order_and_shapes() {
    let doc = decode("{\"b\": {\"1\": [\"x\", 5, null, \"y\"], \"2\": 7}, \"a\": [1], \"c\": {\"4\": [\"z\"]}}").unwrap();
    let c = parse_quotes(&doc).unwrap();
    assert_eq!(c.size, 3);
    assert_eq!(c.years.len(), 2);
    let all = triples(&c);
    assert!(all.contains(&t("b", "1", "x")));
    assert!(all.contains(&t("b", "1", "y")));
    assert!(all.contains(&t("c", "4", "z")));
}

#[test]
fn decode_rejects_text_that_is_not_json() {
    assert!(decode("{not json").is_err());
    assert!(decode("").is_err());
}

#[test]
fn decode_gives_the_whole_value() {
    match decode("{\"a\": [\"x\", 1, [[[\"deep\"]]]]}").unwrap() {
        Json::Object(entries) => {
            assert_eq!(entries.len(), 1);
            assert_eq!(entries[0].0, "a");
            match &entries[0].1 {
                Json::Array(items) => {
                    assert_eq!(items.len(), 3);
                    assert!(matches!(&items[0], Json::Str(s) if s == "x"));
                    assert!(matches!(&items[1], Json::Other));
                    assert!(matches!(&items[2], Json::Array(inner) if inner.len() == 1));
                }
                _ => panic!("expected an array"),
            }
        }
        _ => panic!("expected an object"),
    }
}
