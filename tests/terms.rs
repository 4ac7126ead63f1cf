use objective_bank::ids::{parse_i32_field, parse_id_list};
use objective_bank::plan::{compile_search, requested_goal_area_ids, SearchPlan};
use objective_bank::sql::{objective_search_sql, search_sql_text};
use objective_bank::tokenizer::{
    escape_token, is_whitespace_char, split_words, tokenize, ts_query_terms, Phrase,
};

fn strings(v: &[&str]) -> Vec<String> {
    v.iter().map(|s| s.to_string()).collect()
}

#[test]
fn whitespace_agrees_with_std() {
    for u in 0u32..0x3100 {
        if let Some(c) = char::from_u32(u) {
            assert_eq!(is_whitespace_char(c), c.is_whitespace(), "{:?}", c);
        }
    }
}

#[test]
fn split_words_drops_empty_pieces() {
    assert_eq!(split_words("  greets\tpeers \n"), strings(&["greets", "peers"]));
    assert_eq!(split_words("a\u{3000}b\u{A0}c"), strings(&["a", "b", "c"]));
    assert!(split_words("").is_empty());
    assert!(split_words(" \r\n ").is_empty());
}

#[test]
fn tokenize_tells_the_three_states_apart() {
    assert!(matches!(tokenize(&None), Phrase::Absent));
    assert!(matches!(tokenize(&Some(" ".to_string())), Phrase::EmptyPresent));
    match tokenize(&Some("x  yz".to_string())) {
        Phrase::Tokens(t) => assert_eq!(t, strings(&["x", "yz"])),
        _ => panic!("expected tokens"),
    }
}

#[test]
fn escape_doubles_quotes_and_backslashes() {
    assert_eq!(escape_token("o'k"), "o''k");
    assert_eq!(escape_token("a\\b"), "a\\\\b");
    assert_eq!(escape_token("plain"), "plain");
    assert_eq!(escape_token(""), "");
}

#[test]
fn ts_query_joins_prefix_terms_with_or() {
    assert_eq!(ts_query_terms(&strings(&["greet"])), "'greet':*");
    assert_eq!(ts_query_terms(&strings(&["greet", "o'k"])), "'greet':* | 'o''k':*");
    assert_eq!(ts_query_terms(&vec![]), "");
}

#[test]
fn injected_phrase_stays_terms() {
    let plan = compile_search(&Some("' OR 1=1 --".to_string()), &None);
    let q = objective_search_sql(&plan).unwrap();
    assert_eq!(q.ts_query.as_deref(), Some("'''':* | 'OR':* | '1=1':* | '--':*"));
    let plain = objective_search_sql(&compile_search(&Some("greet".to_string()), &None)).unwrap();
    assert_eq!(q.sql, plain.sql);
    assert!(!q.sql.contains("OR 1=1"));
}

#[test]
fn sql_binds_values_in_order() {
    let plan = compile_search(&Some("greet".to_string()), &Some("1,2".to_string()));
    let q = objective_search_sql(&plan).unwrap();
    assert_eq!(q.ts_query.as_deref(), Some("'greet':*"));
    assert_eq!(q.goal_area_ids, Some(vec![1, 2]));
    assert!(q.sql.contains("to_tsquery($1)"));
    assert!(q.sql.contains("$2::integer[]"));
    assert_eq!(q.sql, search_sql_text(true, true));

    let q = objective_search_sql(&compile_search(&None, &Some("7".to_string()))).unwrap();
    assert_eq!(q.ts_query, None);
    assert_eq!(q.goal_area_ids, Some(vec![7]));
    assert!(q.sql.contains("$1::integer[]"));
    assert!(!q.sql.contains("to_tsquery"));

    let q = objective_search_sql(&compile_search(&None, &None)).unwrap();
    assert!(q.sql.ends_with(" WHERE TRUE AND TRUE"));
}

#[test]
fn empty_requests_need_no_query() {
    assert!(objective_search_sql(&SearchPlan::Nothing).is_none());
    assert!(objective_search_sql(&compile_search(&Some("".to_string()), &None)).is_none());
    assert!(objective_search_sql(&compile_search(&None, &Some("".to_string()))).is_none());
}

fn parse(s: &str) -> Option<i32> {
    parse_i32_field(s, 0, s.chars().count())
}

#[test]
fn parse_agrees_with_from_str() {
    for s in [
        "0", "7", "+7", "-7", "-0", "", "+", "-", " 1", "1 ", "1a", "2147483647", "2147483648",
        "-2147483648", "-2147483649", "99999999999999999999", "00012", "+-1", "１",
    ] {
        assert_eq!(parse(s), s.parse::<i32>().ok(), "{:?}", s);
    }
}

#[test]
fn parse_reads_a_range_of_a_string() {
    assert_eq!(parse_i32_field("ab12cd", 2, 4), Some(12));
    assert_eq!(parse_i32_field("ab12cd", 2, 2), None);
}

#[test]
fn id_list_drops_malformed_pieces() {
    assert_eq!(parse_id_list("1,2,3"), vec![1, 2, 3]);
    assert_eq!(parse_id_list("1, 2,x,3,"), vec![1, 3]);
    assert_eq!(parse_id_list(""), Vec::<i32>::new());
    assert_eq!(parse_id_list(",,"), Vec::<i32>::new());
    assert_eq!(parse_id_list("-4,+5,99999999999"), vec![-4, 5]);
    assert_eq!(requested_goal_area_ids(&None), None);
    assert_eq!(requested_goal_area_ids(&Some("2".to_string())), Some(vec![2]));
}
