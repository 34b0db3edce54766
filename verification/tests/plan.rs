use cargo_mirrorer::config::Config;
use cargo_mirrorer::fetching::plan::{FetchPlan, PlanParseError};
use cargo_mirrorer::text::{chars_eq, chars_of, contains_char, contains_text, parse_count, split, str_eq};

#[test]
fn fetching_is_parses_fetching_flag_correctly() {
    assert_eq!(
        Ok(FetchPlan::AllCrates),
        FetchPlan::try_from("all".to_string())
    );
    assert_eq!(
        Ok(FetchPlan::Playground),
        FetchPlan::try_from("playground".to_string())
    );
    assert_eq!(
        Ok(FetchPlan::TopN(100)),
        FetchPlan::try_from("100".to_string())
    );
    assert_eq!(
        Ok(FetchPlan::List(vec![
            "tokio".to_string(),
            "serde".to_string()
        ])),
        FetchPlan::try_from("tokio,serde".to_string())
    );
    assert_eq!(
        Err("Invalid fetching strategy provided".to_string()),
        FetchPlan::try_from("v9W1x".to_string())
    );
}

#[test]
fn plan_is_parses_fetching_flag_correctly() {
    assert_eq!(FetchPlan::AllCrates, FetchPlan::from_str("all").unwrap());
    assert_eq!(
        FetchPlan::Playground,
        FetchPlan::from_str("playground").unwrap()
    );
    assert_eq!(FetchPlan::TopN(100), FetchPlan::from_str("100").unwrap());
    assert_eq!(
        FetchPlan::List(vec!["tokio".to_string(), "serde".to_string()]),
        FetchPlan::from_str("tokio,serde").unwrap()
    );
    assert!(FetchPlan::from_str("v9W1x").is_err())
}

#[test]
fn the_same_flag_always_gives_the_same_plan() {
    for flag in ["all", "playground", "0", "42", "a,b", ",", "nothing", ""] {
        assert_eq!(FetchPlan::from_str(flag), FetchPlan::from_str(flag));
        assert_eq!(
            FetchPlan::from_str(flag).ok(),
            FetchPlan::try_from(flag.to_string()).ok()
        );
    }
}

#[test]
fn invalid_flags_fail_with_the_parse_error() {
    for flag in ["", "v9W1x", "All", "ALL", " all", "all ", "play ground", "-1", "+", "1.5", "1 2"] {
        assert_eq!(Err(PlanParseError), FetchPlan::from_str(flag));
    }
    assert_eq!(
        "Invalid fetching strategy provided",
        PlanParseError.message()
    );
}

#[test]
fn a_count_takes_precedence_over_a_name_of_digits() {
    assert_eq!(Ok(FetchPlan::TopN(0)), FetchPlan::from_str("0"));
    assert_eq!(Ok(FetchPlan::TopN(7)), FetchPlan::from_str("007"));
    assert_eq!(Ok(FetchPlan::TopN(5)), FetchPlan::from_str("+5"));
    assert_eq!(
        Ok(FetchPlan::TopN(usize::MAX)),
        FetchPlan::from_str(&usize::MAX.to_string())
    );
}

#[test]
fn a_count_that_does_not_fit_is_no_count() {
    let too_large = format!("{}0", usize::MAX);
    assert_eq!(Err(PlanParseError), FetchPlan::from_str(&too_large));
    let one_more = "18446744073709551616";
    assert_eq!(one_more.parse::<usize>().is_ok(), FetchPlan::from_str(one_more).is_ok());
    let listed = format!("{},1", too_large);
    assert_eq!(
        Ok(FetchPlan::List(vec![too_large, "1".to_string()])),
        FetchPlan::from_str(&listed)
    );
}

#[test]
fn a_list_keeps_every_piece_between_commas() {
    assert_eq!(
        Ok(FetchPlan::List(vec!["".to_string(), "".to_string()])),
        FetchPlan::from_str(",")
    );
    assert_eq!(
        Ok(FetchPlan::List(vec![
            "a".to_string(),
            "".to_string(),
            "b".to_string(),
            "".to_string()
        ])),
        FetchPlan::from_str("a,,b,")
    );
    assert_eq!(
        Ok(FetchPlan::List(vec!["1".to_string(), "2".to_string()])),
        FetchPlan::from_str("1,2")
    );
    assert_eq!(
        Ok(FetchPlan::List(vec!["all".to_string(), "playground".to_string()])),
        FetchPlan::from_str("all,playground")
    );
}

#[test]
fn the_configured_flag_is_read_as_a_plan() {
    let config = Config {
        fetching: "serde,rand".to_string(),
    };
    assert_eq!(
        Ok(FetchPlan::List(vec!["serde".to_string(), "rand".to_string()])),
        config.fetch_plan()
    );
    let config = Config {
        fetching: "some".to_string(),
    };
    assert_eq!(Err(PlanParseError), config.fetch_plan());
}

#[test]
fn counts_are_read_as_the_standard_library_reads_them() {
    for text in [
        "", "+", "-", "0", "+0", "-0", "1", "+1", "++1", "+-1", "00012", "12a", "a12", " 12",
        "12 ", "1_000", "4294967295", "4294967296", "18446744073709551615",
        "18446744073709551616", "99999999999999999999999999", "١٢٣", "0x10",
    ] {
        let chars: Vec<char> = text.chars().collect();
        assert_eq!(text.parse::<usize>().ok(), parse_count(&chars), "{:?}", text);
    }
}

#[test]
fn splitting_is_as_the_standard_library_splits() {
    for text in ["", ",", "a", "a,b", ",a", "a,", "a,,b", ",,", "tokio,serde,rand", "é,ü", "a;b"] {
        let expected: Vec<String> = text.split(',').map(String::from).collect();
        assert_eq!(expected, split(text, ','), "{:?}", text);
        assert_eq!(text, split(text, ',').join(","));
    }
    assert_eq!(vec!["a,b".to_string()], split("a,b", ';'));
}

#[test]
fn text_helpers_compare_and_search() {
    assert_eq!(vec!['h', 'é', 'y'], chars_of("héy"));
    assert!(chars_of("").is_empty());
    assert!(chars_eq(&['a', 'b'], &['a', 'b']));
    assert!(!chars_eq(&['a', 'b'], &['a', 'c']));
    assert!(!chars_eq(&['a', 'b'], &['a']));
    assert!(str_eq("git", "git"));
    assert!(!str_eq("git", "gi"));
    assert!(!str_eq("git", "Git"));
    assert!(str_eq("", ""));
    assert!(contains_char(&['a', ',', 'b'], ','));
    assert!(!contains_char(&['a', 'b'], ','));
    assert!(!contains_char(&[], ','));
    let texts = vec!["one".to_string(), "two".to_string()];
    assert!(contains_text(&texts, &"two".to_string()));
    assert!(!contains_text(&texts, &"three".to_string()));
    assert!(!contains_text(&Vec::new(), &"one".to_string()));
}
