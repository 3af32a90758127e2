use cliutils::fortuner::{parse_u64, pick_fortune, read_fortunes_from_lines, Fortune};

#[test]
fn seed_is_a_plain_number() {
    assert_eq!(parse_u64("42"), Ok(42));
    assert_eq!(parse_u64("x").unwrap_err(), "\"x\" not a valid integer");
}

#[test]
fn lines_group_into_records() {
    let lines = vec![
        "first".to_string(),
        "second".to_string(),
        "%".to_string(),
        "third".to_string(),
        "%".to_string(),
    ];
    let fortunes = read_fortunes_from_lines("jokes", &lines);
    assert_eq!(fortunes.len(), 2);
    assert_eq!(fortunes[0].source, "jokes");
    assert_eq!(fortunes[0].text, "first\nsecond");
    assert_eq!(fortunes[1].text, "third");
}

#[test]
fn empty_records_and_trailing_text_are_dropped() {
    let lines = vec![
        "%".to_string(),
        "a".to_string(),
        "%".to_string(),
        "%".to_string(),
        "dangling".to_string(),
    ];
    let fortunes = read_fortunes_from_lines("q", &lines);
    assert_eq!(fortunes.len(), 1);
    assert_eq!(fortunes[0].text, "a");
}

#[test]
fn test_pick_fortune() {
    // Create a slice of fortunes
    let fortunes = vec![
        Fortune {
            source: "fortunes".to_string(),
            text: "You cannot achieve the impossible without \
                    attempting the absurd."
                .to_string(),
        },
        Fortune {
            source: "fortunes".to_string(),
            text: "Assumption is the mother of all screw-ups".to_string(),
        },
        Fortune {
            source: "fortunes".to_string(),
            text: "Neckties strangle clear thinking".to_string(),
        },
    ];

    // Pick a fortune with a seed
    assert_eq!(
        pick_fortune(&fortunes, Some(1)).unwrap(),
        "Neckties strangle clear thinking".to_string()
    )
}

#[test]
fn picking_from_nothing_yields_nothing() {
    let empty: Vec<Fortune> = Vec::new();
    assert_eq!(pick_fortune(&empty, Some(7)), None);
    assert_eq!(pick_fortune(&empty, None), None);
}

#[test]
fn unseeded_pick_returns_one_of_the_records() {
    let fortunes = vec![
        Fortune { source: "q".to_string(), text: "alpha".to_string() },
        Fortune { source: "q".to_string(), text: "beta".to_string() },
    ];
    let picked = pick_fortune(&fortunes, None).unwrap();
    assert!(picked == "alpha" || picked == "beta");
}
