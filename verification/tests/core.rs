use synteny::tail::{parse_landscape, serialize_tail, truncate_left_tail, truncate_right_tail, TailGene};
use synteny::text::{base_name, format_usize, parse_usize_from};
use synteny::{Phase, Strand};

fn tg(family: usize, strand: Strand) -> TailGene {
    TailGene { family, strand }
}

#[test]
fn tail_round_trip_preserves_family_and_strand() {
    let list = vec![tg(5, Strand::Direct), tg(12, Strand::Reverse), tg(0, Strand::Direct)];
    let wire = serialize_tail(&list);
    assert_eq!(wire, "+5.-12.+0");
    let back = parse_landscape(&wire).expect("round trip must parse");
    assert_eq!(back.len(), 3);
    for (a, b) in list.iter().zip(back.iter()) {
        assert_eq!(a.family, b.family);
        assert_eq!(a.strand, b.strand);
    }
}

#[test]
fn empty_tail_serializes_to_empty_string() {
    let empty: Vec<TailGene> = Vec::new();
    assert_eq!(serialize_tail(&empty), "");
    let back = parse_landscape("").expect("empty string is the empty list");
    assert!(back.is_empty());
}

#[test]
fn unknown_strand_round_trips_as_bare_digits() {
    let list = vec![tg(5, Strand::Direct), tg(7, Strand::Unknown), tg(12, Strand::Reverse)];
    let wire = serialize_tail(&list);
    assert_eq!(wire, "+5.7.-12");
    let back = parse_landscape(&wire).expect("round trip must parse");
    assert_eq!(back.len(), 3);
    for (a, b) in list.iter().zip(back.iter()) {
        assert_eq!(a.family, b.family);
        assert_eq!(a.strand, b.strand);
    }
}

#[test]
fn bare_number_parses_with_unknown_strand() {
    let back = parse_landscape("7").expect("digits alone are a token");
    assert_eq!(back.len(), 1);
    assert_eq!(back[0].family, 7);
    assert!(matches!(back[0].strand, Strand::Unknown));
}

#[test]
fn malformed_tokens_do_not_parse() {
    assert!(parse_landscape("+").is_none());
    assert!(parse_landscape("+5..3").is_none());
    assert!(parse_landscape("+5.x3").is_none());
}

#[test]
fn tailgene_equality_ignores_strand() {
    assert_eq!(tg(5, Strand::Direct), tg(5, Strand::Reverse));
    assert_ne!(tg(5, Strand::Direct), tg(6, Strand::Direct));
}

#[test]
fn truncation_is_asymmetric_by_side() {
    let left = vec![tg(1, Strand::Direct), tg(2, Strand::Direct), tg(3, Strand::Direct)];
    let kept_left = truncate_left_tail(&left, 2);
    assert_eq!(kept_left.len(), 2);
    assert_eq!(kept_left[0].family, 2);
    assert_eq!(kept_left[1].family, 3);

    let right = vec![tg(4, Strand::Direct), tg(5, Strand::Direct), tg(6, Strand::Direct)];
    let kept_right = truncate_right_tail(&right, 2);
    assert_eq!(kept_right.len(), 2);
    assert_eq!(kept_right[0].family, 4);
    assert_eq!(kept_right[1].family, 5);
}

#[test]
fn truncation_with_large_window_keeps_everything() {
    let left = vec![tg(1, Strand::Direct), tg(2, Strand::Reverse)];
    assert_eq!(truncate_left_tail(&left, 10).len(), 2);
    assert_eq!(truncate_right_tail(&left, 10).len(), 2);
    assert_eq!(truncate_left_tail(&left, 0).len(), 0);
    assert_eq!(truncate_right_tail(&left, 0).len(), 0);
}

#[test]
fn decimal_formatting_exact() {
    assert_eq!(format_usize(0), vec!['0']);
    assert_eq!(format_usize(7), vec!['7']);
    assert_eq!(format_usize(12345), vec!['1', '2', '3', '4', '5']);
}

#[test]
fn decimal_parsing_exact_and_failing() {
    let digits: Vec<char> = "123".chars().collect();
    assert_eq!(parse_usize_from(&digits, 0), Some(123));
    assert_eq!(parse_usize_from(&digits, 1), Some(23));
    assert_eq!(parse_usize_from(&digits, 3), None);
    let bad: Vec<char> = "12a".chars().collect();
    assert_eq!(parse_usize_from(&bad, 0), None);
    let huge: Vec<char> = "99999999999999999999999999".chars().collect();
    assert_eq!(parse_usize_from(&huge, 0), None);
}

#[test]
fn base_name_takes_the_last_path_piece() {
    assert_eq!(base_name("/data/homo_sapiens.gff"), "homo_sapiens.gff");
    assert_eq!(base_name("plain.bed"), "plain.bed");
}

#[test]
fn strand_codes_and_reversal() {
    assert!(matches!(Strand::from_code("+"), Ok(Strand::Direct)));
    assert!(matches!(Strand::from_code("+1"), Ok(Strand::Direct)));
    assert!(matches!(Strand::from_code("-1"), Ok(Strand::Reverse)));
    assert!(matches!(Strand::from_code("."), Ok(Strand::Unknown)));
    assert!(Strand::from_code("x").is_err());
    let mut s = Strand::Direct;
    s.reverse();
    assert_eq!(s, Strand::Reverse);
    s.reverse();
    assert_eq!(s, Strand::Direct);
    let mut u = Strand::Unknown;
    u.reverse();
    assert_eq!(u, Strand::Unknown);
    assert_eq!(Strand::Direct.symbol(), '+');
    assert_eq!(Strand::Reverse.symbol(), '-');
    assert_eq!(Strand::Unknown.symbol(), '.');
}

#[test]
fn phase_codes() {
    assert!(matches!(Phase::from_code("0"), Ok(Phase::Sync)));
    assert!(matches!(Phase::from_code("1"), Ok(Phase::OneShifted)));
    assert!(matches!(Phase::from_code("2"), Ok(Phase::TwoShifted)));
    assert!(Phase::from_code("3").is_err());
    assert_eq!(Phase::OneShifted.index(), 1);
    assert!(matches!(Phase::from_index(2), Ok(Phase::TwoShifted)));
    assert!(Phase::from_index(5).is_err());
}
