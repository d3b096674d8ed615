use synteny::bed::{parse_bed_line, BedError, BedReader};
use synteny::chrom::{parse_chrom_line, ChromError, ChromReader};
use synteny::gff::{parse_gff_line, GffError, GffReader, Key};
use synteny::{Record, Strand};

#[test]
fn chrom_line_decodes_all_five_columns() {
    let rec = parse_chrom_line("chr1\t100\t200\t+\tg1").expect("well-formed line");
    assert_eq!(rec.chr(), "chr1");
    assert_eq!(rec.start(), 100);
    assert_eq!(rec.end(), 200);
    assert_eq!(rec.strand(), Strand::Direct);
    assert_eq!(rec.id(), "g1");
}

#[test]
fn chrom_line_errors_by_kind() {
    assert!(matches!(parse_chrom_line("chr1\t100"), Err(ChromError::RecordTooShort(_))));
    assert!(matches!(
        parse_chrom_line("chr1\tabc\t200\t+\tg1"),
        Err(ChromError::InvalidField(_))
    ));
    assert!(matches!(
        parse_chrom_line("chr1\t100\t200\tx\tg1"),
        Err(ChromError::UnknownStrand(_))
    ));
    assert!(matches!(
        parse_chrom_line("chr1\t100\t200\t+"),
        Err(ChromError::RecordTooShort(_))
    ));
}

#[test]
fn chrom_reader_skips_comments_and_blanks() {
    let lines = vec![
        "# header".to_string(),
        "".to_string(),
        "chr1\t10\t20\t-\tg9".to_string(),
    ];
    let mut reader = ChromReader::new(lines);
    let first = reader.next_record().expect("one record left");
    let rec = first.expect("line is well-formed");
    assert_eq!(rec.id(), "g9");
    assert_eq!(rec.strand(), Strand::Reverse);
    assert!(reader.next_record().is_none());
}

#[test]
fn bed_line_decodes_with_optional_columns() {
    let full = parse_bed_line("chr2 5 15 g3 0.9 -").expect("six columns");
    assert_eq!(full.chr(), "chr2");
    assert_eq!(full.start(), 5);
    assert_eq!(full.end(), 15);
    assert_eq!(full.id(), Some("g3"));
    assert_eq!(full.strand(), Strand::Reverse);

    let bare = parse_bed_line("chr2\t5\t15").expect("three columns");
    assert_eq!(bare.id(), None);
    assert_eq!(bare.strand(), Strand::Unknown);
}

#[test]
fn bed_line_errors_by_kind() {
    assert!(matches!(parse_bed_line("chr2 5"), Err(BedError::RecordTooShort(_))));
    assert!(matches!(parse_bed_line("chr2 x 15"), Err(BedError::InvalidField(_))));
    assert!(matches!(
        parse_bed_line("chr2 5 15 g3 0.9 q"),
        Err(BedError::InvalidField(_))
    ));
}

#[test]
fn bed_reader_skips_comments_and_blanks() {
    let lines = vec!["# c".to_string(), "chr1 1 2 g1".to_string(), "".to_string()];
    let mut reader = BedReader::new(lines);
    let rec = reader.next_record().unwrap().unwrap();
    assert_eq!(rec.id(), Some("g1"));
    assert!(reader.next_record().is_none());
}

#[test]
fn gff_line_decodes_columns_and_attributes() {
    let rec = parse_gff_line("chr1\tsrc\tgene\t100\t200\t0.5\t+\t0\tID=g1;Parent=p1,p2")
        .expect("nine columns");
    assert_eq!(rec.chr(), "chr1");
    assert_eq!(rec.source().map(|s| s.as_str()), Some("src"));
    assert_eq!(rec.class().map(|s| s.as_str()), Some("gene"));
    assert_eq!(rec.start(), 100);
    assert_eq!(rec.end(), 200);
    assert!(matches!(rec.strand(), Some(Strand::Direct)));
    assert!(rec.phase().is_some());
    assert_eq!(rec.id(), Some("g1"));
    assert_eq!(rec.parent().map(|s| s.as_str()), Some("p1"));
    assert_eq!(rec.parents().map(|v| v.len()), Some(2));
    assert_eq!(rec.target(), None);
}

#[test]
fn gff_dot_columns_mean_absent() {
    let rec = parse_gff_line("chr1\t.\t.\t1\t2\t.\t.\t.\tID=g1").expect("dots are absent");
    assert!(rec.source().is_none());
    assert!(rec.class().is_none());
    assert!(rec.strand().is_none());
    assert!(rec.phase().is_none());
}

#[test]
fn gff_attribute_keys_match_case_insensitively() {
    let rec = parse_gff_line("c\t.\t.\t1\t2\t.\t.\t.\tid=g7;NOTE=n").expect("parses");
    assert_eq!(rec.id(), Some("g7"));
    assert!(rec.lookup(&Key::Note).is_some());
    assert!(rec.lookup(&Key::K("other".to_string())).is_none());
}

#[test]
fn gff_line_errors_by_kind() {
    assert!(matches!(parse_gff_line("a\tb\tc"), Err(GffError::RecordTooShort(_))));
    assert!(matches!(
        parse_gff_line("c\t.\t.\tx\t2\t.\t.\t.\tID=g1"),
        Err(GffError::InvalidField(_))
    ));
    assert!(matches!(
        parse_gff_line("c\t.\t.\t1\t2\t.\tq\t.\tID=g1"),
        Err(GffError::InvalidField(_))
    ));
    assert!(matches!(
        parse_gff_line("c\t.\t.\t1\t2\t.\t.\t7\tID=g1"),
        Err(GffError::InvalidField(_))
    ));
    assert!(matches!(
        parse_gff_line("c\t.\t.\t1\t2\t.\t.\t.\tbroken"),
        Err(GffError::IncorrectAttribute(_))
    ));
}

#[test]
fn gff_reader_skips_comments_and_blanks() {
    let lines = vec![
        "## gff-version 3".to_string(),
        "chr1\t.\tgene\t1\t2\t.\t-\t.\tID=g1".to_string(),
    ];
    let mut reader = GffReader::new(lines);
    let rec = reader.next_record().unwrap().unwrap();
    assert_eq!(rec.id(), Some("g1"));
    assert!(reader.next_record().is_none());
}

#[test]
fn uniform_record_view_dispatches() {
    let gff = parse_gff_line("chr1\t.\tgene\t1\t2\t.\t.\t.\tID=g1").unwrap();
    let rec = Record::Gff(gff);
    assert_eq!(rec.chr(), "chr1");
    assert_eq!(rec.id(), Some("g1"));
    assert_eq!(rec.strand(), Strand::Unknown);
    assert!(rec.is_class("gene"));
    assert!(!rec.is_class("exon"));

    let bed = parse_bed_line("chr9 4 8 b1").unwrap();
    let rec2 = Record::Bed(bed);
    assert!(rec2.is_class("anything"));
    assert_eq!(rec2.start(), 4);
    assert_eq!(rec2.end(), 8);
}

#[test]
fn readers_are_restartable() {
    let lines = vec!["chr1\t10\t20\t+\tg1".to_string(), "chr1\t30\t40\t-\tg2".to_string()];
    let mut reader = ChromReader::new(lines);
    let a = reader.next_record().unwrap().unwrap();
    let b = reader.next_record().unwrap().unwrap();
    assert_eq!((a.id(), b.id()), ("g1", "g2"));
    assert!(reader.next_record().is_none());
    reader.pos = 0;
    let again = reader.next_record().unwrap().unwrap();
    assert_eq!(again.id(), "g1");
}
