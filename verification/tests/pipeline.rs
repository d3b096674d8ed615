use synteny::dbmaker::{db_from_files, ingest_genome_file, tails_at, Annotation, Error, FileContent};
use synteny::errors::DataError;
use synteny::family::FamilyIndex;
use synteny::genebook::GeneBook;
use synteny::pattern::Pattern;
use synteny::Strand;

const SPECIES_PATTERN: &str = "(?P<species>[a-z]+)_";
const ID_PATTERN: &str = "^(?P<id>g[0-9]+)$";

fn gff_line(chr: &str, start: usize, end: usize, strand: &str, id: &str) -> String {
    format!("{chr}\t.\tgene\t{start}\t{end}\t.\t{strand}\t.\tID={id}")
}

fn strings(lines: &[String]) -> Vec<String> {
    lines.to_vec()
}

#[test]
fn family_index_assigns_ids_in_file_order() {
    let files = vec![
        vec!["g1 g2".to_string()],
        vec!["g3".to_string()],
    ];
    let index = FamilyIndex::build(&files);
    assert_eq!(index.lookup("g1"), Some(0));
    assert_eq!(index.lookup("g2"), Some(0));
    assert_eq!(index.lookup("g3"), Some(1));
    assert_eq!(index.lookup("g4"), None);
    assert_eq!(index.family_count(), 2);
}

#[test]
fn family_index_last_file_wins_on_duplicates() {
    let files = vec![
        vec!["g1".to_string()],
        vec!["g1 g2".to_string()],
    ];
    let index = FamilyIndex::build(&files);
    assert_eq!(index.lookup("g1"), Some(1));
    assert_eq!(index.lookup("g2"), Some(1));
}

#[test]
fn family_index_build_is_idempotent() {
    let files = vec![
        vec!["g1 g2".to_string(), "g3".to_string()],
        vec!["g4".to_string()],
    ];
    let first = FamilyIndex::build(&files);
    let second = FamilyIndex::build(&files);
    for id in ["g1", "g2", "g3", "g4", "g5"] {
        assert_eq!(first.lookup(id), second.lookup(id));
    }
    assert_eq!(first.family_count(), second.family_count());
}

#[test]
fn species_extraction_uses_named_group_on_base_name() {
    assert_eq!(
        synteny::dbmaker::parse_species("/data/homo_sapiens.gff", SPECIES_PATTERN).unwrap(),
        "homo"
    );
    assert!(matches!(
        synteny::dbmaker::parse_species("x.gff", "("),
        Err(Error::InvalidRegex { .. })
    ));
    assert!(matches!(
        synteny::dbmaker::parse_species("x.gff", "(?P<sp>[a-z]+)"),
        Err(Error::MissingCaptureGroup { .. })
    ));
    assert!(matches!(
        synteny::dbmaker::parse_species("123.gff", SPECIES_PATTERN),
        Err(Error::SpeciesNotFound(_))
    ));
}

#[test]
fn pattern_captures_named_groups() {
    let p = Pattern::compile("(?P<id>g[0-9]+)").unwrap();
    assert!(p.has_group("id"));
    assert!(!p.has_group("species"));
    assert_eq!(p.capture("xx g42 yy", "id"), Some("g42".to_string()));
    assert_eq!(p.capture("nothing here", "id"), None);
}

#[test]
fn window_lengths_follow_min_rule() {
    let anns: Vec<Annotation> = (0..5)
        .map(|k| Annotation {
            id: format!("g{k}"),
            dir: Strand::Direct,
            start: 10 * (k + 1),
            stop: 10 * (k + 1) + 5,
            ancestral_id: k,
        })
        .collect();
    for w in 0..4usize {
        for j in 0..anns.len() {
            let (left, right) = tails_at(&anns, j, w);
            assert_eq!(left.len(), j.min(w));
            assert_eq!(right.len(), (anns.len() - 1 - j).min(w));
        }
    }
    let (left, right) = tails_at(&anns, 2, 1);
    assert_eq!(left[0].family, 1);
    assert_eq!(right[0].family, 3);
}

#[test]
fn ingestion_groups_filters_and_dedupes() {
    let content = FileContent {
        name: "homo_sapiens.gff".to_string(),
        lines: strings(&[
            "# comment".to_string(),
            gff_line("chr1", 300, 350, "+", "g2"),
            gff_line("chr1", 100, 150, "-", "g1"),
            gff_line("chr1", 100, 150, "-", "g1"),
            format!("chr1\t.\texon\t1\t2\t.\t+\t.\tID=g3"),
            gff_line("chr2", 50, 60, "+", "g3"),
            gff_line("chr1", 200, 220, "+", "g9"),
        ]),
    };
    let families = FamilyIndex::build(&vec![
        vec!["g1".to_string()],
        vec!["g2".to_string()],
        vec!["g3".to_string()],
    ]);
    let (species, groups) =
        ingest_genome_file(&content, SPECIES_PATTERN, "gene", ID_PATTERN, &families).unwrap();
    assert_eq!(species, "homo");
    assert_eq!(groups.len(), 2);
    assert_eq!(groups[0].0, "chr1");
    let chr1_ids: Vec<&str> = groups[0].1.iter().map(|a| a.id.as_str()).collect();
    assert_eq!(chr1_ids, vec!["g2", "g1"]);
    assert_eq!(groups[1].0, "chr2");
    assert_eq!(groups[1].1.len(), 1);
    assert_eq!(groups[1].1[0].ancestral_id, 2);
}

#[test]
fn ingestion_aborts_on_id_that_fails_the_pattern() {
    let content = FileContent {
        name: "homo_sapiens.gff".to_string(),
        lines: strings(&[gff_line("chr1", 1, 2, "+", "broken-id")]),
    };
    let families = FamilyIndex::build(&vec![vec!["g1".to_string()]]);
    let err = ingest_genome_file(&content, SPECIES_PATTERN, "gene", ID_PATTERN, &families)
        .unwrap_err();
    match err {
        Error::IdNotFound(raw) => assert_eq!(raw, "broken-id"),
        other => panic!("expected IdNotFound, got {other:?}"),
    }
}

#[test]
fn ingestion_rejects_unknown_extension() {
    let content = FileContent {
        name: "homo_sapiens.txt".to_string(),
        lines: Vec::new(),
    };
    let families = FamilyIndex::build(&Vec::new());
    assert!(matches!(
        ingest_genome_file(&content, SPECIES_PATTERN, "gene", ID_PATTERN, &families),
        Err(Error::UnsupportedFiletype(_))
    ));
}

fn five_gene_db(path: &str, build_window: usize) {
    let families: Vec<Vec<String>> = (0..5).map(|k| vec![format!("g{k}")]).collect();
    let lines: Vec<String> = (0..5)
        .map(|k| gff_line("chr1", 10 * (k + 1), 10 * (k + 1) + 4, if k % 2 == 0 { "+" } else { "-" }, &format!("g{k}")))
        .collect();
    let genome = vec![FileContent { name: "homo_sapiens.gff".to_string(), lines }];
    db_from_files(
        &families,
        &genome,
        path,
        SPECIES_PATTERN,
        "gene",
        ID_PATTERN,
        build_window,
    )
    .unwrap();
}

#[test]
fn five_gene_windows_served_by_the_book() {
    let path = "/tmp/synteny_five_gene.db";
    five_gene_db(path, 2);
    let book = GeneBook::in_memory(path, 1, "id").unwrap();
    let gene = book.get("g2").unwrap();
    assert_eq!(gene.species, "homo");
    assert_eq!(gene.chr, "chr1");
    assert_eq!(gene.pos, 30);
    assert_eq!(gene.family, 2);
    assert_eq!(gene.left_landscape.len(), 1);
    assert_eq!(gene.left_landscape[0].family, 1);
    assert_eq!(gene.left_landscape[0].strand, Strand::Reverse);
    assert_eq!(gene.right_landscape.len(), 1);
    assert_eq!(gene.right_landscape[0].family, 3);
    let scape = gene.landscape();
    let fams: Vec<usize> = scape.iter().map(|t| t.family).collect();
    assert_eq!(fams, vec![1, 2, 3]);

    let first = book.get("g0").unwrap();
    assert_eq!(first.left_landscape.len(), 0);
    assert_eq!(first.right_landscape.len(), 1);
    let species = book.species().unwrap();
    assert_eq!(species, vec!["homo".to_string()]);
}

#[test]
fn unknown_id_is_reported_alike_by_all_three_strategies() {
    let path = "/tmp/synteny_hundred.db";
    let families: Vec<Vec<String>> = (0..100).map(|k| vec![format!("g{k}")]).collect();
    let lines: Vec<String> = (0..100)
        .map(|k| gff_line("chr1", 10 * (k + 1), 10 * (k + 1) + 4, "+", &format!("g{k}")))
        .collect();
    let genome = vec![FileContent { name: "homo_sapiens.gff".to_string(), lines }];
    db_from_files(&families, &genome, path, SPECIES_PATTERN, "gene", ID_PATTERN, 3).unwrap();

    let full = GeneBook::in_memory(path, 3, "id").unwrap();
    let ids: Vec<String> = vec!["g5".to_string(), "g6".to_string()];
    let cached = GeneBook::cached(path, 3, "id", &ids).unwrap();
    let lazy = GeneBook::inline(path, 3, "id").unwrap();
    for book in [&full, &cached, &lazy] {
        match book.get("absent") {
            Err(DataError::UnknownId(id)) => assert_eq!(id, "absent"),
            other => panic!("expected the unknown-id error, got {other:?}"),
        }
    }
    assert!(full.get("g50").is_ok());
    assert!(cached.get("g5").is_ok());
    assert!(cached.get("g50").is_err());
    assert!(lazy.get("g50").is_ok());
}

#[test]
fn update_replaces_resident_records_only() {
    let path = "/tmp/synteny_update.db";
    five_gene_db(path, 2);
    let mut book = GeneBook::in_memory(path, 2, "id").unwrap();
    let mut gene = book.get("g1").unwrap();
    gene.pos = 999;
    book.update("g1", gene).unwrap();
    assert_eq!(book.get("g1").unwrap().pos, 999);
    let spare = book.get("g2").unwrap();
    assert!(matches!(book.update("missing", spare), Err(DataError::UnknownId(_))));

    let mut lazy = GeneBook::inline(path, 2, "id").unwrap();
    let spare2 = lazy.get("g2").unwrap();
    assert!(matches!(lazy.update("g2", spare2), Err(DataError::ImmutableBook)));
}

#[test]
fn two_files_of_one_species_merge_and_sort() {
    let path = "/tmp/synteny_merge.db";
    let families: Vec<Vec<String>> = (0..4).map(|k| vec![format!("g{k}")]).collect();
    let file_a = FileContent {
        name: "homo_a.gff".to_string(),
        lines: strings(&[gff_line("chr1", 300, 310, "+", "g2"), gff_line("chr1", 100, 110, "+", "g0")]),
    };
    let file_b = FileContent {
        name: "homo_b.gff".to_string(),
        lines: strings(&[gff_line("chr1", 200, 210, "+", "g1")]),
    };
    db_from_files(
        &families,
        &vec![file_a, file_b],
        path,
        SPECIES_PATTERN,
        "gene",
        ID_PATTERN,
        1,
    )
    .unwrap();
    let book = GeneBook::in_memory(path, 1, "id").unwrap();
    let middle = book.get("g1").unwrap();
    assert_eq!(middle.left_landscape.len(), 1);
    assert_eq!(middle.left_landscape[0].family, 0);
    assert_eq!(middle.right_landscape.len(), 1);
    assert_eq!(middle.right_landscape[0].family, 2);
}

#[test]
fn empty_species_is_not_an_error() {
    let path = "/tmp/synteny_empty.db";
    let families = vec![vec!["g1".to_string()]];
    let genome = vec![FileContent {
        name: "homo_sapiens.gff".to_string(),
        lines: vec!["chr1\t.\texon\t1\t2\t.\t+\t.\tID=g1".to_string()],
    }];
    db_from_files(&families, &genome, path, SPECIES_PATTERN, "gene", ID_PATTERN, 1).unwrap();
    let book = GeneBook::in_memory(path, 1, "id").unwrap();
    assert!(matches!(book.get("g1"), Err(DataError::UnknownId(_))));
    assert!(book.species().unwrap().is_empty());
}

#[test]
fn served_genes_are_copies_of_the_resident_record() {
    let path = "/tmp/synteny_copies.db";
    five_gene_db(path, 2);
    let book = GeneBook::in_memory(path, 2, "id").unwrap();
    let mut first = book.get("g3").unwrap();
    first.pos = 1;
    first.left_landscape.clear();
    let second = book.get("g3").unwrap();
    assert_eq!(second.pos, 40);
    assert_eq!(second.left_landscape.len(), 2);
}

#[test]
fn bed_genomes_skip_the_class_filter() {
    let path = "/tmp/synteny_bed.db";
    let families: Vec<Vec<String>> = (0..3).map(|k| vec![format!("g{k}")]).collect();
    let genome = vec![FileContent {
        name: "mus_musculus.bed".to_string(),
        lines: vec![
            "chr1 100 110 g0 0 +".to_string(),
            "chr1 200 210 g1 0 -".to_string(),
            "chr1 300 310 g2 0 +".to_string(),
        ],
    }];
    db_from_files(&families, &genome, path, SPECIES_PATTERN, "gene", ID_PATTERN, 1).unwrap();
    let book = GeneBook::in_memory(path, 1, "id").unwrap();
    let mid = book.get("g1").unwrap();
    assert_eq!(mid.species, "mus");
    assert_eq!(mid.strand, Strand::Reverse);
    assert_eq!(mid.left_landscape[0].family, 0);
    assert_eq!(mid.right_landscape[0].family, 2);
}

#[test]
fn unknown_strands_survive_the_database_round_trip() {
    let path = "/tmp/synteny_unknown.db";
    let families: Vec<Vec<String>> = (0..3).map(|k| vec![format!("g{k}")]).collect();
    let genome = vec![FileContent {
        name: "rattus_norvegicus.bed".to_string(),
        lines: vec![
            "chr1 100 110 g0".to_string(),
            "chr1 200 210 g1".to_string(),
            "chr1 300 310 g2".to_string(),
        ],
    }];
    db_from_files(&families, &genome, path, SPECIES_PATTERN, "gene", ID_PATTERN, 1).unwrap();
    let book = GeneBook::in_memory(path, 1, "id").unwrap();
    let mid = book.get("g1").unwrap();
    assert_eq!(mid.strand, Strand::Unknown);
    assert_eq!(mid.left_landscape.len(), 1);
    assert_eq!(mid.left_landscape[0].family, 0);
    assert_eq!(mid.left_landscape[0].strand, Strand::Unknown);
    assert_eq!(mid.right_landscape[0].family, 2);
}
