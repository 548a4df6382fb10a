use metamix::names::parse_names_line;
use metamix::taxonomy::{taxon_id_part, TaxonomyParser};

#[test]
fn ti_names_yield_their_second_field() {
    assert_eq!(taxon_id_part("ti|562|Escherichia coli"), "562");
    assert_eq!(taxon_id_part("ti|562"), "562");
    assert_eq!(taxon_id_part("ti|"), "");
    assert_eq!(taxon_id_part("NC_000913.3"), "NC_000913.3");
    assert_eq!(taxon_id_part("tx|9|a"), "tx|9|a");
}

#[test]
fn identifiers_are_interned_in_order_of_first_sight() {
    let mut p = TaxonomyParser::new();
    assert_eq!(p.get_taxon_index("ti|562|chr1"), Some(0));
    assert_eq!(p.get_taxon_index("ti|1280|chr"), Some(1));
    assert_eq!(p.get_taxon_index("ti|562|plasmid"), Some(0));
    assert_eq!(p.get_taxon_index("562"), Some(0));
    assert_eq!(p.get_taxon_index("other"), Some(2));
    assert_eq!(p.index_to_id, vec!["562".to_string(), "1280".to_string(), "other".to_string()]);
    assert_eq!(p.name_to_id.len(), 3);
    assert_eq!(p.name_to_id.get("1280"), Some(&1));
}

#[test]
fn retained_columns_map_back_to_identifiers() {
    let mut p = TaxonomyParser::new();
    for name in ["ti|10|a", "ti|20|b", "ti|30|c", "ti|40|d"] {
        p.get_taxon_index(name);
    }
    // reduced columns 0..3 stand for taxa 1, 2, 3; columns 0 and 2 survive
    let ids = p.ids_of(&[1, 2, 3], &[0, 2]);
    assert_eq!(ids, vec!["20".to_string(), "40".to_string()]);
}

#[test]
fn names_file_lines_give_scientific_names() {
    let line = "562\t|\tEscherichia coli\t|\t\t|\tscientific name\t|";
    assert_eq!(
        parse_names_line(line),
        Some(("562".to_string(), "Escherichia coli".to_string()))
    );
    assert_eq!(parse_names_line("562 | E. coli | | synonym |"), None);
    assert_eq!(parse_names_line("562 | E. coli | x"), None);
    assert_eq!(parse_names_line(""), None);
    assert_eq!(
        parse_names_line("  7 |  Azorhizobium  |u| scientific name"),
        Some(("7".to_string(), "Azorhizobium".to_string()))
    );
}
