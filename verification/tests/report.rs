use cargo_sponsor::aggregator::SponsorInfo;
use cargo_sponsor::report::{
    link_cell, name_column_width, sponsor_cell, LINK_RULE_WIDTH, MIN_NAME_WIDTH, SPONSORS_WIDTH,
};

fn named(name: &str) -> SponsorInfo {
    SponsorInfo {
        name: name.to_string(),
        repository: "https://github.com/o/r".to_string(),
        sponsor_links: vec!["https://l".to_string()],
        sponsor_count: None,
    }
}

#[test]
fn widths_of_the_table() {
    assert_eq!(MIN_NAME_WIDTH, 10);
    assert_eq!(SPONSORS_WIDTH, 10);
    assert_eq!(LINK_RULE_WIDTH, 40);
}

#[test]
fn name_column_is_at_least_ten_wide() {
    assert_eq!(name_column_width(&Vec::new()), 10);
    assert_eq!(name_column_width(&vec![named("serde")]), 10);
    assert_eq!(name_column_width(&vec![named("serde"), named("0123456789")]), 10);
}

#[test]
fn name_column_fits_the_longest_name() {
    let records = vec![named("serde"), named("tracing-subscriber"), named("tokio-macros")];
    assert_eq!(name_column_width(&records), 18);
    let records = vec![named("0123456789a"), named("a")];
    assert_eq!(name_column_width(&records), 11);
}

#[test]
fn name_length_counts_bytes() {
    assert_eq!(name_column_width(&vec![named("éééééé")]), 12);
}

#[test]
fn sponsor_cell_is_the_count_or_a_dash() {
    assert_eq!(sponsor_cell(None), "-");
    assert_eq!(sponsor_cell(Some(0)), "0");
    assert_eq!(sponsor_cell(Some(5)), "5");
    assert_eq!(sponsor_cell(Some(10)), "10");
    assert_eq!(sponsor_cell(Some(1234)), "1234");
    assert_eq!(sponsor_cell(Some(u32::MAX)), "4294967295");
}

#[test]
fn link_cell_is_the_first_link_or_a_dash() {
    assert_eq!(link_cell(&Vec::new()), "-");
    assert_eq!(link_cell(&vec!["https://a".to_string()]), "https://a");
    assert_eq!(link_cell(&vec!["https://a".to_string(), "https://b".to_string()]), "https://a");
}
