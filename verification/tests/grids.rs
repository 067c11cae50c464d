use inspection_officine::commands::{get_grid, get_sections, list_grids};
use inspection_officine::grid::CriterionBuilder;
use inspection_officine::grids::{all, find};

#[test]
fn builder_numbers_criteria_consecutively() {
    let mut b = CriterionBuilder::new();
    let c1 = b.item("REF-1", "First question?");
    let c2 = b.pre("REF-2", "Second question?");
    let c3 = b.next("REF-3", "Third question?", false);
    assert_eq!(c1.id, 1);
    assert_eq!(c2.id, 2);
    assert_eq!(c3.id, 3);
    assert!(!c1.pre_opening);
    assert!(c2.pre_opening);
    assert_eq!(c2.reference, "REF-2");
    assert_eq!(c3.description, "Third question?");
}

#[test]
fn registry_holds_the_wholesaler_grid() {
    let grids = all();
    assert_eq!(grids.len(), 1);
    let g = &grids[0];
    assert_eq!(g.id, "grossiste");
    assert_eq!(g.code, "IP-FO-0002");
    assert_eq!(g.sections.len(), 18);
    let total: usize = g.sections.iter().map(|s| s.items.len()).sum();
    assert_eq!(total, 100);
    // criteria are numbered consecutively from 1 across sections
    let mut expected: u32 = 1;
    for section in &g.sections {
        for item in &section.items {
            assert_eq!(item.id, expected);
            expected += 1;
        }
    }
}

#[test]
fn find_knows_exactly_the_registered_ids() {
    assert!(find("grossiste").is_some());
    assert!(find("officine").is_none());
    assert!(find("").is_none());
    let g = find("grossiste").unwrap();
    assert_eq!(g.id, "grossiste");
}

#[test]
fn grid_summaries_report_counts() {
    let summaries = list_grids();
    assert_eq!(summaries.len(), 1);
    assert_eq!(summaries[0].id, "grossiste");
    assert_eq!(summaries[0].criteria_count, 100);
    assert_eq!(summaries[0].section_count, 18);
    assert_eq!(summaries[0].name, "Inspection Grossiste-Répartiteur");
}

#[test]
fn sections_come_from_the_found_grid() {
    assert_eq!(get_sections("grossiste").len(), 18);
    assert!(get_sections("unknown").is_empty());
    assert!(get_grid("grossiste").is_some());
    assert!(get_grid("unknown").is_none());
    let sections = get_sections("grossiste");
    assert_eq!(sections[0].id, 1);
    assert_eq!(sections[0].title, "Organisation et gestion");
}
