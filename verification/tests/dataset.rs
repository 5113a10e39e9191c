use approuter::dataset::{default_min_confidence, Contract, Dataset, Employee, Ingest};

fn contract(id: &str, cage: Option<&str>, agency: Option<&str>) -> Contract {
    Contract {
        id: id.into(),
        cage_code: cage.map(|s| s.into()),
        agency: agency.map(|s| s.into()),
        labor_cats: Vec::new(),
    }
}

#[test]
fn contract_by_id() {
    let mut ds = Dataset::new();
    ds.insert_contract(contract("C1", Some("1X"), Some("DoD")));
    assert!(ds.contract_by_id("C1").is_some());
    assert!(ds.contract_by_id("C2").is_none());
}

#[test]
fn nexus_contract_ids_no_filter_returns_all() {
    let mut ds = Dataset::new();
    ds.insert_contract(contract("C1", None, None));
    let ids = ds.nexus_contract_ids(None, None);
    assert_eq!(ids.len(), 1);
    assert!(ids.contains(&"C1".to_string()));
}

#[test]
fn nexus_contract_ids_filter_agency() {
    let mut ds = Dataset::new();
    ds.insert_contract(contract("C1", None, Some("DoD")));
    ds.insert_contract(contract("C2", None, Some("GSA")));
    let ids = ds.nexus_contract_ids(Some("DoD"), None);
    assert_eq!(ids.len(), 1);
    assert!(ids.contains(&"C1".to_string()));
}

#[test]
fn nexus_contract_ids_filter_cage() {
    let mut ds = Dataset::new();
    ds.insert_contract(contract("C1", Some("1ABC"), None));
    let ids = ds.nexus_contract_ids(None, Some("1ABC"));
    assert_eq!(ids.len(), 1);
}

#[test]
fn nexus_contract_ids_case_insensitive() {
    let mut ds = Dataset::new();
    ds.insert_contract(contract("C1", None, Some("DoD")));
    let ids = ds.nexus_contract_ids(Some("dod"), None);
    assert_eq!(ids.len(), 1);
}

#[test]
fn nexus_contract_ids_both_filters() {
    let mut ds = Dataset::new();
    ds.insert_contract(contract("C1", Some("1X"), Some("DoD")));
    ds.insert_contract(contract("C2", Some("2Y"), Some("DoD")));
    let ids = ds.nexus_contract_ids(Some("DoD"), Some("1X"));
    assert_eq!(ids.len(), 1);
    assert!(ids.contains(&"C1".to_string()));
}

#[test]
fn nexus_contract_ids_empty_ds() {
    let ds = Dataset::new();
    let ids = ds.nexus_contract_ids(None, None);
    assert!(ids.is_empty());
}

#[test]
fn nexus_contract_ids_filter_excludes_missing_agency() {
    let mut ds = Dataset::new();
    ds.insert_contract(contract("C1", None, None));
    let ids = ds.nexus_contract_ids(Some("DoD"), None);
    assert!(ids.is_empty(), "contract with no agency must not match agency filter");
}

#[test]
fn employee_by_id() {
    let mut ds = Dataset::new();
    ds.insert_employee(Employee {
        id: "E1".into(),
        quals: vec!["BA".into()],
        ..Default::default()
    });
    assert!(ds.employee_by_id("E1").is_some());
    assert!(ds.employee_by_id("E2").is_none());
}

#[test]
fn employee_ids() {
    let mut ds = Dataset::new();
    ds.insert_employee(Employee {
        id: "E1".into(),
        ..Default::default()
    });
    ds.insert_employee(Employee {
        id: "E2".into(),
        ..Default::default()
    });
    let ids = ds.employee_ids();
    assert_eq!(ids.len(), 2);
    assert!(ids.contains(&"E1".to_string()));
    assert!(ids.contains(&"E2".to_string()));
}

#[test]
fn inserting_the_same_id_replaces() {
    let mut ds = Dataset::new();
    ds.insert_contract(contract("C1", None, Some("GSA")));
    ds.insert_contract(contract("C1", None, Some("DoD")));
    assert_eq!(ds.nexus_contract_ids(None, None).len(), 1);
    assert_eq!(ds.contract_by_id("C1").unwrap().agency.as_deref(), Some("DoD"));
    assert_eq!(default_min_confidence(), 50);
}

#[test]
fn ingest_keys_records_by_id() {
    let cs = vec![
        contract("C1", None, Some("DoD")),
        contract("C2", None, Some("GSA")),
        contract("C1", None, Some("Navy")),
    ];
    let es = vec![
        Employee { id: "E1".into(), ..Default::default() },
        Employee { id: "E1".into(), verified: true, ..Default::default() },
    ];
    let ds = Ingest::from_records(cs, es);
    assert_eq!(ds.contract_by_id("C1").and_then(|c| c.agency.clone()), Some("Navy".to_string()));
    assert_eq!(ds.nexus_contract_ids(None, None).len(), 2);
    assert_eq!(ds.employee_ids().len(), 1);
    assert!(ds.employee_by_id("E1").map(|e| e.verified).unwrap_or(false));
    let empty = Ingest::from_records(vec![], vec![]);
    assert!(empty.contract_by_id("C1").is_none());
}
