use regsim::simulator::labels::Labels;

#[test]
fn new_table_binds_nothing() {
    let labels = Labels::new();
    assert_eq!(labels.len(), 0);
    assert_eq!(labels.get("MAIN"), None);
    assert_eq!(labels.get(""), None);
}

#[test]
fn insert_binds_and_rebinds() {
    let mut labels = Labels::new();
    labels.insert(String::from("MAIN"), 0);
    labels.insert(String::from("LOOP"), 4);
    assert_eq!(labels.len(), 2);
    assert_eq!(labels.get("MAIN"), Some(0));
    assert_eq!(labels.get("LOOP"), Some(4));
    assert_eq!(labels.get("MAI"), None);
    assert_eq!(labels.get("main"), None);
    labels.insert(String::from("MAIN"), 9);
    assert_eq!(labels.len(), 2);
    assert_eq!(labels.get("MAIN"), Some(9));
    assert_eq!(labels.get("LOOP"), Some(4));
}
