use sysmaster_core::relation::{UnitRelations, UNIT_DEPENDENCY_FILE};
use sysmaster_core::unit_load::{LoadQueue, UnitLoad};

#[test]
fn load_queue_is_fifo_without_duplicates() {
    let mut q = LoadQueue::new();
    q.push(3);
    q.push(1);
    q.push(3);
    q.push(2);
    assert!(q.contains(1));
    assert_eq!(q.pop(), Some(3));
    assert_eq!(q.dispatch(), vec![1, 2]);
    assert_eq!(q.pop(), None);
}

#[test]
fn prepare_and_dependency_config() {
    let mut l = UnitLoad::new();
    assert_eq!(l.prepare_unit(&String::from("noext")), None);
    let a = l.prepare_unit(&String::from("a.service")).unwrap();
    let deps = vec![
        (UnitRelations::UnitWants, vec![String::from("b.service"), String::from("c.socket")]),
        (UnitRelations::UnitAfter, vec![String::from("b.service")]),
    ];
    l.insert_udconf(&String::from("a.service"), &deps, UNIT_DEPENDENCY_FILE);
    let b = l.db.units_get(&String::from("b.service")).unwrap();
    let c = l.db.units_get(&String::from("c.socket")).unwrap();
    let mut wants = l.db.dep_gets(a, UnitRelations::UnitWants);
    wants.sort();
    assert_eq!(wants, vec![b, c]);
    assert_eq!(l.db.dep_gets(b, UnitRelations::UnitBefore), vec![a]);
    let (unit, batch) = l.load_unit(&String::from("a.service"));
    assert_eq!(unit, Some(a));
    assert_eq!(batch, vec![a, b, c]);
    let (d, batch) = l.load_unit(&String::from("d.target"));
    assert!(d.is_some());
    assert_eq!(batch, vec![d.unwrap()]);
}

#[test]
fn bad_dependency_name_is_skipped() {
    let mut l = UnitLoad::new();
    let a = l.prepare_unit(&String::from("a.service")).unwrap();
    let deps = vec![(UnitRelations::UnitRequires, vec![String::from("bad"), String::from("b.service")])];
    l.insert_udconf(&String::from("a.service"), &deps, UNIT_DEPENDENCY_FILE);
    let b = l.db.units_get(&String::from("b.service")).unwrap();
    assert_eq!(l.db.dep_gets(a, UnitRelations::UnitRequires), vec![b]);
    assert_eq!(l.db.units_get(&String::from("bad")), None);
    assert_eq!(l.push_dep_unit_into_load_queue(&String::from("bad")), None);
    assert_eq!(l.push_dep_unit_into_load_queue(&String::from("b.service")), Some(b));
}

#[test]
fn ordering_cycle_in_dependency_config_is_left_out() {
    let mut l = UnitLoad::new();
    let a = l.prepare_unit(&String::from("a.service")).unwrap();
    let b = l.prepare_unit(&String::from("b.service")).unwrap();
    assert!(l.db.dep_insert(b, UnitRelations::UnitAfter, a, UNIT_DEPENDENCY_FILE).is_ok());
    let deps = vec![(UnitRelations::UnitAfter, vec![String::from("b.service")])];
    l.insert_udconf(&String::from("a.service"), &deps, UNIT_DEPENDENCY_FILE);
    assert!(l.db.dep_gets(a, UnitRelations::UnitAfter).is_empty());
    let (none, batch) = l.load_unit(&String::from("noext"));
    assert_eq!(none, None);
    assert_eq!(batch, vec![a, b]);
}
