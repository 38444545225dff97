use a2ltool::creator::definitions::GroupAttribute;
use a2ltool::creator::overwrite::InstanceElement;
use a2ltool::group::{create_group_entry, create_or_update_group, handle_group_assignment, Group};

fn names(list: &[&str]) -> Vec<String> {
    list.iter().map(|n| n.to_string()).collect()
}

fn group(name: &str, chars: Option<&[&str]>, meas: Option<&[&str]>) -> Group {
    Group {
        name: name.to_string(),
        long_identifier: String::new(),
        sub_group: None,
        root: false,
        ref_characteristic: chars.map(names),
        ref_measurement: meas.map(names),
    }
}

#[test]
fn new_root_group_is_created() {
    let mut groups = vec![group("Other", None, None)];
    create_or_update_group(&mut groups, "Inserted", names(&["cal_a", "cal_b"]), names(&[]));
    assert_eq!(groups.len(), 2);
    assert_eq!(groups[1].name, "Inserted");
    assert!(groups[1].root);
    assert_eq!(groups[1].ref_characteristic, Some(names(&["cal_a", "cal_b"])));
    // no measurement was inserted, so the group gets no measurement list
    assert_eq!(groups[1].ref_measurement, None);
    assert_eq!(groups[0].name, "Other");
}

#[test]
fn existing_group_is_extended() {
    let mut groups = vec![
        group("Other", Some(&["x"]), None),
        group("Target", Some(&["cal_a"]), None),
        group("Target", None, None),
    ];
    create_or_update_group(&mut groups, "Target", names(&["cal_b"]), names(&["meas_a"]));
    assert_eq!(groups.len(), 3);
    // the first group of that name gets the new items, at the end
    assert_eq!(groups[1].ref_characteristic, Some(names(&["cal_a", "cal_b"])));
    assert_eq!(groups[1].ref_measurement, Some(names(&["meas_a"])));
    assert!(!groups[1].root);
    assert_eq!(groups[0].ref_characteristic, Some(names(&["x"])));
    assert_eq!(groups[2].ref_characteristic, None);
    assert_eq!(groups[2].ref_measurement, None);
}

#[test]
fn nothing_inserted_leaves_the_lists() {
    let mut groups = vec![group("Target", None, Some(&["m"]))];
    create_or_update_group(&mut groups, "Target", vec![], vec![]);
    assert_eq!(groups.len(), 1);
    assert_eq!(groups[0].ref_characteristic, None);
    assert_eq!(groups[0].ref_measurement, Some(names(&["m"])));
}

#[test]
fn items_are_entered_under_a_group_path() {
    let mut groups: Vec<Group> = Vec::new();
    let descs = vec![("Engine".to_string(), "engine values".to_string())];
    let path = names(&["Engine", "Idle"]);
    create_group_entry(&mut groups, "Main", &Some("all".to_string()), &descs, &path, "rpm", true);
    assert_eq!(groups.len(), 3);
    assert_eq!((groups[0].name.as_str(), groups[0].long_identifier.as_str(), groups[0].root), ("Main", "all", true));
    assert_eq!(groups[0].sub_group, Some(names(&["Engine"])));
    assert_eq!((groups[1].name.as_str(), groups[1].long_identifier.as_str(), groups[1].root), ("Engine", "engine values", false));
    assert_eq!(groups[1].sub_group, Some(names(&["Idle"])));
    assert_eq!(groups[2].long_identifier, "");
    assert_eq!(groups[2].ref_measurement, Some(names(&["rpm"])));
    // a second item under the same path adds no group and no sub-group twice
    create_group_entry(&mut groups, "Main", &None, &descs, &path, "cal", false);
    assert_eq!(groups.len(), 3);
    assert_eq!(groups[0].sub_group, Some(names(&["Engine"])));
    assert_eq!(groups[2].ref_characteristic, Some(names(&["cal"])));
    // an empty path changes nothing
    create_group_entry(&mut groups, "Other", &None, &descs, &[], "x", true);
    assert_eq!(groups.len(), 3);
}

#[test]
fn group_assignment_prefers_the_instance_group() {
    let attrs = vec![GroupAttribute::In(names(&["A"])), GroupAttribute::Def(names(&["B", "C"]))];
    let mut groups: Vec<Group> = Vec::new();
    handle_group_assignment(&mut groups, "Main", &None, &[], None, &attrs, "x", true);
    let group_names: Vec<&str> = groups.iter().map(|g| g.name.as_str()).collect();
    assert_eq!(group_names, vec!["Main", "A", "B", "C"]);
    assert_eq!(groups[0].sub_group, Some(names(&["A", "B"])));
    assert_eq!(groups[3].ref_measurement, Some(names(&["x"])));
    let inst_group = Some(GroupAttribute::Std(names(&["I"])));
    let path = names(&["Struct"]);
    let overwrites = vec![];
    let ie = InstanceElement { instance_name: "inst".to_string(), struct_path: &path, instance_group: &inst_group, overwrites: &overwrites };
    let mut groups2: Vec<Group> = Vec::new();
    handle_group_assignment(&mut groups2, "Main", &None, &[], Some(&ie), &attrs, "y", false);
    let group_names2: Vec<&str> = groups2.iter().map(|g| g.name.as_str()).collect();
    assert_eq!(group_names2, vec!["Main", "I"]);
    assert_eq!(groups2[1].ref_characteristic, Some(names(&["y"])));
}
