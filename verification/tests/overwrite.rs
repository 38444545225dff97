use a2ltool::creator::definitions::{ConversionAttribute, FloatValue, GroupAttribute, Overwrite, OverwriteSpec};
use a2ltool::creator::overwrite::{
    choose_alias, choose_conversion, choose_description, get_overwrite_group, get_overwrite_range,
    InstanceElement,
};

fn overwrites() -> Vec<Overwrite> {
    vec![
        Overwrite { element_path: vec!["x".to_string()], details: OverwriteSpec::Description("first".to_string()) },
        Overwrite { element_path: vec!["x".to_string()], details: OverwriteSpec::Description("second".to_string()) },
        Overwrite { element_path: vec!["y".to_string()], details: OverwriteSpec::Alias("why".to_string()) },
        Overwrite {
            element_path: vec!["x".to_string()],
            details: OverwriteSpec::Range(FloatValue::NegativeHex(1), FloatValue::Hex(1)),
        },
        Overwrite {
            element_path: vec!["x".to_string()],
            details: OverwriteSpec::GroupAssignment(GroupAttribute::In(vec!["G".to_string()])),
        },
    ]
}

#[test]
fn overwrites_take_precedence() {
    let ovs = overwrites();
    let group = None;
    let path = vec!["Struct".to_string(), "x".to_string()];
    let ie = InstanceElement { instance_name: "inst".to_string(), struct_path: &path, instance_group: &group, overwrites: &ovs };
    // the first matching overwrite wins
    assert_eq!(choose_description(Some("config"), Some(&ie)), "first");
    // no alias overwrite for x: the configuration is used
    let alias = Some("cfg_alias".to_string());
    assert_eq!(choose_alias(&alias, Some(&ie)), Some("cfg_alias"));
    assert!(matches!(get_overwrite_range(Some(&ie)), Some((FloatValue::NegativeHex(1), FloatValue::Hex(1)))));
    assert!(matches!(get_overwrite_group(Some(&ie)), Some(GroupAttribute::In(_))));

    let path_y = vec!["Struct".to_string(), "y".to_string()];
    let ie_y = InstanceElement { instance_name: "inst".to_string(), struct_path: &path_y, instance_group: &group, overwrites: &ovs };
    assert_eq!(choose_alias(&None, Some(&ie_y)), Some("why"));
    assert_eq!(choose_description(None, Some(&ie_y)), "");
    assert!(get_overwrite_range(Some(&ie_y)).is_none());
}

#[test]
fn no_instance_uses_configuration() {
    let conv = Some(ConversionAttribute::Reference { name: "C".to_string(), length: None, digits: None });
    assert!(matches!(choose_conversion(&conv, None), Some(ConversionAttribute::Reference { .. })));
    assert_eq!(choose_description(Some("d"), None), "d");
    assert_eq!(choose_alias(&None, None), None);
}
