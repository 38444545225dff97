use std::collections::HashMap;

use a2ltool::debuginfo::{DbgDataType, DebugData, TypeInfo, VarInfo};
use a2ltool::update::{get_symbol_info, plan_update, UpdateItem, UpdateOutcome};

fn ty(datatype: DbgDataType) -> TypeInfo {
    TypeInfo { name: None, unit_idx: 0, datatype, dbginfo_offset: 0 }
}

fn data() -> DebugData {
    let mut types = HashMap::new();
    types.insert(1, ty(DbgDataType::Uint16));
    DebugData {
        variables: vec![
            ("speed".to_string(), vec![VarInfo { address: 0x100, typeref: 1, unit_idx: 0, function: None, namespaces: vec![] }]),
            ("rpm".to_string(), vec![VarInfo { address: 0x200, typeref: 1, unit_idx: 0, function: None, namespaces: vec![] }]),
        ],
        types,
        typenames: vec![],
        demangled_names: vec![],
        unit_names: vec![],
        sections: vec![],
    }
}

fn item(name: &str, link: Option<&str>, ifdata: Option<&str>) -> UpdateItem {
    UpdateItem {
        name: name.to_string(),
        symbol_link: link.map(|s| s.to_string()),
        ifdata_symbol: ifdata.map(|s| s.to_string()),
    }
}

#[test]
fn symbol_name_choice() {
    let d = data();
    let u8t = ty(DbgDataType::Uint8);
    let (info, name) = get_symbol_info("speed", &Some("rpm".to_string()), &None, &d, &u8t);
    assert_eq!((info.unwrap().0, name.as_str()), (0x200, "rpm"));
    // a link that is not found falls back to IF_DATA, not to the item's name
    let (info, name) = get_symbol_info("speed", &Some("gone".to_string()), &None, &d, &u8t);
    assert!(info.is_none());
    assert_eq!(name, "gone");
    let (info, name) = get_symbol_info("x", &Some("gone".to_string()), &Some("speed".to_string()), &d, &u8t);
    assert_eq!((info.unwrap().0, name.as_str()), (0x100, "speed"));
    // without a link the item's own name is tried last
    let (info, name) = get_symbol_info("rpm", &None, &Some("gone".to_string()), &d, &u8t);
    assert_eq!((info.unwrap().0, name.as_str()), (0x200, "rpm"));
}

#[test]
fn items_are_updated_kept_or_removed() {
    let d = data();
    let u8t = ty(DbgDataType::Uint8);
    let items = vec![item("speed", None, None), item("old", None, None), item("m", Some("gone"), None)];
    let (outcomes, removed, updated, not_updated) = plan_update(&items, false, &d, &u8t);
    assert!(matches!(outcomes[0], UpdateOutcome::Updated { address: 0x100, .. }));
    assert!(matches!(outcomes[1], UpdateOutcome::Removed));
    assert_eq!(removed, vec!["old".to_string(), "m".to_string()]);
    assert_eq!((updated, not_updated), (1, 2));
    let (outcomes, removed, _, _) = plan_update(&items, true, &d, &u8t);
    assert!(matches!(outcomes[2], UpdateOutcome::Zeroed));
    assert!(removed.is_empty());
}
