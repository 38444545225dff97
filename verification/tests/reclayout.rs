use a2ltool::creator::definitions::DataType;
use a2ltool::datatype::{dp_blob_size, link_map_datatype};
use a2ltool::debuginfo::{DbgDataType, TypeInfo};
use a2ltool::reclayout::{
    compare_rl_content, get_inner_type, update_record_layout, AxisLayout, LayoutEntry, RecordLayout,
    RecordLayoutInfo,
};

fn ty(datatype: DbgDataType) -> TypeInfo {
    TypeInfo { name: None, unit_idx: 0, datatype, dbginfo_offset: 0 }
}

fn no_axes() -> Vec<AxisLayout> {
    (0..5).map(|_| AxisLayout { axis_pts: None, no_axis_pts: None, fix_no_axis_pts: None }).collect()
}

fn layout(name: &str, datatype: DataType) -> RecordLayout {
    RecordLayout {
        name: name.to_string(),
        fnc_values: Some(LayoutEntry { position: 1, datatype, details: vec!["ROW_DIR".to_string(), "DIRECT".to_string()] }),
        axes: no_axes(),
        others: vec![],
    }
}

#[test]
fn link_map_codes() {
    assert_eq!(link_map_datatype(&ty(DbgDataType::Uint8)).datatype, 0x87);
    assert_eq!(link_map_datatype(&ty(DbgDataType::Uint16)).datatype, 0x8f);
    assert_eq!(link_map_datatype(&ty(DbgDataType::Uint32)).datatype, 0x9f);
    assert_eq!(link_map_datatype(&ty(DbgDataType::Uint64)).datatype, 0xbf);
    assert_eq!(link_map_datatype(&ty(DbgDataType::Sint16)).datatype, 0xcf);
    assert_eq!(link_map_datatype(&ty(DbgDataType::Double)).datatype, 0x02);
    let e4 = ty(DbgDataType::Enum { size: 4, signed: false, enumerators: vec![] });
    assert_eq!(link_map_datatype(&e4).datatype, 0x8f);
    let bf = ty(DbgDataType::Bitfield { basetype: Box::new(ty(DbgDataType::Sint16)), bit_offset: 3, bit_size: 4 });
    let lm = link_map_datatype(&bf);
    assert_eq!((lm.datatype, lm.bit_offset, lm.datatype_valid), (0x80 | 0x40 | 3, 3, 1));
    let other = link_map_datatype(&ty(DbgDataType::Other(4)));
    assert_eq!((other.datatype, other.datatype_valid), (0, 0));
    assert_eq!(dp_blob_size(&ty(DbgDataType::Float)), Some(4));
    assert_eq!(dp_blob_size(&e4), Some(4));
    assert_eq!(dp_blob_size(&ty(DbgDataType::Other(4))), None);
}

#[test]
fn inner_type_by_offset_order() {
    let s = ty(DbgDataType::Struct {
        size: 8,
        members: vec![
            ("b".to_string(), (ty(DbgDataType::Uint32), 4)),
            ("a".to_string(), (ty(DbgDataType::Uint16), 0)),
        ],
    });
    assert!(matches!(get_inner_type(&s, 1).unwrap().datatype, DbgDataType::Uint16));
    assert!(matches!(get_inner_type(&s, 0).unwrap().datatype, DbgDataType::Uint16));
    assert!(matches!(get_inner_type(&s, 2).unwrap().datatype, DbgDataType::Uint32));
    assert!(get_inner_type(&s, 3).is_none());
    let u = ty(DbgDataType::Uint8);
    assert!(get_inner_type(&u, 1).is_some());
    assert!(get_inner_type(&u, 2).is_none());
}

#[test]
fn record_layout_updates() {
    let mut layouts = vec![layout("__UBYTE_S", DataType::Ubyte), layout("__ULONG_S", DataType::Ulong), layout("shared", DataType::Ubyte)];
    let deposits: Vec<String> = ["__UBYTE_S", "shared", "shared", "missing"].iter().map(|s| s.to_string()).collect();
    let mut info = RecordLayoutInfo::build(&layouts, &deposits);
    assert_eq!(info.refcount, vec![1, 0, 2]);
    let u16t = ty(DbgDataType::Uint16);
    let u32t = ty(DbgDataType::Uint32);
    // an unknown name stays
    assert_eq!(update_record_layout(&mut layouts, &mut info, "nothing", &u16t), "nothing");
    // an unchanged layout keeps its name
    assert_eq!(update_record_layout(&mut layouts, &mut info, "__UBYTE_S", &ty(DbgDataType::Uint8)), "__UBYTE_S");
    // a layout that becomes equal to an existing one is shared with it
    assert_eq!(update_record_layout(&mut layouts, &mut info, "__UBYTE_S", &u32t), "__ULONG_S");
    assert_eq!(info.refcount, vec![0, 1, 2]);
    // a layout with several users is copied under a new name
    let n = update_record_layout(&mut layouts, &mut info, "shared", &u16t);
    assert_eq!(n, "shared_UPDATED");
    assert_eq!(layouts.len(), 4);
    assert_eq!(info.refcount, vec![0, 1, 1, 1]);
    assert!(matches!(layouts[3].fnc_values.as_ref().unwrap().datatype, DataType::Uword));
    assert!(matches!(layouts[2].fnc_values.as_ref().unwrap().datatype, DataType::Ubyte));
    // a layout with one user is changed in place, and renamed by its type
    let mut one = vec![layout("__UBYTE_S", DataType::Ubyte)];
    let mut one_info = RecordLayoutInfo::build(&one, &["__UBYTE_S".to_string()]);
    assert_eq!(update_record_layout(&mut one, &mut one_info, "__UBYTE_S", &u16t), "__UWORD_S");
    assert_eq!(one.len(), 1);
    assert_eq!(one[0].name, "__UWORD_S");
    assert_eq!(one_info.idxmap, vec![("__UWORD_S".to_string(), 0)]);
    assert!(compare_rl_content(&one[0], &layout("other", DataType::Uword)));
}

#[test]
fn fixed_axis_points_follow_the_array() {
    let mut rl = layout("AXIS", DataType::Ubyte);
    rl.fnc_values = None;
    rl.axes[0] = AxisLayout {
        axis_pts: Some(LayoutEntry { position: 1, datatype: DataType::Ubyte, details: vec![] }),
        no_axis_pts: None,
        fix_no_axis_pts: Some(3),
    };
    let mut layouts = vec![rl];
    let mut info = RecordLayoutInfo::build(&layouts, &["AXIS".to_string()]);
    let arr = ty(DbgDataType::Array { size: 16, dim: vec![8], stride: 2, arraytype: Box::new(ty(DbgDataType::Uint16)) });
    assert_eq!(update_record_layout(&mut layouts, &mut info, "AXIS", &arr), "AXIS");
    assert_eq!(layouts[0].axes[0].fix_no_axis_pts, Some(8));
    assert!(matches!(layouts[0].axes[0].axis_pts.as_ref().unwrap().datatype, DataType::Uword));
}
