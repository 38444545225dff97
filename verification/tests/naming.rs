use a2ltool::creator::definitions::SplitType;
use a2ltool::creator::naming::{apply_template, build_format, build_input_signal_name, deftokens_to_string};
use a2ltool::creator::split::SplitIterator;

#[test]
fn test_apply_template() {
    let template = "a_%d_b_%x_c_%C";
    let indices = vec![1, 2, 3];
    let result = apply_template(template, &indices);
    assert_eq!(result, Some("a_1_b_2_c_D".into()));
}

#[test]
fn template_specifiers_and_errors() {
    assert_eq!(apply_template("%x%X%c", &[255, 171, 2]), Some("ffABc".to_string()));
    assert_eq!(apply_template("plain", &[]), Some("plain".to_string()));
    // a stray % at the end stays
    assert_eq!(apply_template("a%", &[7]), Some("a%".to_string()));
    // not enough indices
    assert_eq!(apply_template("%d_%d", &[1]), None);
    // letter index too large
    assert_eq!(apply_template("%c", &[26]), None);
    // unknown specifier
    assert_eq!(apply_template("%q", &[1]), None);
}

#[test]
fn input_signal_names() {
    let inst = Some("inst".to_string());
    let sig = Some("sig".to_string());
    assert_eq!(build_input_signal_name(&inst, &sig, true), "inst.sig");
    assert_eq!(build_input_signal_name(&inst, &sig, false), "sig");
    assert_eq!(build_input_signal_name(&None, &sig, true), "sig");
    assert_eq!(build_input_signal_name(&inst, &None, true), "NO_INPUT_QUANTITY");
}

#[test]
fn format_strings() {
    assert_eq!(build_format(&Some(8), &Some(4)), Some("%8.4".to_string()));
    assert_eq!(build_format(&None, &Some(12)), Some("%.12".to_string()));
    assert_eq!(build_format(&Some(8), &None), None);
}

#[test]
fn definition_tokens_as_text() {
    let tokens = vec![b"SYMBOL".to_vec(), b"=".to_vec(), b"x".to_vec()];
    assert_eq!(deftokens_to_string(&tokens), "SYMBOL = x");
    assert_eq!(deftokens_to_string(&[]), "");
}

fn all_items(it: &mut SplitIterator) -> Vec<(String, String)> {
    let mut out = Vec::new();
    while let Some(item) = it.next() {
        out.push(item);
    }
    out
}

#[test]
fn split_auto_enumerates_row_major() {
    let dims = [2u32, 2];
    let split = SplitType::Auto;
    let mut it = SplitIterator::new(&dims, &split, "A", "s", true);
    let items = all_items(&mut it);
    let names: Vec<&str> = items.iter().map(|(a, _)| a.as_str()).collect();
    assert_eq!(names, vec!["A[0][0]", "A[0][1]", "A[1][0]", "A[1][1]"]);
    assert_eq!(items[3].1, "s[1][1]");
    // exhausted
    assert_eq!(it.next(), None);
}

#[test]
fn split_old_array_notation_and_manual_names() {
    let dims = [3u32];
    let split = SplitType::Manual(vec!["_x".to_string(), "_y".to_string()]);
    let mut it = SplitIterator::new(&dims, &split, "P", "p", false);
    assert_eq!(it.next(), Some(("P_x".to_string(), "p._0_".to_string())));
    assert_eq!(it.next(), Some(("P_y".to_string(), "p._1_".to_string())));
    // the list of names is too short for the third element
    assert_eq!(it.next(), None);
    assert_eq!(it.next(), None);
}

#[test]
fn split_template_names() {
    let dims = [2u32, 3];
    let split = SplitType::Template("_%c%d".to_string());
    let mut it = SplitIterator::new(&dims, &split, "M", "m", true);
    let items = all_items(&mut it);
    assert_eq!(items.len(), 6);
    assert_eq!(items[4], ("M_b1".to_string(), "m[1][1]".to_string()));
}

#[test]
fn split_with_zero_dimension_is_empty() {
    let dims = [4u32, 0];
    let split = SplitType::Auto;
    let mut it = SplitIterator::new(&dims, &split, "A", "s", true);
    assert_eq!(it.next(), None);
}
