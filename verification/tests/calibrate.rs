use a2ltool::calibrate::{
    guess_binfile_format, read_calibrations_csv, write_calibrations_csv, BinFileFormat, Calibration,
};
use a2ltool::creator::definitions::{ByteOrderEnum, DataType};

const CAL_TEST_CSV: &str = "# calibration values\r\n\
cal_sleep_time;250\r\n\
\x20cal_float ; 8.8888 \r\n\
cal_text;\"aaa\"\r\n\
\r\n\
cal_sleep_counts;(2,4,6);unused\r\n\
cal_double\r\n";

#[test]
fn binfile_format_from_extension() {
    assert!(matches!(guess_binfile_format(Some("S19")), Some(BinFileFormat::SREC)));
    assert!(matches!(guess_binfile_format(Some("srec")), Some(BinFileFormat::SREC)));
    assert!(matches!(guess_binfile_format(Some("HeX")), Some(BinFileFormat::IHEX)));
    assert!(matches!(guess_binfile_format(Some("ihex")), Some(BinFileFormat::IHEX)));
    assert!(guess_binfile_format(Some("bin")).is_none());
    assert!(guess_binfile_format(None).is_none());
}

#[test]
fn test_read_calibrations_csv() {
    let default_endianess = ByteOrderEnum::LittleEndian;
    let calibrations = read_calibrations_csv(CAL_TEST_CSV, default_endianess);

    assert_eq!(calibrations.len(), 5);
    assert_eq!(calibrations[0].symbol, "cal_sleep_time");
    assert_eq!(calibrations[0].value_repr, Some("250".to_string()));
    assert_eq!(calibrations[1].symbol, "cal_float");
    assert_eq!(calibrations[1].value_repr, Some("8.8888".to_string()));
    assert_eq!(calibrations[2].symbol, "cal_text");
    assert_eq!(calibrations[2].value_repr, Some("\"aaa\"".to_string()));
    assert_eq!(calibrations[3].symbol, "cal_sleep_counts");
    assert_eq!(calibrations[3].value_repr, Some("(2,4,6)".to_string()));
}

#[test]
fn csv_entries_keep_only_what_the_file_gives() {
    let calibrations = read_calibrations_csv(CAL_TEST_CSV, ByteOrderEnum::BigEndian);
    assert_eq!(calibrations[4].symbol, "cal_double");
    assert_eq!(calibrations[4].value_repr, None);
    for cal in &calibrations {
        assert_eq!(cal.address, None);
        assert_eq!(cal.size, None);
        assert_eq!(cal.dim, None);
        assert!(cal.dtype.is_none());
        assert_eq!(cal.endianess, ByteOrderEnum::BigEndian);
    }
}

#[test]
fn csv_lines_without_symbol_name_nothing() {
    let text = "\n   \n#cal_x;1\n  # cal_y;2\n;5\n\u{3000}\t\n";
    assert!(read_calibrations_csv(text, ByteOrderEnum::LittleEndian).is_empty());
    assert!(read_calibrations_csv("", ByteOrderEnum::LittleEndian).is_empty());
}

#[test]
fn csv_unicode_white_space_is_trimmed() {
    let text = "\u{a0}cal_a\u{2003};\u{3000}7\u{85}";
    let calibrations = read_calibrations_csv(text, ByteOrderEnum::LittleEndian);
    assert_eq!(calibrations.len(), 1);
    assert_eq!(calibrations[0].symbol, "cal_a");
    assert_eq!(calibrations[0].value_repr, Some("7".to_string()));
}

#[test]
fn csv_lone_carriage_return_stays_in_the_line() {
    // a '\r' not followed by '\n' ends no line; it is white space, so trimmed
    let calibrations = read_calibrations_csv("a;1\rb;2", ByteOrderEnum::LittleEndian);
    assert_eq!(calibrations.len(), 1);
    assert_eq!(calibrations[0].symbol, "a");
    assert_eq!(calibrations[0].value_repr, Some("1\rb".to_string()));
}

fn calibration(symbol: &str, value: Option<&str>) -> Calibration {
    Calibration {
        symbol: symbol.to_string(),
        value_repr: value.map(|v| v.to_string()),
        address: Some(0xc34c),
        size: Some(4),
        dim: Some(1),
        dtype: Some(DataType::Ulong),
        endianess: ByteOrderEnum::LittleEndian,
    }
}

#[test]
fn csv_write_replaces_named_values_and_trims_the_rest() {
    let cals = vec![
        calibration("cal_sleep_time", Some("100")),
        calibration("cal_float", None),
        calibration("cal_sleep_time", Some("101")),
    ];
    let written = write_calibrations_csv(CAL_TEST_CSV, &cals);
    assert_eq!(
        written,
        "# calibration values\n\
cal_sleep_time;101\n\
cal_float;\n\
cal_text;\"aaa\"\n\
\n\
cal_sleep_counts;(2,4,6);unused\n\
cal_double\n"
    );
    assert_eq!(write_calibrations_csv("", &cals), "");
}

#[test]
fn csv_reads_back_what_was_written() {
    let cals = vec![
        calibration("cal_text", Some("\"bbb\"")),
        calibration("cal_double", Some("(1.5,2.5)")),
        calibration("cal_float", Some("")),
    ];
    let before = read_calibrations_csv(CAL_TEST_CSV, ByteOrderEnum::LittleEndian);
    let written = write_calibrations_csv(CAL_TEST_CSV, &cals);
    let after = read_calibrations_csv(&written, ByteOrderEnum::LittleEndian);
    assert_eq!(after.len(), before.len());
    let symbols: Vec<&str> = after.iter().map(|c| c.symbol.as_str()).collect();
    assert_eq!(symbols, vec!["cal_sleep_time", "cal_float", "cal_text", "cal_sleep_counts", "cal_double"]);
    assert_eq!(after[0].value_repr, Some("250".to_string()));
    assert_eq!(after[1].value_repr, None);
    assert_eq!(after[2].value_repr, Some("\"bbb\"".to_string()));
    assert_eq!(after[3].value_repr, Some("(2,4,6)".to_string()));
    assert_eq!(after[4].value_repr, Some("(1.5,2.5)".to_string()));
}
