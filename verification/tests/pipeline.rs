use postal_import::record::LineError;
use postal_import::record::parse_record;
use postal_import::record::parse_year_month;
use postal_import::record::canonical_end;
use postal_import::record::process_line;
use postal_import::text::clean_line;
use postal_import::text::split_fields;

fn chars(s: &str) -> Vec<char> {
    s.chars().collect()
}

fn text(v: &[char]) -> String {
    v.iter().collect()
}

/// A line of `n` comma-separated fields, the given positions filled.
fn make_line(n: usize, filled: &[(usize, &str)]) -> String {
    let mut fields: Vec<String> = vec![String::new(); n];
    for (i, v) in filled {
        fields[*i] = (*v).to_string();
    }
    fields.join(",")
}

fn sjis_bytes(line: &str) -> Vec<u8> {
    let (bytes, _, _) = encoding_rs::SHIFT_JIS.encode(line);
    bytes.into_owned()
}

#[test]
fn clean_removes_spaces_and_trims() {
    let cleaned = clean_line(&chars(" 13 1\u{3000}01 ,x\r\n"));
    assert_eq!(text(&cleaned), "13101,x");
}

#[test]
fn split_keeps_empty_fields() {
    let fields = split_fields(&chars("a,,b,"));
    let texts: Vec<String> = fields.iter().map(|f| text(f)).collect();
    assert_eq!(texts, vec!["a", "", "b", ""]);
}

#[test]
fn split_of_empty_line_is_one_empty_field() {
    let fields = split_fields(&chars(""));
    assert_eq!(fields.len(), 1);
    assert!(fields[0].is_empty());
}

#[test]
fn year_month_parses_plain_decimal() {
    assert_eq!(parse_year_month(&chars("202312")), Some(202312));
    assert_eq!(parse_year_month(&chars("999999")), Some(999999));
    assert_eq!(parse_year_month(&chars("")), None);
    assert_eq!(parse_year_month(&chars("2023-1")), None);
    assert_eq!(parse_year_month(&chars("20231201")), Some(20231201));
}

#[test]
fn sentinel_is_rewritten_to_nines() {
    assert_eq!(text(&canonical_end(&chars("000000"))), "999999");
    assert_eq!(text(&canonical_end(&chars("202312"))), "202312");
    assert_eq!(text(&canonical_end(&chars("0000000"))), "0000000");
}

#[test]
fn record_with_too_few_fields_is_rejected() {
    let fields = split_fields(&chars("13101,1600000,x"));
    assert_eq!(parse_record(&fields), Err(LineError::TooFewFields));
}

#[test]
fn record_with_non_numeric_end_is_rejected() {
    let line = make_line(41, &[(0, "13101"), (40, "2023xx")]);
    let fields = split_fields(&chars(&line));
    assert_eq!(parse_record(&fields), Err(LineError::BadYearMonth));
}

#[test]
fn half_width_kana_is_stored_full_width() {
    let line = make_line(41, &[
        (0, "13101"),
        (11, "\u{ff7c}\u{ff6c}\u{ff97}"),
        (12, "\u{ff8c}\u{ff7c}\u{ff9e}"),
        (39, "202301"),
        (40, "999999"),
    ]);
    let fields = split_fields(&chars(&line));
    let row = parse_record(&fields).unwrap();
    assert_eq!(text(&row.city_kana), "シャラ");
    assert_eq!(text(&row.town_kana), "フジ");
}

#[test]
fn open_end_record_is_kept_and_stored_as_nines() {
    let line = make_line(41, &[(0, "13101"), (39, "201501"), (40, "000000")]);
    let bytes = sjis_bytes(&line);
    let row = process_line(&bytes, 202401).unwrap().unwrap();
    assert_eq!(text(&row.end_ym), "999999");
    assert_eq!(text(&row.start_ym), "201501");
}

#[test]
fn stale_record_is_skipped() {
    let line = make_line(41, &[(0, "13101"), (40, "202312")]);
    let bytes = sjis_bytes(&line);
    assert_eq!(process_line(&bytes, 202401), Ok(None));
}

#[test]
fn current_month_record_is_kept() {
    let line = make_line(41, &[(0, "13101"), (40, "202401")]);
    let bytes = sjis_bytes(&line);
    assert!(process_line(&bytes, 202401).unwrap().is_some());
}

#[test]
fn empty_nullable_fields_become_null() {
    let line = make_line(41, &[(0, "13101"), (20, "新宿区"), (40, "999999")]);
    let bytes = sjis_bytes(&line);
    let row = process_line(&bytes, 202401).unwrap().unwrap();
    assert_eq!(text(&row.code), "13101");
    assert_eq!(row.zipcode, None);
    assert_eq!(text(&row.city.as_ref().unwrap()), "新宿区");
    assert_eq!(row.town, None);
    assert_eq!(row.chome, None);
    assert_eq!(row.city_kana, None);
    assert_eq!(row.town_kana, None);
}

#[test]
fn shift_jis_line_decodes_to_japanese_text() {
    let line = make_line(41, &[(0, "13101"), (20, "新宿区"), (21, "西新宿"), (40, "999999")]);
    let bytes = sjis_bytes(&line);
    // Shift-JIS is a two-byte encoding here: the raw bytes differ from UTF-8.
    assert_ne!(bytes, line.as_bytes());
    let row = process_line(&bytes, 202401).unwrap().unwrap();
    assert_eq!(text(&row.city.unwrap()), "新宿区");
    assert_eq!(text(&row.town.unwrap()), "西新宿");
}

#[test]
fn malformed_bytes_decode_to_replacement_not_panic() {
    // An invalid Shift-JIS byte in the chome field position.
    let line = make_line(41, &[(0, "13101"), (22, "x"), (40, "999999")]);
    let mut bytes = sjis_bytes(&line);
    for b in bytes.iter_mut() {
        if *b == b'x' {
            *b = 0xfe;
        }
    }
    let row = process_line(&bytes, 202401).unwrap().unwrap();
    assert_eq!(text(&row.chome.unwrap()), "\u{fffd}");
}

#[test]
fn regular_half_width_ya_widens_to_regular_full_width_ya() {
    // A regular half-width ya widens to the regular full-width ya; only the
    // half-width small ya gives the small full-width form.
    let line = make_line(41, &[(0, "13101"), (11, "ｼﾔﾗ"), (40, "999999")]);
    let fields = split_fields(&chars(&line));
    let row = parse_record(&fields).unwrap();
    assert_eq!(text(&row.city_kana), "シヤラ");
}

#[test]
fn exotic_unicode_whitespace_is_trimmed() {
    let cleaned = clean_line(&chars("\u{a0}\u{2003}13101,x\u{2028}\u{85}"));
    assert_eq!(text(&cleaned), "13101,x");
    // Away from the ends, only the two space characters are removed.
    let kept = clean_line(&chars("a\u{a0}b c"));
    assert_eq!(text(&kept), "a\u{a0}bc");
}
