//! End-to-end tests of the font catalog scan: minimal sfnt containers are
//! built byte by byte and fed through the library's public functions.

use font_catalog::path_ext::has_ttf_extension;
use font_catalog::scan::fonts_from_reads;
use font_catalog::ttf::extract_full_name;

fn push_u16(v: &mut Vec<u8>, x: u16) {
    v.push((x >> 8) as u8);
    v.push((x & 0xff) as u8);
}

fn push_u32(v: &mut Vec<u8>, x: u32) {
    push_u16(v, (x >> 16) as u16);
    push_u16(v, (x & 0xffff) as u16);
}

struct NameRec {
    platform: u16,
    encoding: u16,
    language: u16,
    name_id: u16,
    /// Raw record data, already in the record's encoding.
    data: Vec<u8>,
    /// Overrides the record's storage offset when set, to point a record
    /// outside the storage area.
    bad_offset: Option<u16>,
}

fn unicode_rec(name_id: u16, text: &str) -> NameRec {
    let mut data = Vec::new();
    for unit in text.encode_utf16() {
        push_u16(&mut data, unit);
    }
    NameRec { platform: 3, encoding: 1, language: 0x409, name_id, data, bad_offset: None }
}

fn macintosh_rec(name_id: u16, text: &str) -> NameRec {
    NameRec {
        platform: 1,
        encoding: 0,
        language: 0,
        name_id,
        data: text.as_bytes().to_vec(),
        bad_offset: None,
    }
}

/// Builds a minimal sfnt container: a table directory with `head`, `hhea`,
/// `maxp` and `name` tables, the name table holding the given records.
fn build_font(records: &[NameRec]) -> Vec<u8> {
    let mut name_tab = Vec::new();
    push_u16(&mut name_tab, 0); // format
    push_u16(&mut name_tab, records.len() as u16);
    push_u16(&mut name_tab, 6 + 12 * records.len() as u16); // storage offset
    let mut storage = Vec::new();
    for r in records {
        push_u16(&mut name_tab, r.platform);
        push_u16(&mut name_tab, r.encoding);
        push_u16(&mut name_tab, r.language);
        push_u16(&mut name_tab, r.name_id);
        push_u16(&mut name_tab, r.data.len() as u16);
        push_u16(&mut name_tab, r.bad_offset.unwrap_or(storage.len() as u16));
        storage.extend_from_slice(&r.data);
    }
    name_tab.extend_from_slice(&storage);

    let mut head = vec![0u8; 54];
    head[18] = 0x03; // units per em = 1000, within the accepted range
    head[19] = 0xe8;

    let hhea = vec![0u8; 36];

    let mut maxp = Vec::new();
    push_u32(&mut maxp, 0x00005000);
    push_u16(&mut maxp, 1); // one glyph

    let tables: [(&[u8; 4], &[u8]); 4] =
        [(b"head", &head), (b"hhea", &hhea), (b"maxp", &maxp), (b"name", &name_tab)];

    let mut font = Vec::new();
    push_u32(&mut font, 0x00010000); // sfnt magic
    push_u16(&mut font, tables.len() as u16);
    push_u16(&mut font, 0); // search range
    push_u16(&mut font, 0); // entry selector
    push_u16(&mut font, 0); // range shift

    let mut offset: u32 = 12 + 16 * tables.len() as u32;
    for (tag, data) in tables.iter() {
        font.extend_from_slice(*tag);
        push_u32(&mut font, 0); // checksum, not verified by the parser
        push_u32(&mut font, offset);
        push_u32(&mut font, data.len() as u32);
        offset += data.len() as u32;
    }
    for (_, data) in tables.iter() {
        font.extend_from_slice(data);
    }
    font
}

fn valid_font(full_name: &str) -> Vec<u8> {
    build_font(&[unicode_rec(1, "Some Family"), unicode_rec(4, full_name)])
}

#[test]
fn extension_filter_is_exact_and_case_sensitive() {
    assert!(has_ttf_extension("font.ttf"));
    assert!(has_ttf_extension("dir/sub/a.ttf"));
    assert!(has_ttf_extension("a.b.ttf"));
    assert!(!has_ttf_extension("FONT.TTF"));
    assert!(!has_ttf_extension("font.TTF"));
    assert!(!has_ttf_extension("font.otf"));
    assert!(!has_ttf_extension("font.ttfx"));
    assert!(!has_ttf_extension("fontttf"));
    assert!(!has_ttf_extension(".ttf"));
    assert!(!has_ttf_extension("dir/.ttf"));
    assert!(!has_ttf_extension(""));
}

#[test]
fn extract_reads_full_name() {
    let font = valid_font("Alpha Regular");
    assert_eq!(extract_full_name(&font), Some("Alpha Regular".to_string()));
}

#[test]
fn extract_takes_first_full_name_record() {
    let font = build_font(&[unicode_rec(4, "First"), unicode_rec(4, "Second")]);
    assert_eq!(extract_full_name(&font), Some("First".to_string()));
}

#[test]
fn extract_skips_undecodable_full_name_record() {
    // The Macintosh record carries the full-name ID but no Unicode encoding:
    // the walk passes it over and takes the next full-name record.
    let font = build_font(&[macintosh_rec(4, "Mac Name"), unicode_rec(4, "Unicode Name")]);
    assert_eq!(extract_full_name(&font), Some("Unicode Name".to_string()));
}

#[test]
fn extract_without_full_name_record_yields_nothing() {
    let font = build_font(&[unicode_rec(1, "Family Only"), unicode_rec(2, "Regular")]);
    assert_eq!(extract_full_name(&font), None);
}

#[test]
fn extract_with_only_undecodable_full_name_yields_nothing() {
    let font = build_font(&[macintosh_rec(4, "Mac Only")]);
    assert_eq!(extract_full_name(&font), None);
}

#[test]
fn extract_stops_at_record_outside_storage() {
    // The first record's data lies beyond the storage area, so the walk over
    // the name table ends there and never reaches the valid record after it.
    let mut broken = unicode_rec(1, "x");
    broken.bad_offset = Some(60000);
    let font = build_font(&[broken, unicode_rec(4, "Unreachable")]);
    assert_eq!(extract_full_name(&font), None);
}

#[test]
fn extract_rejects_corrupt_container() {
    assert_eq!(extract_full_name(b"this is no font at all"), None);
    assert_eq!(extract_full_name(&[]), None);
}

#[test]
fn empty_scan_yields_no_records_and_no_error() {
    let result = fonts_from_reads(Vec::new()).unwrap();
    assert_eq!(result.len(), 0);
}

#[test]
fn valid_font_contributes_exactly_one_record() {
    let files = vec![("fonts/alpha.ttf".to_string(), Ok(valid_font("Alpha Regular")))];
    let result = fonts_from_reads(files).unwrap();
    assert_eq!(result.len(), 1);
    assert_eq!(result[0].name, "Alpha Regular");
    assert_eq!(result[0].path, "fonts/alpha.ttf");
}

#[test]
fn font_without_full_name_contributes_nothing() {
    let files = vec![
        ("fonts/anon.ttf".to_string(), Ok(build_font(&[unicode_rec(1, "Family Only")]))),
        ("fonts/beta.ttf".to_string(), Ok(valid_font("Beta Bold"))),
    ];
    let result = fonts_from_reads(files).unwrap();
    assert_eq!(result.len(), 1);
    assert_eq!(result[0].name, "Beta Bold");
}

#[test]
fn corrupt_font_is_skipped_and_siblings_survive() {
    let files = vec![
        ("a.ttf".to_string(), Ok(valid_font("Alpha"))),
        ("b.ttf".to_string(), Ok(b"garbage".to_vec())),
        ("c.ttf".to_string(), Ok(valid_font("Gamma"))),
    ];
    let result = fonts_from_reads(files).unwrap();
    assert_eq!(result.len(), 2);
    assert_eq!(result[0].name, "Alpha");
    assert_eq!(result[1].name, "Gamma");
}

#[test]
fn duplicate_names_across_paths_are_both_kept() {
    let files = vec![
        ("a/r.ttf".to_string(), Ok(valid_font("Same Name"))),
        ("b/r.ttf".to_string(), Ok(valid_font("Same Name"))),
    ];
    let result = fonts_from_reads(files).unwrap();
    assert_eq!(result.len(), 2);
    assert_eq!(result[0].name, "Same Name");
    assert_eq!(result[0].path, "a/r.ttf");
    assert_eq!(result[1].name, "Same Name");
    assert_eq!(result[1].path, "b/r.ttf");
}

#[test]
fn read_error_aborts_scan_and_discards_earlier_records() {
    let files = vec![
        ("a.ttf".to_string(), Ok(valid_font("Alpha"))),
        ("b.ttf".to_string(), Err("permission denied".to_string())),
        ("c.ttf".to_string(), Ok(valid_font("Gamma"))),
    ];
    let result = fonts_from_reads(files);
    assert_eq!(result.err(), Some("permission denied".to_string()));
}

#[test]
fn first_of_several_read_errors_wins() {
    let files = vec![
        ("a.ttf".to_string(), Err("first failure".to_string())),
        ("b.ttf".to_string(), Err("second failure".to_string())),
    ];
    let result = fonts_from_reads(files);
    assert_eq!(result.err(), Some("first failure".to_string()));
}

#[test]
fn same_bytes_pass_or_fail_on_extension_case_alone() {
    let font = valid_font("Cased");
    assert!(has_ttf_extension("font.ttf"));
    assert!(!has_ttf_extension("FONT.TTF"));
    // Only the lowercase path reaches the read step; the scan then finds the
    // name in the very same bytes.
    let files = vec![("font.ttf".to_string(), Ok(font))];
    let result = fonts_from_reads(files).unwrap();
    assert_eq!(result.len(), 1);
    assert_eq!(result[0].name, "Cased");
}

#[test]
fn mixed_directory_scenario() {
    // A walk found: a.ttf (valid, "Alpha Regular"), b.ttf (corrupt bytes),
    // c.otf (valid font, wrong extension), sub/d.ttf (valid, "Delta Bold").
    // The extension filter drops c.otf before any read.
    let walked = vec![
        ("dir/a.ttf".to_string(), valid_font("Alpha Regular")),
        ("dir/b.ttf".to_string(), b"corrupt bytes".to_vec()),
        ("dir/c.otf".to_string(), valid_font("Gamma Italic")),
        ("dir/sub/d.ttf".to_string(), valid_font("Delta Bold")),
    ];
    let mut files = Vec::new();
    for (path, bytes) in walked {
        if has_ttf_extension(&path) {
            files.push((path, Ok(bytes)));
        }
    }
    let result = fonts_from_reads(files).unwrap();
    assert_eq!(result.len(), 2);
    assert_eq!(result[0].name, "Alpha Regular");
    assert_eq!(result[0].path, "dir/a.ttf");
    assert_eq!(result[1].name, "Delta Bold");
    assert_eq!(result[1].path, "dir/sub/d.ttf");
}
