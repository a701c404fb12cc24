use textbook_downloader::catalog::{
    build_required_id_sequence, build_tag_names, filter_books, filter_options_lookup,
    get_dropdown_options_from_hierarchies, select_textbooks, statistics_map_from_records,
    textbook_categories_from, validate_parameters, HierarchyNavigator, StatRecord,
};
use textbook_downloader::models::{
    parse_hierarchies_recursive, FilterOptionsArgs, RawBook, TagChild, TagHierarchy, TagMap,
};
use textbook_downloader::strutil::{last_index_of, split_str, str_eq};
use textbook_downloader::encoding::encode_image_bytes;
use textbook_downloader::locator::is_valid_url;

fn child(id: &str, name: &str) -> TagChild {
    TagChild::new(id.to_string(), name.to_string())
}

fn child_with(id: &str, name: &str, hs: Vec<TagHierarchy>) -> TagChild {
    let mut c = child(id, name);
    c.hierarchies = Some(hs);
    c
}

/// A map with one category holding subject -> version -> grade -> year.
fn sample_map() -> TagMap {
    let year = child("y1", "2024");
    let grade = child_with("g1", "三年级", vec![TagHierarchy::with_children(vec![year])]);
    let version = child_with("v1", "人教版", vec![TagHierarchy::with_children(vec![grade])]);
    let subject = child_with("s1", "数学", vec![TagHierarchy::with_children(vec![version])]);
    let category = child_with("c1", "小学", vec![TagHierarchy::with_children(vec![subject])]);
    let mut map = TagMap::new();
    map.insert("c1".to_string(), category);
    map.insert("c2".to_string(), child("c2", "高中"));
    map.insert("c3".to_string(), child("c3", "特殊教育"));
    map
}

#[test]
fn string_utilities() {
    assert!(str_eq("abc", "abc"));
    assert!(!str_eq("abc", "abd"));
    assert!(!str_eq("abc", "ab"));
    assert_eq!(split_str("a/b/c", '/'), vec!["a", "b", "c"]);
    assert_eq!(split_str("", ','), vec![""]);
    assert_eq!(split_str("x,,y", ','), vec!["x", "", "y"]);
    assert_eq!(last_index_of("a.b.c", '.'), Some(3));
    assert_eq!(last_index_of("abc", '.'), None);
}

#[test]
fn locator_checks() {
    assert!(is_valid_url("https://example.test/doc.pdf"));
    assert!(!is_valid_url("definitely not a url"));
    assert!(!is_valid_url(""));
}

#[test]
fn base64_rendering() {
    assert_eq!(encode_image_bytes(&vec![]).unwrap(), "");
    assert_eq!(encode_image_bytes(&b"hello".to_vec()).unwrap(), "aGVsbG8=");
    assert_eq!(encode_image_bytes(&vec![0xffu8, 0x00, 0x10]).unwrap(), "/wAQ");
}

#[test]
fn navigator_walks_all_levels() {
    let map = sample_map();
    let nav = HierarchyNavigator::new(&map);
    assert_eq!(nav.get_category("c1").unwrap().tag_name, "小学");
    assert!(nav.get_category("nope").is_none());
    assert_eq!(nav.get_subject("c1", "s1").unwrap().tag_name, "数学");
    assert_eq!(nav.get_version("c1", "s1", "v1").unwrap().tag_name, "人教版");
    assert_eq!(nav.get_grade("c1", "s1", "v1", "g1").unwrap().tag_name, "三年级");
    assert_eq!(nav.get_year("c1", "s1", "v1", "g1", "y1").unwrap().tag_name, "2024");
    assert!(nav.get_subject("c1", "missing").is_none());
}

#[test]
fn parameter_validation_rules() {
    let map = sample_map();
    let v = validate_parameters("c1", "s1", "v1", "g1", &None, &map);
    assert!(v.is_valid && !v.is_special_education && !v.is_high_school);
    // a grade is required for ordinary categories
    let v2 = validate_parameters("c1", "s1", "v1", "", &None, &map);
    assert!(!v2.is_valid);
    // ... but not for high school
    let v3 = validate_parameters("c2", "s1", "v1", "", &None, &map);
    assert!(v3.is_high_school && v3.is_valid);
    // special education also needs a year
    let v4 = validate_parameters("c3", "s1", "v1", "g1", &None, &map);
    assert!(v4.is_special_education && !v4.is_valid);
    let v5 = validate_parameters("c3", "s1", "v1", "g1", &Some("y1".to_string()), &map);
    assert!(v5.is_valid);
    let v6 = validate_parameters("", "s1", "v1", "g1", &None, &map);
    assert!(!v6.is_valid);
}

#[test]
fn tag_names_follow_the_path() {
    let map = sample_map();
    let nav = HierarchyNavigator::new(&map);
    let v = validate_parameters("c1", "s1", "v1", "g1", &None, &map);
    let names = build_tag_names(&nav, "c1", "s1", "v1", "g1", &None, &v);
    assert_eq!(names, vec!["小学", "数学", "人教版", "三年级"]);
    // lookups stop at the first missing level
    let names2 = build_tag_names(&nav, "c1", "bad", "v1", "g1", &None, &v);
    assert_eq!(names2, vec!["小学"]);
    let v3 = validate_parameters("c3", "s1", "v1", "g1", &Some("y1".to_string()), &map);
    assert!(v3.is_special_education);
    let names3 = build_tag_names(&nav, "c1", "s1", "v1", "g1", &Some("y1".to_string()), &v3);
    assert_eq!(names3, vec!["小学", "数学", "人教版", "三年级", "2024"]);
}

#[test]
fn required_sequence_assembly() {
    let map = sample_map();
    let v = validate_parameters("c1", "s1", "v1", "g1", &None, &map);
    assert_eq!(
        build_required_id_sequence("c1", "s1", "v1", "g1", &None, &v),
        vec!["c1", "s1", "v1", "g1"]
    );
    assert_eq!(
        build_required_id_sequence("c1", "s1", "v1", "", &None, &v),
        vec!["c1", "s1", "v1"]
    );
    let vse = validate_parameters("c3", "s1", "v1", "", &Some("y1".to_string()), &map);
    assert!(vse.is_special_education);
    assert_eq!(
        build_required_id_sequence("c3", "s1", "v1", "", &Some("y1".to_string()), &vse),
        vec!["c3", "s1", "v1", "", "y1"]
    );
}

#[test]
fn dropdown_options_flatten_children() {
    let hs = Some(vec![
        TagHierarchy::with_children(vec![child("a", "A"), child("b", "B")]),
        TagHierarchy::new(),
        TagHierarchy::with_children(vec![child("c", "C")]),
    ]);
    let opts = get_dropdown_options_from_hierarchies(&hs);
    let pairs: Vec<(String, String)> =
        opts.iter().map(|o| (o.value.clone(), o.label.clone())).collect();
    assert_eq!(
        pairs,
        vec![
            ("a".to_string(), "A".to_string()),
            ("b".to_string(), "B".to_string()),
            ("c".to_string(), "C".to_string())
        ]
    );
    assert!(get_dropdown_options_from_hierarchies(&None).is_empty());
}

#[test]
fn filter_options_by_depth() {
    let map = sample_map();
    // no category chosen: nothing
    assert!(filter_options_lookup(&FilterOptionsArgs::new(), &map).is_empty());
    // category only: its subjects
    let args = FilterOptionsArgs::new().with_category("c1".to_string());
    let opts = filter_options_lookup(&args, &map);
    assert_eq!(opts.len(), 1);
    assert_eq!(opts[0].label, "数学");
    // subject chosen: its versions
    let args = args.with_subject("s1".to_string());
    let opts = filter_options_lookup(&args, &map);
    assert_eq!(opts[0].label, "人教版");
    // version chosen: its grades
    let args = args.with_version("v1".to_string());
    let opts = filter_options_lookup(&args, &map);
    assert_eq!(opts[0].label, "三年级");
    // grade chosen: its years
    let args = args.with_grade("g1".to_string());
    let opts = filter_options_lookup(&args, &map);
    assert_eq!(opts[0].label, "2024");
}

#[test]
fn categories_listing() {
    let map = sample_map();
    let cats = textbook_categories_from(&map);
    let labels: Vec<String> = cats.iter().map(|o| o.label.clone()).collect();
    assert_eq!(labels, vec!["小学", "高中", "特殊教育"]);
}

fn raw(id: &str, title: &str, paths: &[&str]) -> RawBook {
    RawBook {
        id: id.to_string(),
        title: title.to_string(),
        tag_list: vec![],
        tag_paths: paths.iter().map(|p| p.to_string()).collect(),
        custom_properties: None,
        create_time: None,
        update_time: None,
    }
}

#[test]
fn book_filtering_by_window() {
    let required = vec!["c1".to_string(), "s1".to_string(), "v1".to_string()];
    let books = vec![
        raw("b1", "match", &["root/c1/s1/v1/g1"]),
        raw("b2", "wrong order", &["root/s1/c1/v1"]),
        raw("b3", "second path matches", &["x/y", "c1/s1/v1"]),
        raw("b4", "gap", &["c1/s1/zz/v1"]),
    ];
    let kept = filter_books(&books, &required);
    let ids: Vec<&str> = kept.iter().map(|b| b.id.as_str()).collect();
    assert_eq!(ids, vec!["b1", "b3"]);
}

#[test]
fn statistics_enrichment() {
    let stats = statistics_map_from_records(vec![
        StatRecord { id: "b1".to_string(), total_uv: 7, like_count: 3 },
        StatRecord { id: "b1".to_string(), total_uv: 11, like_count: 5 },
        StatRecord { id: "b9".to_string(), total_uv: 1, like_count: 1 },
    ]);
    assert_eq!(stats.values_for("b1"), (11, 5));
    assert_eq!(stats.values_for("b9"), (1, 1));
    assert_eq!(stats.values_for("absent"), (0, 0));
}

#[test]
fn selection_builds_enriched_textbooks() {
    let required = vec!["c1".to_string(), "s1".to_string()];
    let mut book = raw("b1", "课本", &["c1/s1/v1"]);
    book.custom_properties = Some(textbook_downloader::models::CustomProperties {
        size: None,
        preview: None,
        thumbnails: Some(vec!["thumb.png".to_string()]),
        format: None,
    });
    let books = vec![book, raw("b2", "other", &["zz/yy"])];
    let stats = statistics_map_from_records(vec![StatRecord {
        id: "b1".to_string(),
        total_uv: 42,
        like_count: 9,
    }]);
    let result = select_textbooks(&books, &required, &stats);
    assert_eq!(result.len(), 1);
    let t = &result[0];
    assert_eq!(t.id, "b1");
    assert_eq!(t.title, "课本");
    assert_eq!(t.cover_url, "thumb.png");
    assert_eq!(t.total_uv, 42);
    assert_eq!(t.like_count, 9);
    assert_eq!(
        t.download_url,
        "https://r2-ndr.ykt.cbern.com.cn/edu_product/esp/assets_document/b1.pkg/pdf.pdf"
    );
}

#[test]
fn parsed_catalog_feeds_navigator() {
    // end to end: parse a raw hierarchy, then navigate it
    let subject = child_with("s1", "数学", vec![]);
    let cat = child_with("c1", "小学", vec![TagHierarchy::with_children(vec![subject])]);
    let input = Some(vec![TagHierarchy::with_children(vec![cat])]);
    let map = parse_hierarchies_recursive(&input);
    let nav = HierarchyNavigator::new(&map);
    assert_eq!(nav.get_category("c1").unwrap().tag_name, "小学");
    assert_eq!(nav.get_subject("c1", "s1").unwrap().tag_name, "数学");
}

#[test]
fn split_keeps_empty_trailing_piece() {
    assert_eq!(split_str("a/", '/'), vec!["a", ""]);
    assert_eq!(split_str("/a", '/'), vec!["", "a"]);
}
