use textbook_downloader::models::{
    parse_hierarchies_recursive, CustomProperties, DataVersion, DropdownOption,
    FilterOptionsArgs, FilterOptionsResponse, RawBook, RawTag, TagApiResponse, TagChild,
    TagHierarchy, TagMap, Textbook, TextbookDownloadInfo,
};

fn info(url: &str, title: &str) -> TextbookDownloadInfo {
    TextbookDownloadInfo::new(url.to_string(), title.to_string())
}

#[test]
fn validate_accepts_good_request() {
    let i = info("https://example.test/doc.pdf", "Book A");
    assert!(i.validate().is_ok());
}

#[test]
fn validate_rejects_empty_url() {
    let i = info("", "Book A");
    assert_eq!(i.validate(), Err("下载URL不能为空".to_string()));
}

#[test]
fn validate_rejects_empty_title() {
    let i = info("https://example.test/doc.pdf", "");
    assert_eq!(i.validate(), Err("教科书标题不能为空".to_string()));
}

#[test]
fn validate_rejects_malformed_url() {
    let i = info("not a url", "Book A");
    assert_eq!(i.validate(), Err("无效的URL格式".to_string()));
}

#[test]
fn path_components_empty_without_grouping() {
    let mut i = info("https://example.test/doc.pdf", "Book A");
    i.category_label = Some("数学".to_string());
    assert!(i.get_path_components().is_empty());
}

#[test]
fn path_components_skip_missing_and_empty_labels() {
    let mut i = info("https://example.test/doc.pdf", "Book A");
    i.save_by_category = true;
    i.category_label = Some("数学".to_string());
    i.subject_label = Some("人教版".to_string());
    i.version_label = Some("".to_string());
    i.grade_label = Some("三年级".to_string());
    assert_eq!(
        i.get_path_components(),
        vec!["数学".to_string(), "人教版".to_string(), "三年级".to_string()]
    );
}

#[test]
fn popularity_thresholds() {
    let mut t = Textbook::new("id1".to_string(), "T".to_string(), "u".to_string());
    assert!(!t.is_popular());
    t.total_uv = 1001;
    assert!(t.is_popular());
    t.total_uv = 0;
    t.like_count = 51;
    assert!(t.is_popular());
}

#[test]
fn popularity_score_values() {
    let mut t = Textbook::new("id1".to_string(), "T".to_string(), "u".to_string());
    t.total_uv = 5000;
    t.like_count = 250;
    assert_eq!(t.popularity_score(), 50);
    t.total_uv = 20000;
    t.like_count = 1000;
    assert_eq!(t.popularity_score(), 100);
    t.total_uv = -5;
    t.like_count = 0;
    assert_eq!(t.popularity_score(), 0);
}

#[test]
fn raw_book_validity_and_conversion() {
    let book = RawBook {
        id: "b1".to_string(),
        title: "Title".to_string(),
        tag_list: vec![RawTag::new("t".to_string(), "n".to_string())],
        tag_paths: vec!["a/b".to_string()],
        custom_properties: Some(CustomProperties {
            size: Some(9),
            preview: None,
            thumbnails: Some(vec!["cover.png".to_string()]),
            format: None,
        }),
        create_time: None,
        update_time: None,
    };
    assert!(book.is_valid());
    assert_eq!(book.primary_tag_path(), Some(&"a/b".to_string()));
    let cp = book.custom_properties.as_ref().unwrap();
    assert_eq!(cp.get_file_size(), Some(9));
    assert_eq!(cp.first_thumbnail(), Some(&"cover.png".to_string()));
    let tb = book.to_textbook("dl".to_string());
    assert_eq!(tb.id, "b1");
    assert_eq!(tb.cover_url, "cover.png");
    assert_eq!(tb.total_uv, 0);
    let empty = RawBook {
        id: "".to_string(),
        title: "x".to_string(),
        tag_list: vec![],
        tag_paths: vec![],
        custom_properties: None,
        create_time: None,
        update_time: None,
    };
    assert!(!empty.is_valid());
    assert_eq!(empty.primary_tag_path(), None);
}

#[test]
fn filter_args_builders() {
    let args = FilterOptionsArgs::new()
        .with_category("c".to_string())
        .with_subject("s".to_string())
        .with_version("v".to_string())
        .with_grade("g".to_string());
    assert_eq!(args.category_id, Some("c".to_string()));
    assert_eq!(args.subject_id, Some("s".to_string()));
    assert_eq!(args.version_id, Some("v".to_string()));
    assert_eq!(args.grade_id, Some("g".to_string()));
    let empty = FilterOptionsResponse::empty();
    assert!(empty.subjects.is_empty() && empty.versions.is_empty() && empty.grades.is_empty());
    let o = DropdownOption::new("v1".to_string(), "l1".to_string());
    assert_eq!(o.value, "v1");
    assert_eq!(o.label, "l1");
    assert!(TagApiResponse::empty().hierarchies.is_empty());
}

#[test]
fn data_version_urls_and_ordering() {
    let dv = DataVersion::new("m".to_string(), 3, "a,b,c".to_string());
    assert_eq!(dv.get_urls(), vec!["a".to_string(), "b".to_string(), "c".to_string()]);
    let older = DataVersion::new("m".to_string(), 2, "a".to_string());
    assert!(dv.is_newer_than(&older));
    assert!(!older.is_newer_than(&dv));
    let other = DataVersion::new("x".to_string(), 9, "a".to_string());
    assert!(!other.is_newer_than(&dv));
}

#[test]
fn tag_children_counting() {
    let child = |id: &str| TagChild::new(id.to_string(), format!("name-{id}"));
    let mut c = child("root");
    assert!(!c.has_children());
    assert_eq!(c.children_count(), 0);
    c.hierarchies = Some(vec![
        TagHierarchy::with_children(vec![child("a"), child("b")]),
        TagHierarchy::new(),
        TagHierarchy::with_children(vec![child("c")]),
    ]);
    assert!(c.has_children());
    assert_eq!(c.children_count(), 3);
    assert!(TagHierarchy::default().is_empty());
    assert!(!TagHierarchy::with_children(vec![child("z")]).is_empty());
}

#[test]
fn tag_map_insert_and_overwrite() {
    let mut m = TagMap::new();
    assert_eq!(m.len(), 0);
    m.insert("a".to_string(), TagChild::new("a".to_string(), "first".to_string()));
    m.insert("b".to_string(), TagChild::new("b".to_string(), "second".to_string()));
    m.insert("a".to_string(), TagChild::new("a".to_string(), "replaced".to_string()));
    assert_eq!(m.len(), 2);
    assert_eq!(m.get("a").unwrap().tag_name, "replaced");
    assert_eq!(m.get("b").unwrap().tag_name, "second");
    assert!(m.get("c").is_none());
}

#[test]
fn parse_hierarchies_flattens_one_level() {
    let child = |id: &str, name: &str| TagChild::new(id.to_string(), name.to_string());
    let input = Some(vec![TagHierarchy::with_children(vec![
        child("c1", "数学"),
        child("c2", "语文"),
    ])]);
    let map = parse_hierarchies_recursive(&input);
    assert_eq!(map.len(), 2);
    let c1 = map.get("c1").unwrap();
    assert_eq!(c1.tag_name, "数学");
    assert!(c1.hierarchies.is_none());
}

#[test]
fn parse_hierarchies_nests_and_deduplicates() {
    let mut inner = TagChild::new("sub1".to_string(), "科目".to_string());
    inner.hierarchies = None;
    let mut outer = TagChild::new("cat1".to_string(), "老名".to_string());
    outer.hierarchies = Some(vec![TagHierarchy::with_children(vec![inner])]);
    let replacement = TagChild::new("cat1".to_string(), "新名".to_string());
    let input = Some(vec![TagHierarchy::with_children(vec![outer]), TagHierarchy::with_children(
        vec![replacement],
    )]);
    let map = parse_hierarchies_recursive(&input);
    // the later child with the same identifier replaced the earlier one
    assert_eq!(map.len(), 1);
    let got = map.get("cat1").unwrap();
    assert_eq!(got.tag_name, "新名");
    assert!(got.hierarchies.is_none());

    // nested children are rebuilt as one single-child hierarchy per entry
    let mut outer2 = TagChild::new("cat2".to_string(), "类".to_string());
    let sub = TagChild::new("sub2".to_string(), "下级".to_string());
    outer2.hierarchies = Some(vec![TagHierarchy::with_children(vec![sub])]);
    let input2 = Some(vec![TagHierarchy::with_children(vec![outer2])]);
    let map2 = parse_hierarchies_recursive(&input2);
    let got2 = map2.get("cat2").unwrap();
    let hs = got2.hierarchies.as_ref().unwrap();
    assert_eq!(hs.len(), 1);
    let kids = hs[0].children.as_ref().unwrap();
    assert_eq!(kids.len(), 1);
    assert_eq!(kids[0].tag_id, "sub2");
    assert_eq!(kids[0].tag_name, "下级");
    assert!(kids[0].hierarchies.is_none());
}

#[test]
fn parse_hierarchies_empty_input() {
    assert_eq!(parse_hierarchies_recursive(&None).len(), 0);
    assert_eq!(parse_hierarchies_recursive(&Some(vec![])).len(), 0);
    assert_eq!(parse_hierarchies_recursive(&Some(vec![TagHierarchy::new()])).len(), 0);
}
