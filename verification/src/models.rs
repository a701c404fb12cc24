//! Data model of the catalog and of download requests: textbooks, tags, the
//! tag hierarchy, filter arguments, and data-version records.
use vstd::prelude::*;
use vstd::string::StringExecFns;
use vstd::string::StrSliceExecFns;
use crate::locator::url_parse_ok;
use crate::strutil::{seq_views, split_spec, split_str};

verus! {

/// Everything needed to download one textbook: where it lives, what to call
/// the file, and the catalog labels that may group it into subdirectories.
#[derive(Clone, Debug)]
pub struct TextbookDownloadInfo {
    pub url: String,
    pub title: String,
    pub category_label: Option<String>,
    pub subject_label: Option<String>,
    pub version_label: Option<String>,
    pub grade_label: Option<String>,
    pub year_label: Option<String>,
    pub save_by_category: bool,
}

/// The labels among `ls`, in order, that are present and non-empty.
pub open spec fn present_labels(ls: Seq<Option<String>>) -> Seq<Seq<char>>
    decreases ls.len(),
{
    if ls.len() == 0 {
        Seq::empty()
    } else {
        (match ls[0] {
            Some(l) => if l@.len() > 0 {
                seq![l@]
            } else {
                Seq::<Seq<char>>::empty()
            },
            None => Seq::<Seq<char>>::empty(),
        }) + present_labels(ls.drop_first())
    }
}

impl TextbookDownloadInfo {
    /// The five grouping labels in their fixed order: category, subject,
    /// version, grade, year.
    pub open spec fn labels_spec(&self) -> Seq<Option<String>> {
        seq![
            self.category_label,
            self.subject_label,
            self.version_label,
            self.grade_label,
            self.year_label,
        ]
    }

    /// The subdirectory components this request asks for: nothing unless
    /// grouping is on, else its present, non-empty labels in order.
    pub open spec fn path_components_spec(&self) -> Seq<Seq<char>> {
        if !self.save_by_category {
            Seq::empty()
        } else {
            present_labels(self.labels_spec())
        }
    }

    pub fn new(url: String, title: String) -> (r: Self)
        ensures
            r.url == url,
            r.title == title,
            r.category_label is None,
            r.subject_label is None,
            r.version_label is None,
            r.grade_label is None,
            r.year_label is None,
            !r.save_by_category,
    {
        TextbookDownloadInfo {
            url,
            title,
            category_label: None,
            subject_label: None,
            version_label: None,
            grade_label: None,
            year_label: None,
            save_by_category: false,
        }
    }

    /// A request is valid when its URL is a non-empty, syntactically valid
    /// absolute URL and its title is non-empty; each violation is reported
    /// with its own message, first violation first.
    pub fn validate(&self) -> (r: Result<(), String>)
        ensures
            r is Ok <==> self.url@.len() > 0 && self.title@.len() > 0 && url_parse_ok(self.url@),
            self.url@.len() == 0 ==> (r matches Err(m) && m@ == "下载URL不能为空"@),
            self.url@.len() > 0 && self.title@.len() == 0 ==> (r matches Err(m) && m@
                == "教科书标题不能为空"@),
            self.url@.len() > 0 && self.title@.len() > 0 && !url_parse_ok(self.url@) ==> (r matches Err(
            m) && m@ == "无效的URL格式"@),
    {
        if self.url.as_str().is_empty() {
            return Err(String::from_str("下载URL不能为空"));
        }
        if self.title.as_str().is_empty() {
            return Err(String::from_str("教科书标题不能为空"));
        }
        if !crate::locator::is_valid_url(self.url.as_str()) {
            return Err(String::from_str("无效的URL格式"));
        }
        Ok(())
    }

    /// The subdirectory components this request asks for.
    pub fn get_path_components(&self) -> (r: Vec<String>)
        ensures
            seq_views(r@) == self.path_components_spec(),
    {
        let mut r: Vec<String> = Vec::new();
        if !self.save_by_category {
            proof {
                assert(seq_views(r@) =~= Seq::<Seq<char>>::empty());
            }
            return r;
        }
        if let Some(l) = &self.category_label {
            if !l.as_str().is_empty() {
                r.push(l.clone());
            }
        }
        if let Some(l) = &self.subject_label {
            if !l.as_str().is_empty() {
                r.push(l.clone());
            }
        }
        if let Some(l) = &self.version_label {
            if !l.as_str().is_empty() {
                r.push(l.clone());
            }
        }
        if let Some(l) = &self.grade_label {
            if !l.as_str().is_empty() {
                r.push(l.clone());
            }
        }
        if let Some(l) = &self.year_label {
            if !l.as_str().is_empty() {
                r.push(l.clone());
            }
        }
        proof {
            reveal_with_fuel(present_labels, 6);
            assert(self.labels_spec().drop_first() =~= seq![
                self.subject_label,
                self.version_label,
                self.grade_label,
                self.year_label,
            ]);
            assert(self.labels_spec().drop_first().drop_first() =~= seq![
                self.version_label,
                self.grade_label,
                self.year_label,
            ]);
            assert(self.labels_spec().drop_first().drop_first().drop_first() =~= seq![
                self.grade_label,
                self.year_label,
            ]);
            assert(self.labels_spec().drop_first().drop_first().drop_first().drop_first() =~= seq![
                self.year_label,
            ]);
            let tail5 = self.labels_spec().drop_first().drop_first().drop_first().drop_first().drop_first();
            assert(tail5 =~= Seq::<Option<String>>::empty());
            assert(seq_views(r@) =~= self.path_components_spec());
        }
        r
    }
}

/// One downloadable textbook as shown in the catalog list.
#[derive(Clone, Debug, PartialEq)]
pub struct Textbook {
    pub id: String,
    pub cover_url: String,
    pub title: String,
    pub total_uv: i64,
    pub like_count: i64,
    pub download_url: String,
}

impl Textbook {
    pub fn new(id: String, title: String, download_url: String) -> (r: Self)
        ensures
            r.id == id,
            r.cover_url@ == Seq::<char>::empty(),
            r.title == title,
            r.total_uv == 0,
            r.like_count == 0,
            r.download_url == download_url,
    {
        Textbook { id, cover_url: String::new(), title, total_uv: 0, like_count: 0, download_url }
    }

    /// A book is popular once it passes either engagement threshold.
    pub fn is_popular(&self) -> (r: bool)
        ensures
            r == (self.total_uv > 1000 || self.like_count > 50),
    {
        self.total_uv > 1000 || self.like_count > 50
    }

    /// Views below zero or the cap contribute proportionally up to 70 points;
    /// likes up to 30; the total is capped at 100.
    pub open spec fn popularity_score_spec(&self) -> int {
        let uv = if self.total_uv > 10000 {
            10000int
        } else {
            self.total_uv as int
        };
        let lc = if self.like_count > 500 {
            500int
        } else {
            self.like_count as int
        };
        let uv_score = if uv <= 0 {
            0int
        } else {
            uv * 70 / 10000
        };
        let like_score = if lc <= 0 {
            0int
        } else {
            lc * 30 / 500
        };
        if uv_score + like_score > 100 {
            100int
        } else {
            uv_score + like_score
        }
    }

    /// Popularity on a 0-100 scale.
    pub fn popularity_score(&self) -> (r: u8)
        ensures
            r == self.popularity_score_spec(),
    {
        let uv: i64 = if self.total_uv > 10000 {
            10000
        } else {
            self.total_uv
        };
        let lc: i64 = if self.like_count > 500 {
            500
        } else {
            self.like_count
        };
        let uv_score: i64 = if uv <= 0 {
            0
        } else {
            uv * 70 / 10000
        };
        let like_score: i64 = if lc <= 0 {
            0
        } else {
            lc * 30 / 500
        };
        let sum = uv_score + like_score;
        if sum > 100 {
            100
        } else {
            sum as u8
        }
    }
}

/// A raw catalog tag: an identifier and its display name.
#[derive(Clone, Debug, PartialEq)]
pub struct RawTag {
    pub tag_id: String,
    pub tag_name: String,
}

impl RawTag {
    pub fn new(tag_id: String, tag_name: String) -> (r: Self)
        ensures
            r.tag_id == tag_id,
            r.tag_name == tag_name,
    {
        RawTag { tag_id, tag_name }
    }
}

/// Extra attributes a raw catalog record may carry, reduced to the values the
/// library reads: the announced file size and the thumbnail URLs.
#[derive(Clone, Debug, PartialEq)]
pub struct CustomProperties {
    pub size: Option<u64>,
    pub preview: Option<String>,
    pub thumbnails: Option<Vec<String>>,
    pub format: Option<String>,
}

impl CustomProperties {
    pub fn first_thumbnail(&self) -> (r: Option<&String>)
        ensures
            match r {
                Some(t) => {
                    &&& self.thumbnails is Some
                    &&& self.thumbnails->0@.len() > 0
                    &&& *t == self.thumbnails->0@[0]
                },
                None => self.thumbnails is None || self.thumbnails->0@.len() == 0,
            },
    {
        match &self.thumbnails {
            Some(ts) => if ts.len() > 0 {
                Some(&ts[0])
            } else {
                None
            },
            None => None,
        }
    }

    pub fn get_file_size(&self) -> (r: Option<u64>)
        ensures
            r == self.size,
    {
        self.size
    }
}

/// One record of the raw catalog file.
#[derive(Clone, Debug, PartialEq)]
pub struct RawBook {
    pub id: String,
    pub title: String,
    pub tag_list: Vec<RawTag>,
    pub tag_paths: Vec<String>,
    pub custom_properties: Option<CustomProperties>,
    pub create_time: Option<String>,
    pub update_time: Option<String>,
}

impl RawBook {
    /// The thumbnail a record contributes as cover URL: its first, if any.
    pub open spec fn cover_url_spec(&self) -> Seq<char> {
        match self.custom_properties {
            Some(cp) => match cp.thumbnails {
                Some(ts) => if ts@.len() > 0 {
                    ts@[0]@
                } else {
                    Seq::empty()
                },
                None => Seq::empty(),
            },
            None => Seq::empty(),
        }
    }

    pub fn is_valid(&self) -> (r: bool)
        ensures
            r == (self.id@.len() > 0 && self.title@.len() > 0),
    {
        !self.id.as_str().is_empty() && !self.title.as_str().is_empty()
    }

    pub fn primary_tag_path(&self) -> (r: Option<&String>)
        ensures
            match r {
                Some(p) => self.tag_paths@.len() > 0 && *p == self.tag_paths@[0],
                None => self.tag_paths@.len() == 0,
            },
    {
        if self.tag_paths.len() > 0 {
            Some(&self.tag_paths[0])
        } else {
            None
        }
    }

    /// The catalog entry for this record, with no statistics yet.
    pub fn to_textbook(&self, download_url: String) -> (r: Textbook)
        ensures
            r.id == self.id,
            r.cover_url@ == self.cover_url_spec(),
            r.title == self.title,
            r.total_uv == 0,
            r.like_count == 0,
            r.download_url == download_url,
    {
        let cover_url = match &self.custom_properties {
            Some(cp) => match cp.first_thumbnail() {
                Some(t) => t.clone(),
                None => String::new(),
            },
            None => String::new(),
        };
        Textbook {
            id: self.id.clone(),
            cover_url,
            title: self.title.clone(),
            total_uv: 0,
            like_count: 0,
            download_url,
        }
    }
}

/// The identifiers a user has picked so far in the filter dropdowns.
#[derive(Clone, Debug)]
pub struct FilterOptionsArgs {
    pub category_id: Option<String>,
    pub subject_id: Option<String>,
    pub version_id: Option<String>,
    pub grade_id: Option<String>,
}

impl FilterOptionsArgs {
    pub fn new() -> (r: Self)
        ensures
            r.category_id is None,
            r.subject_id is None,
            r.version_id is None,
            r.grade_id is None,
    {
        FilterOptionsArgs { category_id: None, subject_id: None, version_id: None, grade_id: None }
    }

    pub fn with_category(self, category_id: String) -> (r: Self)
        ensures
            r == (FilterOptionsArgs { category_id: Some(category_id), ..self }),
    {
        FilterOptionsArgs { category_id: Some(category_id), ..self }
    }

    pub fn with_subject(self, subject_id: String) -> (r: Self)
        ensures
            r == (FilterOptionsArgs { subject_id: Some(subject_id), ..self }),
    {
        FilterOptionsArgs { subject_id: Some(subject_id), ..self }
    }

    pub fn with_version(self, version_id: String) -> (r: Self)
        ensures
            r == (FilterOptionsArgs { version_id: Some(version_id), ..self }),
    {
        FilterOptionsArgs { version_id: Some(version_id), ..self }
    }

    pub fn with_grade(self, grade_id: String) -> (r: Self)
        ensures
            r == (FilterOptionsArgs { grade_id: Some(grade_id), ..self }),
    {
        FilterOptionsArgs { grade_id: Some(grade_id), ..self }
    }
}

/// One entry of a filter dropdown: the tag identifier and its display name.
#[derive(Clone, Debug, PartialEq)]
pub struct DropdownOption {
    pub value: String,
    pub label: String,
}

impl DropdownOption {
    pub fn new(value: String, label: String) -> (r: Self)
        ensures
            r.value == value,
            r.label == label,
    {
        DropdownOption { value, label }
    }
}

/// The dropdown contents for the three dependent filters.
#[derive(Clone, Debug)]
pub struct FilterOptionsResponse {
    pub subjects: Vec<DropdownOption>,
    pub versions: Vec<DropdownOption>,
    pub grades: Vec<DropdownOption>,
}

impl FilterOptionsResponse {
    pub fn empty() -> (r: Self)
        ensures
            r.subjects@.len() == 0,
            r.versions@.len() == 0,
            r.grades@.len() == 0,
    {
        FilterOptionsResponse { subjects: Vec::new(), versions: Vec::new(), grades: Vec::new() }
    }
}

/// A node of the tag tree: a tag and, optionally, the hierarchies below it.
#[derive(Debug)]
pub struct TagChild {
    pub tag_id: String,
    pub tag_name: String,
    pub hierarchies: Option<Vec<TagHierarchy>>,
}

/// One level of the tag tree: an optional list of child tags.
#[derive(Debug)]
pub struct TagHierarchy {
    pub children: Option<Vec<TagChild>>,
}

impl TagChild {
    pub fn new(tag_id: String, tag_name: String) -> (r: Self)
        ensures
            r.tag_id == tag_id,
            r.tag_name == tag_name,
            r.hierarchies is None,
    {
        TagChild { tag_id, tag_name, hierarchies: None }
    }

    /// Whether any hierarchy hangs below this tag.
    pub fn has_children(&self) -> (r: bool)
        ensures
            r == (self.hierarchies is Some && self.hierarchies->0@.len() > 0),
    {
        match &self.hierarchies {
            Some(h) => h.len() > 0,
            None => false,
        }
    }

    /// Total children across the hierarchies below this tag.
    pub open spec fn children_count_spec(hs: Seq<TagHierarchy>) -> int
        decreases hs.len(),
    {
        if hs.len() == 0 {
            0
        } else {
            (match hs[0].children {
                Some(c) => c@.len() as int,
                None => 0int,
            }) + Self::children_count_spec(hs.drop_first())
        }
    }

    pub fn children_count(&self) -> (r: usize)
        ensures
            match self.hierarchies {
                Some(hs) => r == Self::children_count_spec(hs@) || r == usize::MAX,
                None => r == 0,
            },
    {
        match &self.hierarchies {
            Some(hs) => {
                let mut sum: usize = 0;
                let mut i: usize = 0;
                let n = hs.len();
                while i < n
                    invariant
                        n == hs@.len(),
                        i <= n,
                        sum == Self::children_count_spec(hs@.take(i as int)) || sum == usize::MAX,
                    decreases n - i,
                {
                    let add = match &hs[i].children {
                        Some(c) => c.len(),
                        None => 0,
                    };
                    proof {
                        Self::lemma_children_count_take(hs@, i as int);
                    }
                    if sum <= usize::MAX - add {
                        sum = sum + add;
                    } else {
                        sum = usize::MAX;
                    }
                    i = i + 1;
                }
                proof {
                    assert(hs@.take(n as int) =~= hs@);
                }
                sum
            },
            None => 0,
        }
    }

    /// Unrolling `children_count_spec` one element at the back.
    proof fn lemma_children_count_take(hs: Seq<TagHierarchy>, i: int)
        requires
            0 <= i < hs.len(),
        ensures
            Self::children_count_spec(hs.take(i + 1)) == Self::children_count_spec(hs.take(i)) + (
            match hs[i].children {
                Some(c) => c@.len() as int,
                None => 0int,
            }),
        decreases i,
    {
        let a = hs.take(i + 1);
        assert(a[0] == hs[0]);
        if i == 0 {
            assert(a.drop_first() =~= Seq::<TagHierarchy>::empty());
            assert(a.drop_first().len() == 0);
            assert(Self::children_count_spec(a.drop_first()) == 0);
            assert(hs.take(0).len() == 0);
        } else {
            Self::lemma_children_count_take(hs.drop_first(), i - 1);
            assert(hs.drop_first()[i - 1] == hs[i]);
            assert(a.drop_first() =~= hs.drop_first().take(i));
            assert(hs.take(i).drop_first() =~= hs.drop_first().take(i - 1));
        }
    }

    /// Counts never go negative.
    proof fn lemma_children_count_nonneg(hs: Seq<TagHierarchy>)
        ensures
            Self::children_count_spec(hs) >= 0,
        decreases hs.len(),
    {
        if hs.len() > 0 {
            Self::lemma_children_count_nonneg(hs.drop_first());
        }
    }
}

impl TagHierarchy {
    pub fn new() -> (r: Self)
        ensures
            r.children is None,
    {
        TagHierarchy { children: None }
    }

    pub fn with_children(children: Vec<TagChild>) -> (r: Self)
        ensures
            r.children == Some(children),
    {
        TagHierarchy { children: Some(children) }
    }

    /// Whether this level carries no children at all.
    pub fn is_empty(&self) -> (r: bool)
        ensures
            r == (self.children is None || self.children->0@.len() == 0),
    {
        match &self.children {
            Some(c) => c.len() == 0,
            None => true,
        }
    }
}

impl Default for TagHierarchy {
    fn default() -> (r: Self)
        ensures
            r.children is None,
    {
        TagHierarchy::new()
    }
}

/// The top-level shape of the tag catalog file.
#[derive(Debug)]
pub struct TagApiResponse {
    pub hierarchies: Vec<TagHierarchy>,
}

impl TagApiResponse {
    pub fn empty() -> (r: Self)
        ensures
            r.hierarchies@.len() == 0,
    {
        TagApiResponse { hierarchies: Vec::new() }
    }
}

/// A versioned pointer to the raw catalog files.
#[derive(Clone, Debug, PartialEq)]
pub struct DataVersion {
    pub module: String,
    pub module_version: u64,
    pub urls: String,
}

impl DataVersion {
    pub fn new(module: String, module_version: u64, urls: String) -> (r: Self)
        ensures
            r.module == module,
            r.module_version == module_version,
            r.urls == urls,
    {
        DataVersion { module, module_version, urls }
    }

    /// Newer means: same module, strictly higher version.
    pub fn is_newer_than(&self, other: &DataVersion) -> (r: bool)
        ensures
            r == (self.module@ == other.module@ && self.module_version > other.module_version),
    {
        self.module == other.module && self.module_version > other.module_version
    }

    /// The comma-separated list in `urls`, split apart.
    pub fn get_urls(&self) -> (r: Vec<String>)
        ensures
            seq_views(r@) == split_spec(self.urls@, ','),
    {
        split_str(self.urls.as_str(), ',')
    }
}

} // verus!

verus! {

/// First value stored under key `k`, if any.
pub open spec fn tag_map_get_spec(entries: Seq<(String, TagChild)>, k: Seq<char>) -> Option<
    TagChild,
>
    decreases entries.len(),
{
    if entries.len() == 0 {
        None
    } else if entries[0].0@ == k {
        Some(entries[0].1)
    } else {
        tag_map_get_spec(entries.drop_first(), k)
    }
}

/// The entry list after storing `v` under `k`: the first slot whose key
/// matches is replaced in place, else the pair goes to the back.
pub open spec fn tag_map_insert_spec(
    entries: Seq<(String, TagChild)>,
    k: String,
    v: TagChild,
) -> Seq<(String, TagChild)>
    decreases entries.len(),
{
    if entries.len() == 0 {
        seq![(k, v)]
    } else if entries[0].0@ == k@ {
        seq![(k, v)] + entries.drop_first()
    } else {
        seq![entries[0]] + tag_map_insert_spec(entries.drop_first(), k, v)
    }
}

/// An insertion-ordered map from tag identifiers to tag subtrees, with at
/// most one entry per key.
#[derive(Debug)]
pub struct TagMap {
    pub entries: Vec<(String, TagChild)>,
}

impl TagMap {
    /// Keys are unique.
    pub open spec fn wf(&self) -> bool {
        forall|i: int, j: int|
            0 <= i < self.entries@.len() && 0 <= j < self.entries@.len() && (
            #[trigger] self.entries@[i]).0@ == (#[trigger] self.entries@[j]).0@ ==> i == j
    }

    /// Every entry's key is its value's tag identifier.
    pub open spec fn keys_match(&self) -> bool {
        forall|i: int|
            0 <= i < self.entries@.len() ==> (#[trigger] self.entries@[i]).0
                == self.entries@[i].1.tag_id
    }

    pub fn new() -> (r: Self)
        ensures
            r.wf(),
            r.keys_match(),
            r.entries@.len() == 0,
    {
        TagMap { entries: Vec::new() }
    }

    pub fn len(&self) -> (r: usize)
        ensures
            r == self.entries@.len(),
    {
        self.entries.len()
    }

    /// Index of the slot whose key is `k`, if any.
    fn position(&self, k: &str) -> (r: Option<usize>)
        ensures
            match r {
                Some(i) => i < self.entries@.len() && self.entries@[i as int].0@ == k@ && (forall|
                    j: int,
                |
                    0 <= j < i ==> (#[trigger] self.entries@[j]).0@ != k@),
                None => forall|j: int|
                    0 <= j < self.entries@.len() ==> (#[trigger] self.entries@[j]).0@ != k@,
            },
    {
        let n = self.entries.len();
        let mut i: usize = 0;
        while i < n
            invariant
                n == self.entries@.len(),
                i <= n,
                forall|j: int| 0 <= j < i ==> (#[trigger] self.entries@[j]).0@ != k@,
            decreases n - i,
        {
            if crate::strutil::str_eq(self.entries[i].0.as_str(), k) {
                return Some(i);
            }
            i = i + 1;
        }
        None
    }

    /// First match determines the lookup.
    proof fn lemma_get_at(entries: Seq<(String, TagChild)>, k: Seq<char>, i: int)
        requires
            0 <= i < entries.len(),
            entries[i].0@ == k,
            forall|j: int| 0 <= j < i ==> (#[trigger] entries[j]).0@ != k,
        ensures
            tag_map_get_spec(entries, k) == Some(entries[i].1),
        decreases i,
    {
        if i > 0 {
            Self::lemma_get_at(entries.drop_first(), k, i - 1);
        }
    }

    /// Absence of the key determines the lookup.
    proof fn lemma_get_none(entries: Seq<(String, TagChild)>, k: Seq<char>)
        requires
            forall|j: int| 0 <= j < entries.len() ==> (#[trigger] entries[j]).0@ != k,
        ensures
            tag_map_get_spec(entries, k) is None,
        decreases entries.len(),
    {
        if entries.len() > 0 {
            Self::lemma_get_none(entries.drop_first(), k);
        }
    }

    /// The subtree stored under `k`, if any.
    pub fn get(&self, k: &str) -> (r: Option<&TagChild>)
        ensures
            match r {
                Some(c) => tag_map_get_spec(self.entries@, k@) == Some(*c),
                None => tag_map_get_spec(self.entries@, k@) is None,
            },
    {
        match self.position(k) {
            Some(i) => {
                proof {
                    Self::lemma_get_at(self.entries@, k@, i as int);
                }
                Some(&self.entries[i].1)
            },
            None => {
                proof {
                    Self::lemma_get_none(self.entries@, k@);
                }
                None
            },
        }
    }

    /// Replacement at the first matching slot realizes the insert.
    proof fn lemma_insert_at(entries: Seq<(String, TagChild)>, k: String, v: TagChild, i: int)
        requires
            0 <= i < entries.len(),
            entries[i].0@ == k@,
            forall|j: int| 0 <= j < i ==> (#[trigger] entries[j]).0@ != k@,
        ensures
            tag_map_insert_spec(entries, k, v) =~= entries.update(i, (k, v)),
        decreases i,
    {
        if i == 0 {
            assert(seq![(k, v)] + entries.drop_first() =~= entries.update(0, (k, v)));
        } else {
            Self::lemma_insert_at(entries.drop_first(), k, v, i - 1);
            assert(entries.update(i, (k, v)).drop_first() =~= entries.drop_first().update(
                i - 1,
                (k, v),
            ));
            assert(seq![entries[0]] + tag_map_insert_spec(entries.drop_first(), k, v)
                =~= entries.update(i, (k, v)));
        }
    }

    /// Appending realizes the insert when the key is absent.
    proof fn lemma_insert_none(entries: Seq<(String, TagChild)>, k: String, v: TagChild)
        requires
            forall|j: int| 0 <= j < entries.len() ==> (#[trigger] entries[j]).0@ != k@,
        ensures
            tag_map_insert_spec(entries, k, v) =~= entries.push((k, v)),
        decreases entries.len(),
    {
        if entries.len() == 0 {
            assert(seq![(k, v)] =~= entries.push((k, v)));
        } else {
            Self::lemma_insert_none(entries.drop_first(), k, v);
            assert(seq![entries[0]] + tag_map_insert_spec(entries.drop_first(), k, v)
                =~= entries.push((k, v)));
        }
    }

    /// Store `v` under `k`, replacing any earlier entry for `k` in place.
    pub fn insert(&mut self, k: String, v: TagChild)
        requires
            old(self).wf(),
        ensures
            final(self).wf(),
            final(self).entries@ == tag_map_insert_spec(old(self).entries@, k, v),
            old(self).keys_match() && k == v.tag_id ==> final(self).keys_match(),
    {
        let pos = self.position(k.as_str());
        match pos {
            Some(i) => {
                proof {
                    Self::lemma_insert_at(self.entries@, k, v, i as int);
                }
                self.entries[i] = (k, v);
                proof {
                    assert forall|a: int, b: int|
                        0 <= a < self.entries@.len() && 0 <= b < self.entries@.len() && (
                        #[trigger] self.entries@[a]).0@ == (
                        #[trigger] self.entries@[b]).0@ implies a == b by {
                        assert(old(self).entries@[a].0@ == self.entries@[a].0@);
                        assert(old(self).entries@[b].0@ == self.entries@[b].0@);
                    }
                }
            },
            None => {
                proof {
                    Self::lemma_insert_none(self.entries@, k, v);
                }
                self.entries.push((k, v));
                proof {
                    let n = old(self).entries@.len() as int;
                    assert forall|a: int, b: int|
                        0 <= a < self.entries@.len() && 0 <= b < self.entries@.len() && (
                        #[trigger] self.entries@[a]).0@ == (
                        #[trigger] self.entries@[b]).0@ implies a == b by {
                        if a < n && b < n {
                            assert(old(self).entries@[a].0@ == old(self).entries@[b].0@);
                        }
                    }
                }
            },
        }
    }
}

} // verus!


verus! {

/// Mathematical shadow of a tag-tree node.
pub struct SpecTagChild {
    pub tag_id: Seq<char>,
    pub tag_name: Seq<char>,
    pub hierarchies: Option<Seq<SpecTagHierarchy>>,
}

/// Mathematical shadow of one tag-tree level.
pub struct SpecTagHierarchy {
    pub children: Option<Seq<SpecTagChild>>,
}

/// The shadow of a node.
pub open spec fn view_of_child(c: TagChild) -> SpecTagChild
    decreases c,
{
    SpecTagChild {
        tag_id: c.tag_id@,
        tag_name: c.tag_name@,
        hierarchies: match c.hierarchies {
            Some(v) => Some(view_of_hierarchies(v@)),
            None => None,
        },
    }
}

/// The shadows of the nodes of `cs`, in order.
pub open spec fn view_of_children(cs: Seq<TagChild>) -> Seq<SpecTagChild>
    decreases cs,
{
    if cs.len() == 0 {
        Seq::empty()
    } else {
        seq![view_of_child(cs[0])] + view_of_children(cs.drop_first())
    }
}

/// The shadow of one level.
pub open spec fn view_of_hierarchy(h: TagHierarchy) -> SpecTagHierarchy
    decreases h,
{
    SpecTagHierarchy {
        children: match h.children {
            Some(v) => Some(view_of_children(v@)),
            None => None,
        },
    }
}

/// The shadows of the levels of `hs`, in order.
pub open spec fn view_of_hierarchies(hs: Seq<TagHierarchy>) -> Seq<SpecTagHierarchy>
    decreases hs,
{
    if hs.len() == 0 {
        Seq::empty()
    } else {
        seq![view_of_hierarchy(hs[0])] + view_of_hierarchies(hs.drop_first())
    }
}

/// The shadow of an optional hierarchy list.
pub open spec fn view_of_ohs(oh: Option<Vec<TagHierarchy>>) -> Option<Seq<SpecTagHierarchy>> {
    match oh {
        Some(v) => Some(view_of_hierarchies(v@)),
        None => None,
    }
}

/// The shadow of a tag map's entry list.
pub open spec fn entries_view(entries: Seq<(String, TagChild)>) -> Seq<(Seq<char>, SpecTagChild)> {
    entries.map_values(|e: (String, TagChild)| (e.0@, view_of_child(e.1)))
}

/// Insert into a shadow entry list: replace the first slot with the same key
/// in place, else append.
pub open spec fn spec_entries_insert(
    m: Seq<(Seq<char>, SpecTagChild)>,
    k: Seq<char>,
    v: SpecTagChild,
) -> Seq<(Seq<char>, SpecTagChild)>
    decreases m.len(),
{
    if m.len() == 0 {
        seq![(k, v)]
    } else if m[0].0 == k {
        seq![(k, v)] + m.drop_first()
    } else {
        seq![m[0]] + spec_entries_insert(m.drop_first(), k, v)
    }
}

/// What parsing an optional hierarchy list yields.
pub open spec fn parse_spec(oh: Option<Seq<SpecTagHierarchy>>) -> Seq<(Seq<char>, SpecTagChild)>
    decreases oh,
{
    match oh {
        None => Seq::empty(),
        Some(hs) => parse_hiers_spec(hs, Seq::empty()),
    }
}

/// Folding every level of `hs` onto the accumulated entries.
pub open spec fn parse_hiers_spec(
    hs: Seq<SpecTagHierarchy>,
    acc: Seq<(Seq<char>, SpecTagChild)>,
) -> Seq<(Seq<char>, SpecTagChild)>
    decreases hs,
{
    if hs.len() == 0 {
        acc
    } else {
        match hs[0].children {
            None => parse_hiers_spec(hs.drop_first(), acc),
            Some(cs) => parse_hiers_spec(hs.drop_first(), parse_children_spec(cs, acc)),
        }
    }
}

/// Folding the children `cs` onto the accumulated entries, one parsed entry
/// per child, later children replacing earlier ones with the same identifier.
pub open spec fn parse_children_spec(
    cs: Seq<SpecTagChild>,
    acc: Seq<(Seq<char>, SpecTagChild)>,
) -> Seq<(Seq<char>, SpecTagChild)>
    decreases cs,
{
    if cs.len() == 0 {
        acc
    } else {
        parse_children_spec(
            cs.drop_first(),
            spec_entries_insert(acc, cs[0].tag_id, parse_entry_spec(cs[0])),
        )
    }
}

/// The entry value parsed from one child: same identifier and name; below
/// it, one single-child hierarchy per entry of its recursively parsed
/// sub-map, in map order — or nothing when that sub-map is empty.
pub open spec fn parse_entry_spec(c: SpecTagChild) -> SpecTagChild
    decreases c,
{
    let sub = parse_spec(c.hierarchies);
    SpecTagChild {
        tag_id: c.tag_id,
        tag_name: c.tag_name,
        hierarchies: if sub.len() == 0 {
            None
        } else {
            Some(
                sub.map_values(
                    |e: (Seq<char>, SpecTagChild)| SpecTagHierarchy { children: Some(seq![e.1]) },
                ),
            )
        },
    }
}

/// The shadows of `cs` taken pointwise.
pub proof fn lemma_view_of_children_index(cs: Seq<TagChild>)
    ensures
        view_of_children(cs).len() == cs.len(),
        forall|i: int| 0 <= i < cs.len() ==> view_of_children(cs)[i] == view_of_child(cs[i]),
    decreases cs.len(),
{
    if cs.len() > 0 {
        lemma_view_of_children_index(cs.drop_first());
        assert forall|i: int|
            0 <= i < cs.len() implies view_of_children(cs)[i] == view_of_child(cs[i]) by {
            if i > 0 {
                assert(view_of_children(cs)[i] == view_of_children(cs.drop_first())[i - 1]);
                assert(cs.drop_first()[i - 1] == cs[i]);
            }
        }
    }
}

/// The shadows of `hs` taken pointwise.
pub proof fn lemma_view_of_hierarchies_index(hs: Seq<TagHierarchy>)
    ensures
        view_of_hierarchies(hs).len() == hs.len(),
        forall|i: int|
            0 <= i < hs.len() ==> view_of_hierarchies(hs)[i] == view_of_hierarchy(hs[i]),
    decreases hs.len(),
{
    if hs.len() > 0 {
        lemma_view_of_hierarchies_index(hs.drop_first());
        assert forall|i: int|
            0 <= i < hs.len() implies view_of_hierarchies(hs)[i] == view_of_hierarchy(hs[i]) by {
            if i > 0 {
                assert(view_of_hierarchies(hs)[i] == view_of_hierarchies(hs.drop_first())[i - 1]);
                assert(hs.drop_first()[i - 1] == hs[i]);
            }
        }
    }
}

/// Inserting commutes with taking shadows.
pub proof fn lemma_insert_view(entries: Seq<(String, TagChild)>, k: String, v: TagChild)
    ensures
        entries_view(tag_map_insert_spec(entries, k, v)) =~= spec_entries_insert(
            entries_view(entries),
            k@,
            view_of_child(v),
        ),
    decreases entries.len(),
{
    if entries.len() == 0 {
    } else if entries[0].0@ == k@ {
        assert(entries_view(entries)[0] == (entries[0].0@, view_of_child(entries[0].1)));
        assert(entries_view(seq![(k, v)] + entries.drop_first()) =~= seq![
            (k@, view_of_child(v)),
        ] + entries_view(entries.drop_first()));
        assert(entries_view(entries).drop_first() =~= entries_view(entries.drop_first()));
    } else {
        lemma_insert_view(entries.drop_first(), k, v);
        assert(entries_view(entries)[0] == (entries[0].0@, view_of_child(entries[0].1)));
        assert(entries_view(entries).drop_first() =~= entries_view(entries.drop_first()));
        assert(entries_view(seq![entries[0]] + tag_map_insert_spec(entries.drop_first(), k, v))
            =~= seq![entries_view(entries)[0]] + entries_view(
            tag_map_insert_spec(entries.drop_first(), k, v),
        ));
    }
}

/// Parse a raw tag hierarchy into a map from tag identifier to subtree,
/// deduplicating by identifier level by level.
pub fn parse_hierarchies_recursive(hierarchies: &Option<Vec<TagHierarchy>>) -> (r: TagMap)
    ensures
        r.wf(),
        r.keys_match(),
        entries_view(r.entries@) == parse_spec(view_of_ohs(*hierarchies)),
    decreases *hierarchies,
{
    let mut parsed = TagMap::new();
    let hs_vec = match hierarchies {
        None => {
            proof {
                assert(entries_view(parsed.entries@) =~= Seq::<(Seq<char>, SpecTagChild)>::empty());
            }
            return parsed;
        },
        Some(hs_vec) => hs_vec,
    };
    let ghost hv = view_of_hierarchies(hs_vec@);
    let ghost target = parse_spec(view_of_ohs(*hierarchies));
    let n = hs_vec.len();
    let mut i: usize = 0;
    proof {
        lemma_view_of_hierarchies_index(hs_vec@);
        assert(hv.skip(0) =~= hv);
        assert(entries_view(parsed.entries@) =~= Seq::<(Seq<char>, SpecTagChild)>::empty());
        assert(target == parse_hiers_spec(hv, Seq::empty()));
    }
    while i < n
        invariant
            n == hs_vec@.len(),
            i <= n,
            *hierarchies == Some(*hs_vec),
            hv == view_of_hierarchies(hs_vec@),
            hv.len() == n,
            forall|t: int| 0 <= t < n ==> hv[t] == view_of_hierarchy(hs_vec@[t]),
            target == parse_spec(view_of_ohs(*hierarchies)),
            parsed.wf(),
            parsed.keys_match(),
            target == parse_hiers_spec(hv.skip(i as int), entries_view(parsed.entries@)),
        decreases n - i,
    {
        proof {
            assert(hv.skip(i as int)[0] == hv[i as int]);
            assert(hv.skip(i as int).drop_first() =~= hv.skip(i + 1));
            assert(hv[i as int] == view_of_hierarchy(hs_vec@[i as int]));
        }
        match &hs_vec[i].children {
            None => {
                proof {
                    assert(hv[i as int].children is None);
                }
            },
            Some(children_vec) => {
                let ghost cv = view_of_children(children_vec@);
                proof {
                    lemma_view_of_children_index(children_vec@);
                    assert(hv[i as int].children == Some(cv));
                    assert(cv.skip(0) =~= cv);
                }
                let m = children_vec.len();
                let ghost acc0 = entries_view(parsed.entries@);
                let mut k: usize = 0;
                while k < m
                    invariant
                        m == children_vec@.len(),
                        k <= m,
                        n == hs_vec@.len(),
                        i < n,
                        *hierarchies == Some(*hs_vec),
                        hs_vec@[i as int].children == Some(*children_vec),
                        cv == view_of_children(children_vec@),
                        cv.len() == m,
                        forall|t: int| 0 <= t < m ==> cv[t] == view_of_child(children_vec@[t]),
                        parsed.wf(),
                        parsed.keys_match(),
                        parse_children_spec(cv, acc0) == parse_children_spec(
                            cv.skip(k as int),
                            entries_view(parsed.entries@),
                        ),
                    decreases m - k,
                {
                    proof {
                        assert(cv.skip(k as int)[0] == cv[k as int]);
                        assert(cv.skip(k as int).drop_first() =~= cv.skip(k + 1));
                        assert(cv[k as int] == view_of_child(children_vec@[k as int]));
                    }
                    let child = &children_vec[k];
                    proof {
                        let oh = *hierarchies;
                        assert(decreases_to!(oh => oh->0));
                        assert(oh->0 == *hs_vec);
                        assert(decreases_to!(*hs_vec => hs_vec@));
                        assert(decreases_to!(hs_vec@ => hs_vec@[i as int]));
                        let och = hs_vec@[i as int].children;
                        assert(decreases_to!(hs_vec@[i as int] => och));
                        assert(decreases_to!(och => och->0));
                        assert(och->0 == *children_vec);
                        assert(decreases_to!(*children_vec => children_vec@));
                        assert(decreases_to!(children_vec@ => children_vec@[k as int]));
                        assert(decreases_to!(children_vec@[k as int] => children_vec@[k as
                            int].hierarchies));
                        assert(children_vec@[k as int].hierarchies == child.hierarchies);
                    }
                    let sub = parse_hierarchies_recursive(&child.hierarchies);
                    let ghost sub_snapshot = sub.entries@;
                    let ghost sub_view = entries_view(sub.entries@);
                    let nested: Option<Vec<TagHierarchy>> = if sub.len() == 0 {
                        proof {
                            assert(sub_view.len() == 0);
                        }
                        None
                    } else {
                        let mut v: Vec<TagHierarchy> = Vec::new();
                        let mut rem = sub.entries;
                        while rem.len() > 0
                            invariant
                                v@.len() + rem@.len() == sub_snapshot.len(),
                                rem@ =~= sub_snapshot.skip(v@.len() as int),
                                forall|t: int|
                                    0 <= t < v@.len() ==> (#[trigger] v@[t]).children is Some
                                        && v@[t].children->0@ =~= seq![sub_snapshot[t].1],
                            decreases rem@.len(),
                        {
                            proof {
                                assert(rem@[0] == sub_snapshot[v@.len() as int]);
                                assert(rem@.skip(1) =~= sub_snapshot.skip(v@.len() as int + 1));
                            }
                            let pair = rem.remove(0);
                            let mut single: Vec<TagChild> = Vec::new();
                            single.push(pair.1);
                            v.push(TagHierarchy { children: Some(single) });
                        }
                        Some(v)
                    };
                    let tc = TagChild {
                        tag_id: child.tag_id.clone(),
                        tag_name: child.tag_name.clone(),
                        hierarchies: nested,
                    };
                    proof {
                        // the built value's shadow is the parsed entry of the
                        // child's shadow
                        let cview = view_of_child(children_vec@[k as int]);
                        assert(cview.hierarchies == view_of_ohs(child.hierarchies));
                        assert(sub_view == parse_spec(cview.hierarchies));
                        match &tc.hierarchies {
                            None => {
                                assert(view_of_child(tc) == parse_entry_spec(cview));
                            },
                            Some(v) => {
                                lemma_view_of_hierarchies_index(v@);
                                assert forall|t: int|
                                    0 <= t < v@.len() implies view_of_hierarchies(v@)[t]
                                    == parse_entry_spec(cview).hierarchies->0[t] by {
                                    assert(view_of_hierarchies(v@)[t] == view_of_hierarchy(v@[t]));
                                    assert(v@[t].children->0@ =~= seq![sub_snapshot[t].1]);
                                    assert(view_of_children(seq![sub_snapshot[t].1]) =~= seq![
                                        view_of_child(sub_snapshot[t].1),
                                    ]);
                                    assert(sub_view[t] == (
                                        sub_snapshot[t].0@,
                                        view_of_child(sub_snapshot[t].1),
                                    ));
                                }
                                assert(view_of_hierarchies(v@)
                                    =~= parse_entry_spec(cview).hierarchies->0);
                                assert(view_of_child(tc) == parse_entry_spec(cview));
                            },
                        }
                    }
                    let ghost acc_before = parsed.entries@;
                    let key = tc.tag_id.clone();
                    let ghost tcg = tc;
                    parsed.insert(key, tc);
                    proof {
                        lemma_insert_view(acc_before, children_vec@[k as int].tag_id, tcg);
                        assert(parsed.entries@ == tag_map_insert_spec(
                            acc_before,
                            children_vec@[k as int].tag_id,
                            tcg,
                        ));
                        assert(entries_view(parsed.entries@) =~= spec_entries_insert(
                            entries_view(acc_before),
                            children_vec@[k as int].tag_id@,
                            view_of_child(tcg),
                        ));
                        assert(cv[k as int].tag_id == children_vec@[k as int].tag_id@);
                        assert(parse_children_spec(cv.skip(k as int), entries_view(acc_before))
                            == parse_children_spec(
                            cv.skip(k + 1),
                            spec_entries_insert(
                                entries_view(acc_before),
                                cv[k as int].tag_id,
                                parse_entry_spec(cv[k as int]),
                            ),
                        ));
                    }
                    k = k + 1;
                }
                proof {
                    assert(cv.skip(m as int).len() == 0);
                    assert(parse_children_spec(cv.skip(m as int), entries_view(parsed.entries@))
                        == entries_view(parsed.entries@));
                    assert(parse_hiers_spec(hv.skip(i as int), acc0) == parse_hiers_spec(
                        hv.skip(i + 1),
                        parse_children_spec(cv, acc0),
                    ));
                }
            },
        }
        i = i + 1;
    }
    proof {
        assert(hv.skip(n as int).len() == 0);
        assert(parse_hiers_spec(hv.skip(n as int), entries_view(parsed.entries@)) == entries_view(
            parsed.entries@,
        ));
    }
    parsed
}

} // verus!
