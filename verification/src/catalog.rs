//! Catalog logic: navigating the tag hierarchy, validating filter
//! parameters, assembling dropdown options, and turning raw catalog records
//! into textbook entries.
use vstd::prelude::*;
use vstd::string::StringExecFns;
use vstd::string::StrSliceExecFns;
use crate::models::{DropdownOption, RawBook, TagChild, TagHierarchy, Textbook};
use crate::strutil::{seq_views, split_spec, split_str, str_eq};

verus! {

/// Category name that requires a year selection.
pub const SPECIAL_EDUCATION: &'static str = "特殊教育";

/// Category name that needs no grade selection.
pub const HIGH_SCHOOL: &'static str = "高中";

/// Base of every textbook's download address; the document identifier sits
/// between prefix and suffix.
pub const DOWNLOAD_URL_PREFIX: &'static str =
    "https://r2-ndr.ykt.cbern.com.cn/edu_product/esp/assets_document/";

pub const DOWNLOAD_URL_SUFFIX: &'static str = ".pkg/pdf.pdf";

/// The children directly under one hierarchy level, or nothing.
pub open spec fn kids_of(h: TagHierarchy) -> Seq<TagChild> {
    match h.children {
        Some(c) => c@,
        None => Seq::empty(),
    }
}

/// First child with the given tag identifier among `cs`, if any.
pub open spec fn find_in_children_spec(cs: Seq<TagChild>, target: Seq<char>) -> Option<TagChild>
    decreases cs.len(),
{
    if cs.len() == 0 {
        None
    } else if cs[0].tag_id@ == target {
        Some(cs[0])
    } else {
        find_in_children_spec(cs.drop_first(), target)
    }
}

/// First child with the given tag identifier across the hierarchies `hs`, in
/// order: hierarchy by hierarchy, each one's children in order.
pub open spec fn find_in_hierarchies_spec(hs: Seq<TagHierarchy>, target: Seq<char>) -> Option<
    TagChild,
>
    decreases hs.len(),
{
    if hs.len() == 0 {
        None
    } else {
        match find_in_children_spec(kids_of(hs[0]), target) {
            Some(c) => Some(c),
            None => find_in_hierarchies_spec(hs.drop_first(), target),
        }
    }
}

/// First child with the given identifier in an optional hierarchy list.
pub open spec fn find_child_spec(ohs: Option<Vec<TagHierarchy>>, target: Seq<char>) -> Option<
    TagChild,
> {
    match ohs {
        Some(hs) => find_in_hierarchies_spec(hs@, target),
        None => None,
    }
}

/// First child with identifier `target` among the children `cs`.
fn find_in_children_vec<'b>(cs: &'b Vec<TagChild>, target_id: &str) -> (r: Option<&'b TagChild>)
    ensures
        match r {
            Some(c) => find_in_children_spec(cs@, target_id@) == Some(*c),
            None => find_in_children_spec(cs@, target_id@) is None,
        },
{
    let n = cs.len();
    proof {
        assert(cs@.skip(0) =~= cs@);
    }
    let mut i: usize = 0;
    while i < n
        invariant
            n == cs@.len(),
            i <= n,
            find_in_children_spec(cs@, target_id@) == find_in_children_spec(
                cs@.skip(i as int),
                target_id@,
            ),
        decreases n - i,
    {
        proof {
            assert(cs@.skip(i as int)[0] == cs@[i as int]);
            assert(cs@.skip(i as int).drop_first() =~= cs@.skip(i + 1));
        }
        if str_eq(cs[i].tag_id.as_str(), target_id) {
            return Some(&cs[i]);
        }
        i = i + 1;
    }
    proof {
        assert(cs@.skip(n as int).len() == 0);
    }
    None
}

/// Walks the tag hierarchy level by level by tag identifiers.
pub struct HierarchyNavigator<'a> {
    pub tag_hierarchy: &'a crate::models::TagMap,
}

impl<'a> HierarchyNavigator<'a> {
    pub fn new(tag_hierarchy: &'a crate::models::TagMap) -> (r: Self)
        ensures
            r.tag_hierarchy == tag_hierarchy,
    {
        HierarchyNavigator { tag_hierarchy }
    }

    /// First child with identifier `target_id` across `hierarchies`.
    pub fn find_child_in_hierarchies<'b>(
        hierarchies: &'b Option<Vec<TagHierarchy>>,
        target_id: &str,
    ) -> (r: Option<&'b TagChild>)
        ensures
            match r {
                Some(c) => find_child_spec(*hierarchies, target_id@) == Some(*c),
                None => find_child_spec(*hierarchies, target_id@) is None,
            },
    {
        match hierarchies {
            Some(hs) => {
                let n = hs.len();
                proof {
                    assert(hs@.skip(0) =~= hs@);
                }
                let mut i: usize = 0;
                while i < n
                    invariant
                        n == hs@.len(),
                        i <= n,
                        find_child_spec(*hierarchies, target_id@) == find_in_hierarchies_spec(
                            hs@,
                            target_id@,
                        ),
                        find_in_hierarchies_spec(hs@, target_id@) == find_in_hierarchies_spec(
                            hs@.skip(i as int),
                            target_id@,
                        ),
                    decreases n - i,
                {
                    proof {
                        assert(hs@.skip(i as int)[0] == hs@[i as int]);
                        assert(hs@.skip(i as int).drop_first() =~= hs@.skip(i + 1));
                    }
                    match &hs[i].children {
                        Some(cs) => {
                            proof {
                                assert(kids_of(hs@[i as int]) == cs@);
                            }
                            let f = find_in_children_vec(cs, target_id);
                            if f.is_some() {
                                proof {
                                    assert(find_in_hierarchies_spec(hs@.skip(i as int), target_id@)
                                        == find_in_children_spec(cs@, target_id@));
                                }
                                return f;
                            }
                        },
                        None => {
                            proof {
                                assert(kids_of(hs@[i as int]).len() == 0);
                            }
                        },
                    }
                    i = i + 1;
                }
                proof {
                    assert(hs@.skip(n as int).len() == 0);
                }
                None
            },
            None => None,
        }
    }

    /// The category child for `category_id`, straight from the parsed map.
    pub fn get_category(&self, category_id: &str) -> (r: Option<&'a TagChild>)
        requires
            self.tag_hierarchy.wf(),
        ensures
            match r {
                Some(c) => crate::models::tag_map_get_spec(self.tag_hierarchy.entries@, category_id@)
                    == Some(*c),
                None => crate::models::tag_map_get_spec(self.tag_hierarchy.entries@, category_id@)
                    is None,
            },
    {
        self.tag_hierarchy.get(category_id)
    }

    /// What `get_subject` returns: the subject under the category.
    pub open spec fn subject_spec(&self, category_id: Seq<char>, subject_id: Seq<char>) -> Option<
        TagChild,
    > {
        match crate::models::tag_map_get_spec(self.tag_hierarchy.entries@, category_id) {
            Some(cat) => find_child_spec(cat.hierarchies, subject_id),
            None => None,
        }
    }

    pub fn get_subject(&self, category_id: &str, subject_id: &str) -> (r: Option<&TagChild>)
        requires
            self.tag_hierarchy.wf(),
        ensures
            match r {
                Some(c) => self.subject_spec(category_id@, subject_id@) == Some(*c),
                None => self.subject_spec(category_id@, subject_id@) is None,
            },
    {
        match self.get_category(category_id) {
            Some(category) => Self::find_child_in_hierarchies(&category.hierarchies, subject_id),
            None => None,
        }
    }

    /// What `get_version` returns: the version under the subject.
    pub open spec fn version_spec(
        &self,
        category_id: Seq<char>,
        subject_id: Seq<char>,
        version_id: Seq<char>,
    ) -> Option<TagChild> {
        match self.subject_spec(category_id, subject_id) {
            Some(s) => find_child_spec(s.hierarchies, version_id),
            None => None,
        }
    }

    pub fn get_version(&self, category_id: &str, subject_id: &str, version_id: &str) -> (r: Option<
        &TagChild,
    >)
        requires
            self.tag_hierarchy.wf(),
        ensures
            match r {
                Some(c) => self.version_spec(category_id@, subject_id@, version_id@) == Some(*c),
                None => self.version_spec(category_id@, subject_id@, version_id@) is None,
            },
    {
        match self.get_subject(category_id, subject_id) {
            Some(subject) => Self::find_child_in_hierarchies(&subject.hierarchies, version_id),
            None => None,
        }
    }

    /// What `get_grade` returns: the grade under the version.
    pub open spec fn grade_spec(
        &self,
        category_id: Seq<char>,
        subject_id: Seq<char>,
        version_id: Seq<char>,
        grade_id: Seq<char>,
    ) -> Option<TagChild> {
        match self.version_spec(category_id, subject_id, version_id) {
            Some(v) => find_child_spec(v.hierarchies, grade_id),
            None => None,
        }
    }

    pub fn get_grade(
        &self,
        category_id: &str,
        subject_id: &str,
        version_id: &str,
        grade_id: &str,
    ) -> (r: Option<&TagChild>)
        requires
            self.tag_hierarchy.wf(),
        ensures
            match r {
                Some(c) => self.grade_spec(category_id@, subject_id@, version_id@, grade_id@)
                    == Some(*c),
                None => self.grade_spec(category_id@, subject_id@, version_id@, grade_id@) is None,
            },
    {
        match self.get_version(category_id, subject_id, version_id) {
            Some(version) => Self::find_child_in_hierarchies(&version.hierarchies, grade_id),
            None => None,
        }
    }

    /// What `get_year` returns: the year under the grade.
    pub open spec fn year_spec(
        &self,
        category_id: Seq<char>,
        subject_id: Seq<char>,
        version_id: Seq<char>,
        grade_id: Seq<char>,
        year_id: Seq<char>,
    ) -> Option<TagChild> {
        match self.grade_spec(category_id, subject_id, version_id, grade_id) {
            Some(g) => find_child_spec(g.hierarchies, year_id),
            None => None,
        }
    }

    pub fn get_year(
        &self,
        category_id: &str,
        subject_id: &str,
        version_id: &str,
        grade_id: &str,
        year_id: &str,
    ) -> (r: Option<&TagChild>)
        requires
            self.tag_hierarchy.wf(),
        ensures
            match r {
                Some(c) => self.year_spec(
                    category_id@,
                    subject_id@,
                    version_id@,
                    grade_id@,
                    year_id@,
                ) == Some(*c),
                None => self.year_spec(category_id@, subject_id@, version_id@, grade_id@, year_id@)
                    is None,
            },
    {
        match self.get_grade(category_id, subject_id, version_id, grade_id) {
            Some(grade) => Self::find_child_in_hierarchies(&grade.hierarchies, year_id),
            None => None,
        }
    }
}

/// What a set of filter identifiers means against the tag map.
#[derive(Clone, Copy, Debug)]
pub struct ValidationResult {
    pub is_special_education: bool,
    pub is_high_school: bool,
    pub is_valid: bool,
}

/// Whether the category under `category_id` carries the given display name.
pub open spec fn category_named(
    entries: Seq<(String, TagChild)>,
    category_id: Seq<char>,
    name: Seq<char>,
) -> bool {
    match crate::models::tag_map_get_spec(entries, category_id) {
        Some(c) => c.tag_name@ == name,
        None => false,
    }
}

/// Validate the filter identifiers: category, subject and version must be
/// chosen; a grade is needed except for the high-school category; the
/// special-education category also needs a year.
pub fn validate_parameters(
    category_id: &str,
    subject_id: &str,
    version_id: &str,
    grade_id: &str,
    year_id: &Option<String>,
    tag_hierarchy: &crate::models::TagMap,
) -> (r: ValidationResult)
    requires
        tag_hierarchy.wf(),
    ensures
        r.is_special_education == category_named(
            tag_hierarchy.entries@,
            category_id@,
            "特殊教育"@,
        ),
        r.is_high_school == category_named(tag_hierarchy.entries@, category_id@, "高中"@),
        r.is_valid == (category_id@.len() > 0 && subject_id@.len() > 0 && version_id@.len() > 0 && (
        !r.is_high_school && grade_id@.len() > 0 || r.is_high_school) && (!r.is_special_education
            || year_id is Some)),
{
    let cat = tag_hierarchy.get(category_id);
    let is_special_education = match cat {
        Some(c) => str_eq(c.tag_name.as_str(), SPECIAL_EDUCATION),
        None => false,
    };
    let is_high_school = match cat {
        Some(c) => str_eq(c.tag_name.as_str(), HIGH_SCHOOL),
        None => false,
    };
    let is_valid = !category_id.is_empty() && !subject_id.is_empty() && !version_id.is_empty() && (
    !is_high_school && !grade_id.is_empty() || is_high_school) && (!is_special_education
        || year_id.is_some());
    ValidationResult { is_special_education, is_high_school, is_valid }
}

/// The display names collected for the chosen identifiers: category, subject
/// and version names while each lookup succeeds; then the grade name when a
/// grade is chosen and found; then the year name for special education when
/// the year is given and found.
pub open spec fn tag_names_spec(
    nav: HierarchyNavigator,
    category_id: Seq<char>,
    subject_id: Seq<char>,
    version_id: Seq<char>,
    grade_id: Seq<char>,
    year_id: Option<String>,
    validation: ValidationResult,
) -> Seq<Seq<char>> {
    match crate::models::tag_map_get_spec(nav.tag_hierarchy.entries@, category_id) {
        None => Seq::empty(),
        Some(cat) => {
            let names1 = seq![cat.tag_name@];
            match nav.subject_spec(category_id, subject_id) {
                None => names1,
                Some(subj) => {
                    let names2 = names1.push(subj.tag_name@);
                    match nav.version_spec(category_id, subject_id, version_id) {
                        None => names2,
                        Some(ver) => {
                            let names3 = names2.push(ver.tag_name@);
                            if grade_id.len() == 0 {
                                names3
                            } else {
                                match nav.grade_spec(
                                    category_id,
                                    subject_id,
                                    version_id,
                                    grade_id,
                                ) {
                                    None => names3,
                                    Some(grade) => {
                                        let names4 = names3.push(grade.tag_name@);
                                        if validation.is_special_education && year_id is Some {
                                            match nav.year_spec(
                                                category_id,
                                                subject_id,
                                                version_id,
                                                grade_id,
                                                year_id->0@,
                                            ) {
                                                None => names4,
                                                Some(year) => names4.push(year.tag_name@),
                                            }
                                        } else {
                                            names4
                                        }
                                    },
                                }
                            }
                        },
                    }
                },
            }
        },
    }
}

/// Collect the display names along the chosen identifier path.
pub fn build_tag_names(
    navigator: &HierarchyNavigator,
    category_id: &str,
    subject_id: &str,
    version_id: &str,
    grade_id: &str,
    year_id: &Option<String>,
    validation: &ValidationResult,
) -> (r: Vec<String>)
    requires
        navigator.tag_hierarchy.wf(),
    ensures
        seq_views(r@) == tag_names_spec(
            *navigator,
            category_id@,
            subject_id@,
            version_id@,
            grade_id@,
            *year_id,
            *validation,
        ),
{
    let mut tag_names: Vec<String> = Vec::new();
    let cat = match navigator.get_category(category_id) {
        Some(c) => c,
        None => {
            proof {
                assert(seq_views(tag_names@) =~= Seq::<Seq<char>>::empty());
            }
            return tag_names;
        },
    };
    tag_names.push(cat.tag_name.clone());
    let subj = match navigator.get_subject(category_id, subject_id) {
        Some(s) => s,
        None => {
            proof {
                assert(seq_views(tag_names@) =~= seq![cat.tag_name@]);
            }
            return tag_names;
        },
    };
    tag_names.push(subj.tag_name.clone());
    let ver = match navigator.get_version(category_id, subject_id, version_id) {
        Some(v) => v,
        None => {
            proof {
                assert(seq_views(tag_names@) =~= seq![cat.tag_name@].push(subj.tag_name@));
            }
            return tag_names;
        },
    };
    tag_names.push(ver.tag_name.clone());
    proof {
        assert(seq_views(tag_names@) =~= seq![cat.tag_name@].push(subj.tag_name@).push(
            ver.tag_name@,
        ));
    }
    if !grade_id.is_empty() {
        if let Some(grade) = navigator.get_grade(category_id, subject_id, version_id, grade_id) {
            tag_names.push(grade.tag_name.clone());
            proof {
                assert(seq_views(tag_names@) =~= seq![cat.tag_name@].push(subj.tag_name@).push(
                    ver.tag_name@,
                ).push(grade.tag_name@));
            }
            if validation.is_special_education {
                if let Some(year_id_val) = year_id {
                    if let Some(year) = navigator.get_year(
                        category_id,
                        subject_id,
                        version_id,
                        grade_id,
                        year_id_val.as_str(),
                    ) {
                        tag_names.push(year.tag_name.clone());
                        proof {
                            assert(seq_views(tag_names@) =~= seq![cat.tag_name@].push(
                                subj.tag_name@,
                            ).push(ver.tag_name@).push(grade.tag_name@).push(year.tag_name@));
                        }
                    }
                }
            }
        }
    }
    tag_names
}

/// The identifier sequence a matching tag path must contain, in order:
/// category, subject, version; then the grade when one is chosen or the
/// category is special education; then the year for special education.
pub open spec fn required_id_sequence_spec(
    category_id: Seq<char>,
    subject_id: Seq<char>,
    version_id: Seq<char>,
    grade_id: Seq<char>,
    year_id: Option<String>,
    validation: ValidationResult,
) -> Seq<Seq<char>> {
    let base = seq![category_id, subject_id, version_id];
    let with_grade = if grade_id.len() > 0 || validation.is_special_education {
        base.push(grade_id)
    } else {
        base
    };
    if validation.is_special_education && year_id is Some {
        with_grade.push(year_id->0@)
    } else {
        with_grade
    }
}

/// Assemble the identifier sequence used to filter raw books.
pub fn build_required_id_sequence(
    category_id: &str,
    subject_id: &str,
    version_id: &str,
    grade_id: &str,
    year_id: &Option<String>,
    validation: &ValidationResult,
) -> (r: Vec<String>)
    ensures
        seq_views(r@) == required_id_sequence_spec(
            category_id@,
            subject_id@,
            version_id@,
            grade_id@,
            *year_id,
            *validation,
        ),
{
    let mut sequence: Vec<String> = Vec::new();
    sequence.push(category_id.to_owned());
    sequence.push(subject_id.to_owned());
    sequence.push(version_id.to_owned());
    proof {
        assert(seq_views(sequence@) =~= seq![category_id@, subject_id@, version_id@]);
    }
    if !grade_id.is_empty() || validation.is_special_education {
        sequence.push(grade_id.to_owned());
        proof {
            assert(seq_views(sequence@) =~= seq![category_id@, subject_id@, version_id@].push(
                grade_id@,
            ));
        }
    }
    if validation.is_special_education {
        if let Some(year_id_val) = year_id {
            let ghost before = seq_views(sequence@);
            sequence.push(year_id_val.clone());
            proof {
                assert(seq_views(sequence@) =~= before.push(year_id_val@));
            }
        }
    }
    proof {
        assert(seq_views(sequence@) =~= required_id_sequence_spec(
            category_id@,
            subject_id@,
            version_id@,
            grade_id@,
            *year_id,
            *validation,
        ));
    }
    sequence
}

} // verus!

verus! {

/// The (value, label) pairs of a sequence of dropdown options.
pub open spec fn dd_views(os: Seq<DropdownOption>) -> Seq<(Seq<char>, Seq<char>)> {
    os.map_values(|o: DropdownOption| (o.value@, o.label@))
}

/// The (identifier, name) pairs of a sequence of children.
pub open spec fn dd_of_children(cs: Seq<TagChild>) -> Seq<(Seq<char>, Seq<char>)> {
    cs.map_values(|c: TagChild| (c.tag_id@, c.tag_name@))
}

/// All children across `hs`, flattened in order, as (identifier, name) pairs.
pub open spec fn dd_of_hierarchies(hs: Seq<TagHierarchy>) -> Seq<(Seq<char>, Seq<char>)>
    decreases hs.len(),
{
    if hs.len() == 0 {
        Seq::empty()
    } else {
        dd_of_children(kids_of(hs[0])) + dd_of_hierarchies(hs.drop_first())
    }
}

/// The dropdown contents an optional hierarchy list yields.
pub open spec fn options_of(ohs: Option<Vec<TagHierarchy>>) -> Seq<(Seq<char>, Seq<char>)> {
    match ohs {
        Some(hs) => dd_of_hierarchies(hs@),
        None => Seq::empty(),
    }
}

/// One dropdown option per child across `hierarchies`, in order.
pub fn get_dropdown_options_from_hierarchies(hierarchies: &Option<Vec<TagHierarchy>>) -> (r: Vec<
    DropdownOption,
>)
    ensures
        dd_views(r@) == options_of(*hierarchies),
{
    let mut out: Vec<DropdownOption> = Vec::new();
    match hierarchies {
        None => {
            proof {
                assert(dd_views(out@) =~= Seq::<(Seq<char>, Seq<char>)>::empty());
            }
            out
        },
        Some(hs) => {
            let n = hs.len();
            proof {
                assert(hs@.skip(0) =~= hs@);
                assert(dd_views(out@) =~= Seq::<(Seq<char>, Seq<char>)>::empty());
            }
            let ghost target = dd_of_hierarchies(hs@);
            let mut i: usize = 0;
            while i < n
                invariant
                    n == hs@.len(),
                    i <= n,
                    target == dd_of_hierarchies(hs@),
                    options_of(*hierarchies) == target,
                    target =~= dd_views(out@) + dd_of_hierarchies(hs@.skip(i as int)),
                decreases n - i,
            {
                proof {
                    assert(hs@.skip(i as int)[0] == hs@[i as int]);
                    assert(hs@.skip(i as int).drop_first() =~= hs@.skip(i + 1));
                }
                match &hs[i].children {
                    Some(cs) => {
                        proof {
                            assert(kids_of(hs@[i as int]) == cs@);
                        }
                        let m = cs.len();
                        let mut k: usize = 0;
                        while k < m
                            invariant
                                m == cs@.len(),
                                k <= m,
                                n == hs@.len(),
                                i < n,
                                kids_of(hs@[i as int]) == cs@,
                                target =~= dd_views(out@) + dd_of_children(cs@.skip(k as int))
                                    + dd_of_hierarchies(hs@.skip(i + 1)),
                            decreases m - k,
                        {
                            let opt = DropdownOption {
                                value: cs[k].tag_id.clone(),
                                label: cs[k].tag_name.clone(),
                            };
                            proof {
                                let f = |c: TagChild| (c.tag_id@, c.tag_name@);
                                assert(cs@.skip(k as int).map_values(f) =~= seq![
                                    f(cs@[k as int]),
                                ] + cs@.skip(k + 1).map_values(f));
                                assert(dd_views(out@.push(opt)) =~= dd_views(out@).push(
                                    (cs@[k as int].tag_id@, cs@[k as int].tag_name@),
                                ));
                            }
                            out.push(opt);
                            k = k + 1;
                        }
                        proof {
                            assert(dd_of_children(cs@.skip(m as int)) =~= Seq::<(
                                Seq<char>,
                                Seq<char>,
                            )>::empty());
                        }
                    },
                    None => {
                        proof {
                            assert(kids_of(hs@[i as int]).len() == 0);
                            assert(dd_of_children(kids_of(hs@[i as int])) =~= Seq::<(
                                Seq<char>,
                                Seq<char>,
                            )>::empty());
                        }
                    },
                }
                i = i + 1;
            }
            proof {
                assert(dd_of_hierarchies(hs@.skip(n as int)) =~= Seq::<(
                    Seq<char>,
                    Seq<char>,
                )>::empty());
            }
            out
        },
    }
}

/// One dropdown option per category in the parsed tag map, in map order.
pub fn textbook_categories_from(map: &crate::models::TagMap) -> (r: Vec<DropdownOption>)
    ensures
        r@.len() == map.entries@.len(),
        forall|i: int|
            0 <= i < r@.len() ==> (#[trigger] r@[i]).value@ == map.entries@[i].1.tag_id@
                && r@[i].label@ == map.entries@[i].1.tag_name@,
{
    let n = map.entries.len();
    let mut out: Vec<DropdownOption> = Vec::new();
    let mut i: usize = 0;
    while i < n
        invariant
            n == map.entries@.len(),
            i <= n,
            out@.len() == i,
            forall|j: int|
                0 <= j < i ==> (#[trigger] out@[j]).value@ == map.entries@[j].1.tag_id@
                    && out@[j].label@ == map.entries@[j].1.tag_name@,
        decreases n - i,
    {
        out.push(
            DropdownOption {
                value: map.entries[i].1.tag_id.clone(),
                label: map.entries[i].1.tag_name.clone(),
            },
        );
        i = i + 1;
    }
    out
}

/// The dropdown contents for the deepest fully-chosen level of the filters:
/// nothing without a category; the category's subjects without a subject; the
/// subject's versions without a version; with a version but no grade, the
/// version's grades — except that a high-school subject offers none; with a
/// grade, the grade's years.
pub open spec fn filter_options_spec(
    nav: HierarchyNavigator,
    args: crate::models::FilterOptionsArgs,
) -> Seq<(Seq<char>, Seq<char>)> {
    match args.category_id {
        None => Seq::empty(),
        Some(cat) => match args.subject_id {
            None => match crate::models::tag_map_get_spec(nav.tag_hierarchy.entries@, cat@) {
                Some(c) => options_of(c.hierarchies),
                None => Seq::empty(),
            },
            Some(subj) => match args.version_id {
                None => match nav.subject_spec(cat@, subj@) {
                    Some(s) => options_of(s.hierarchies),
                    None => Seq::empty(),
                },
                Some(ver) => match args.grade_id {
                    Some(grade) => match nav.grade_spec(cat@, subj@, ver@, grade@) {
                        Some(g) => options_of(g.hierarchies),
                        None => Seq::empty(),
                    },
                    None => match nav.subject_spec(cat@, subj@) {
                        Some(s) => if s.tag_name@ == "高中"@ {
                            Seq::empty()
                        } else {
                            match nav.version_spec(cat@, subj@, ver@) {
                                Some(v) => options_of(v.hierarchies),
                                None => Seq::empty(),
                            }
                        },
                        None => Seq::empty(),
                    },
                },
            },
        },
    }
}

/// Look up the dropdown options the chosen filters lead to.
pub fn filter_options_lookup(
    args: &crate::models::FilterOptionsArgs,
    tag_hierarchy: &crate::models::TagMap,
) -> (r: Vec<DropdownOption>)
    requires
        tag_hierarchy.wf(),
    ensures
        dd_views(r@) == filter_options_spec(
            HierarchyNavigator { tag_hierarchy: tag_hierarchy },
            *args,
        ),
{
    let navigator = HierarchyNavigator::new(tag_hierarchy);
    match &args.category_id {
        None => Vec::new(),
        Some(cat_id) => {
            match &args.subject_id {
                None => {
                    match navigator.get_category(cat_id.as_str()) {
                        Some(category) => get_dropdown_options_from_hierarchies(
                            &category.hierarchies,
                        ),
                        None => Vec::new(),
                    }
                },
                Some(subject_id) => {
                    match &args.version_id {
                        None => {
                            match navigator.get_subject(cat_id.as_str(), subject_id.as_str()) {
                                Some(subject) => get_dropdown_options_from_hierarchies(
                                    &subject.hierarchies,
                                ),
                                None => Vec::new(),
                            }
                        },
                        Some(version_id) => {
                            match &args.grade_id {
                                Some(grade_id) => {
                                    match navigator.get_grade(
                                        cat_id.as_str(),
                                        subject_id.as_str(),
                                        version_id.as_str(),
                                        grade_id.as_str(),
                                    ) {
                                        Some(grade) => get_dropdown_options_from_hierarchies(
                                            &grade.hierarchies,
                                        ),
                                        None => Vec::new(),
                                    }
                                },
                                None => {
                                    match navigator.get_subject(
                                        cat_id.as_str(),
                                        subject_id.as_str(),
                                    ) {
                                        Some(subject) => {
                                            if str_eq(subject.tag_name.as_str(), HIGH_SCHOOL) {
                                                Vec::new()
                                            } else {
                                                match navigator.get_version(
                                                    cat_id.as_str(),
                                                    subject_id.as_str(),
                                                    version_id.as_str(),
                                                ) {
                                                    Some(version) => get_dropdown_options_from_hierarchies(
                                                        &version.hierarchies,
                                                    ),
                                                    None => Vec::new(),
                                                }
                                            }
                                        },
                                        None => Vec::new(),
                                    }
                                },
                            }
                        },
                    }
                },
            }
        },
    }
}

} // verus!

verus! {

/// The engagement numbers reported for one document identifier.
#[derive(Clone, Debug)]
pub struct StatRecord {
    pub id: String,
    pub total_uv: i64,
    pub like_count: i64,
}

/// First record for `id`, if any.
pub open spec fn stat_get_spec(entries: Seq<StatRecord>, id: Seq<char>) -> Option<StatRecord>
    decreases entries.len(),
{
    if entries.len() == 0 {
        None
    } else if entries[0].id@ == id {
        Some(entries[0])
    } else {
        stat_get_spec(entries.drop_first(), id)
    }
}

/// The (views, likes) pair used for a book: its record's numbers, or zeros.
pub open spec fn stat_values_spec(entries: Seq<StatRecord>, id: Seq<char>) -> (i64, i64) {
    match stat_get_spec(entries, id) {
        Some(s) => (s.total_uv, s.like_count),
        None => (0i64, 0i64),
    }
}

/// The record list after storing `v`: the first record with the same
/// identifier is replaced in place, else `v` goes to the back.
pub open spec fn stat_insert_spec(entries: Seq<StatRecord>, v: StatRecord) -> Seq<StatRecord>
    decreases entries.len(),
{
    if entries.len() == 0 {
        seq![v]
    } else if entries[0].id@ == v.id@ {
        seq![v] + entries.drop_first()
    } else {
        seq![entries[0]] + stat_insert_spec(entries.drop_first(), v)
    }
}

/// The record list that folding `rs` onto `acc`, record by record, produces.
pub open spec fn stats_fold_spec(acc: Seq<StatRecord>, rs: Seq<StatRecord>) -> Seq<StatRecord>
    decreases rs.len(),
{
    if rs.len() == 0 {
        acc
    } else {
        stats_fold_spec(stat_insert_spec(acc, rs[0]), rs.drop_first())
    }
}

/// Statistics per document identifier, one record per identifier; a later
/// record for the same identifier replaces the earlier one.
#[derive(Debug)]
pub struct StatMap {
    pub entries: Vec<StatRecord>,
}

impl StatMap {
    /// Identifiers are unique.
    pub open spec fn wf(&self) -> bool {
        forall|i: int, j: int|
            0 <= i < self.entries@.len() && 0 <= j < self.entries@.len() && (
            #[trigger] self.entries@[i]).id@ == (#[trigger] self.entries@[j]).id@ ==> i == j
    }

    pub fn new() -> (r: Self)
        ensures
            r.wf(),
            r.entries@.len() == 0,
    {
        StatMap { entries: Vec::new() }
    }

    fn position(&self, id: &str) -> (r: Option<usize>)
        ensures
            match r {
                Some(i) => i < self.entries@.len() && self.entries@[i as int].id@ == id@ && (forall|
                    j: int,
                |
                    0 <= j < i ==> (#[trigger] self.entries@[j]).id@ != id@),
                None => forall|j: int|
                    0 <= j < self.entries@.len() ==> (#[trigger] self.entries@[j]).id@ != id@,
            },
    {
        let n = self.entries.len();
        let mut i: usize = 0;
        while i < n
            invariant
                n == self.entries@.len(),
                i <= n,
                forall|j: int| 0 <= j < i ==> (#[trigger] self.entries@[j]).id@ != id@,
            decreases n - i,
        {
            if str_eq(self.entries[i].id.as_str(), id) {
                return Some(i);
            }
            i = i + 1;
        }
        None
    }

    proof fn lemma_get_at(entries: Seq<StatRecord>, id: Seq<char>, i: int)
        requires
            0 <= i < entries.len(),
            entries[i].id@ == id,
            forall|j: int| 0 <= j < i ==> (#[trigger] entries[j]).id@ != id,
        ensures
            stat_get_spec(entries, id) == Some(entries[i]),
        decreases i,
    {
        if i > 0 {
            Self::lemma_get_at(entries.drop_first(), id, i - 1);
        }
    }

    proof fn lemma_get_none(entries: Seq<StatRecord>, id: Seq<char>)
        requires
            forall|j: int| 0 <= j < entries.len() ==> (#[trigger] entries[j]).id@ != id,
        ensures
            stat_get_spec(entries, id) is None,
        decreases entries.len(),
    {
        if entries.len() > 0 {
            Self::lemma_get_none(entries.drop_first(), id);
        }
    }

    proof fn lemma_insert_at(entries: Seq<StatRecord>, v: StatRecord, i: int)
        requires
            0 <= i < entries.len(),
            entries[i].id@ == v.id@,
            forall|j: int| 0 <= j < i ==> (#[trigger] entries[j]).id@ != v.id@,
        ensures
            stat_insert_spec(entries, v) =~= entries.update(i, v),
        decreases i,
    {
        if i == 0 {
            assert(seq![v] + entries.drop_first() =~= entries.update(0, v));
        } else {
            Self::lemma_insert_at(entries.drop_first(), v, i - 1);
            assert(entries.update(i, v).drop_first() =~= entries.drop_first().update(i - 1, v));
            assert(seq![entries[0]] + stat_insert_spec(entries.drop_first(), v) =~= entries.update(
                i,
                v,
            ));
        }
    }

    proof fn lemma_insert_none(entries: Seq<StatRecord>, v: StatRecord)
        requires
            forall|j: int| 0 <= j < entries.len() ==> (#[trigger] entries[j]).id@ != v.id@,
        ensures
            stat_insert_spec(entries, v) =~= entries.push(v),
        decreases entries.len(),
    {
        if entries.len() == 0 {
            assert(seq![v] =~= entries.push(v));
        } else {
            Self::lemma_insert_none(entries.drop_first(), v);
            assert(seq![entries[0]] + stat_insert_spec(entries.drop_first(), v) =~= entries.push(
                v,
            ));
        }
    }

    /// Store `v` under its identifier, replacing any earlier record.
    pub fn insert(&mut self, v: StatRecord)
        requires
            old(self).wf(),
        ensures
            final(self).wf(),
            final(self).entries@ == stat_insert_spec(old(self).entries@, v),
    {
        let pos = self.position(v.id.as_str());
        match pos {
            Some(i) => {
                proof {
                    Self::lemma_insert_at(self.entries@, v, i as int);
                }
                self.entries[i] = v;
                proof {
                    assert forall|a: int, b: int|
                        0 <= a < self.entries@.len() && 0 <= b < self.entries@.len() && (
                        #[trigger] self.entries@[a]).id@ == (
                        #[trigger] self.entries@[b]).id@ implies a == b by {
                        assert(old(self).entries@[a].id@ == self.entries@[a].id@);
                        assert(old(self).entries@[b].id@ == self.entries@[b].id@);
                    }
                }
            },
            None => {
                proof {
                    Self::lemma_insert_none(self.entries@, v);
                }
                self.entries.push(v);
                proof {
                    let n = old(self).entries@.len() as int;
                    assert forall|a: int, b: int|
                        0 <= a < self.entries@.len() && 0 <= b < self.entries@.len() && (
                        #[trigger] self.entries@[a]).id@ == (
                        #[trigger] self.entries@[b]).id@ implies a == b by {
                        if a < n && b < n {
                            assert(old(self).entries@[a].id@ == old(self).entries@[b].id@);
                        }
                    }
                }
            },
        }
    }

    /// The (views, likes) pair recorded for `id`, or zeros.
    pub fn values_for(&self, id: &str) -> (r: (i64, i64))
        ensures
            r == stat_values_spec(self.entries@, id@),
    {
        match self.position(id) {
            Some(i) => {
                proof {
                    Self::lemma_get_at(self.entries@, id@, i as int);
                }
                (self.entries[i].total_uv, self.entries[i].like_count)
            },
            None => {
                proof {
                    Self::lemma_get_none(self.entries@, id@);
                }
                (0, 0)
            },
        }
    }
}

/// Build the statistics map from the fetched records, later records
/// replacing earlier ones with the same identifier.
pub fn statistics_map_from_records(records: Vec<StatRecord>) -> (r: StatMap)
    ensures
        r.wf(),
        r.entries@ == stats_fold_spec(Seq::empty(), records@),
{
    let ghost all = records@;
    let mut remaining = records;
    let mut map = StatMap::new();
    let mut i: usize = 0;
    let n = remaining.len();
    proof {
        assert(all.skip(0) =~= all);
    }
    while i < n
        invariant
            n == all.len(),
            i <= n,
            remaining@ =~= all.skip(i as int),
            map.wf(),
            stats_fold_spec(Seq::empty(), all) == stats_fold_spec(map.entries@, all.skip(i as int)),
        decreases n - i,
    {
        proof {
            assert(all.skip(i as int)[0] == all[i as int]);
            assert(all.skip(i as int).drop_first() =~= all.skip(i + 1));
        }
        let rec = remaining.remove(0);
        map.insert(rec);
        i = i + 1;
    }
    map
}

} // verus!

verus! {

/// Whether the window of `parts` starting at `k` equals `req` element-wise.
pub open spec fn window_matches(parts: Seq<Seq<char>>, req: Seq<Seq<char>>, k: int) -> bool {
    forall|t: int| 0 <= t < req.len() ==> parts[k + t] == req[t]
}

/// Whether some window of the `/`-separated pieces of `path` equals `req`.
pub open spec fn path_matches(path: Seq<char>, req: Seq<Seq<char>>) -> bool {
    exists|k: int|
        0 <= k <= split_spec(path, '/').len() - req.len() && window_matches(
            split_spec(path, '/'),
            req,
            k,
        )
}

/// Whether any of the book's tag paths contains `req` as a window.
pub open spec fn book_matches(b: RawBook, req: Seq<Seq<char>>) -> bool {
    exists|p: int| 0 <= p < b.tag_paths@.len() && path_matches((#[trigger] b.tag_paths@[p])@, req)
}

/// The books of `bs`, in order, whose tag paths contain `req` as a window.
pub open spec fn filter_books_spec(bs: Seq<RawBook>, req: Seq<Seq<char>>) -> Seq<RawBook>
    decreases bs.len(),
{
    if bs.len() == 0 {
        Seq::empty()
    } else {
        (if book_matches(bs[0], req) {
            seq![bs[0]]
        } else {
            Seq::<RawBook>::empty()
        }) + filter_books_spec(bs.drop_first(), req)
    }
}

/// Whether some window of the pieces of `path` equals `required`.
fn path_contains_sequence(path: &str, required: &Vec<String>) -> (r: bool)
    requires
        required@.len() > 0,
    ensures
        r == path_matches(path@, seq_views(required@)),
{
    let parts = split_str(path, '/');
    let m = parts.len();
    let q = required.len();
    let ghost pv = seq_views(parts@);
    let ghost rv = seq_views(required@);
    if m < q {
        proof {
            assert(pv.len() == m);
            assert(rv.len() == q);
        }
        return false;
    }
    let mut k: usize = 0;
    while k <= m - q
        invariant
            m == parts@.len(),
            q == required@.len(),
            q <= m,
            q > 0,
            k <= m - q + 1,
            pv == seq_views(parts@),
            rv == seq_views(required@),
            pv == split_spec(path@, '/'),
            forall|k2: int| 0 <= k2 < k ==> !window_matches(pv, rv, k2),
        decreases m - q - k + 1,
    {
        let mut t: usize = 0;
        let mut all_eq = true;
        while t < q
            invariant
                m == parts@.len(),
                q == required@.len(),
                q <= m,
                k <= m - q,
                t <= q,
                pv == seq_views(parts@),
                rv == seq_views(required@),
                all_eq == (forall|t2: int| 0 <= t2 < t ==> pv[k + t2] == rv[t2]),
            decreases q - t,
        {
            let eq_here = parts[k + t] == required[t];
            proof {
                assert(pv[k + t] == parts@[k + t]@);
                assert(rv[t as int] == required@[t as int]@);
            }
            all_eq = all_eq && eq_here;
            t = t + 1;
        }
        if all_eq {
            proof {
                assert(window_matches(pv, rv, k as int));
            }
            return true;
        }
        k = k + 1;
    }
    proof {
        assert forall|k2: int|
            0 <= k2 <= pv.len() - rv.len() implies !window_matches(pv, rv, k2) by {}
    }
    false
}

/// Whether any of the book's tag paths contains `required` as a window.
fn raw_book_matches(book: &RawBook, required: &Vec<String>) -> (r: bool)
    requires
        required@.len() > 0,
    ensures
        r == book_matches(*book, seq_views(required@)),
{
    let n = book.tag_paths.len();
    let mut p: usize = 0;
    while p < n
        invariant
            n == book.tag_paths@.len(),
            p <= n,
            required@.len() > 0,
            forall|p2: int|
                0 <= p2 < p ==> !path_matches(
                    (#[trigger] book.tag_paths@[p2])@,
                    seq_views(required@),
                ),
        decreases n - p,
    {
        if path_contains_sequence(book.tag_paths[p].as_str(), required) {
            return true;
        }
        p = p + 1;
    }
    false
}

/// Keep the books whose tag paths contain the required identifier sequence,
/// in catalog order.
pub fn filter_books<'x>(raw_books: &'x Vec<RawBook>, required: &Vec<String>) -> (r: Vec<
    &'x RawBook,
>)
    requires
        required@.len() > 0,
    ensures
        r@.map_values(|b: &RawBook| *b) == filter_books_spec(raw_books@, seq_views(required@)),
{
    let n = raw_books.len();
    let ghost rv = seq_views(required@);
    let mut out: Vec<&RawBook> = Vec::new();
    let mut i: usize = 0;
    proof {
        assert(raw_books@.skip(0) =~= raw_books@);
        assert(out@.map_values(|b: &RawBook| *b) =~= Seq::<RawBook>::empty());
    }
    while i < n
        invariant
            n == raw_books@.len(),
            i <= n,
            required@.len() > 0,
            rv == seq_views(required@),
            filter_books_spec(raw_books@, rv) =~= out@.map_values(|b: &RawBook| *b)
                + filter_books_spec(raw_books@.skip(i as int), rv),
        decreases n - i,
    {
        proof {
            assert(raw_books@.skip(i as int)[0] == raw_books@[i as int]);
            assert(raw_books@.skip(i as int).drop_first() =~= raw_books@.skip(i + 1));
        }
        if raw_book_matches(&raw_books[i], required) {
            let ghost before = out@;
            out.push(&raw_books[i]);
            proof {
                assert(out@.map_values(|b: &RawBook| *b) =~= before.map_values(
                    |b: &RawBook| *b,
                ).push(raw_books@[i as int]));
            }
        }
        i = i + 1;
    }
    proof {
        assert(filter_books_spec(raw_books@.skip(n as int), rv) =~= Seq::<RawBook>::empty());
    }
    out
}

/// Turn filtered raw records into catalog entries, enriched with their
/// engagement numbers and given their download address.
pub fn convert_to_textbooks(raw_books: Vec<&RawBook>, statistics: &StatMap) -> (r: Vec<Textbook>)
    ensures
        r@.len() == raw_books@.len(),
        forall|i: int|
            0 <= i < r@.len() ==> {
                let b = *raw_books@[i];
                let stats = stat_values_spec(statistics.entries@, b.id@);
                &&& (#[trigger] r@[i]).id@ == b.id@
                &&& r@[i].title@ == b.title@
                &&& r@[i].cover_url@ == b.cover_url_spec()
                &&& r@[i].total_uv == stats.0
                &&& r@[i].like_count == stats.1
                &&& r@[i].download_url@ == DOWNLOAD_URL_PREFIX@ + b.id@ + DOWNLOAD_URL_SUFFIX@
            },
{
    let n = raw_books.len();
    let mut out: Vec<Textbook> = Vec::new();
    let mut i: usize = 0;
    while i < n
        invariant
            n == raw_books@.len(),
            i <= n,
            out@.len() == i,
            forall|j: int|
                0 <= j < i ==> {
                    let b = *raw_books@[j];
                    let stats = stat_values_spec(statistics.entries@, b.id@);
                    &&& (#[trigger] out@[j]).id@ == b.id@
                    &&& out@[j].title@ == b.title@
                    &&& out@[j].cover_url@ == b.cover_url_spec()
                    &&& out@[j].total_uv == stats.0
                    &&& out@[j].like_count == stats.1
                    &&& out@[j].download_url@ == DOWNLOAD_URL_PREFIX@ + b.id@
                        + DOWNLOAD_URL_SUFFIX@
                },
        decreases n - i,
    {
        let book = &raw_books[i];
        let stats = statistics.values_for(book.id.as_str());
        let mut download_url = String::from_str(DOWNLOAD_URL_PREFIX);
        download_url.append(book.id.as_str());
        download_url.append(DOWNLOAD_URL_SUFFIX);
        let cover_url = match &book.custom_properties {
            Some(cp) => match cp.first_thumbnail() {
                Some(t) => t.clone(),
                None => String::new(),
            },
            None => String::new(),
        };
        out.push(
            Textbook {
                id: book.id.clone(),
                cover_url,
                title: book.title.clone(),
                total_uv: stats.0,
                like_count: stats.1,
                download_url,
            },
        );
        i = i + 1;
    }
    out
}

/// The pure core of the textbook listing: keep the raw records whose tag
/// paths contain the required identifier sequence, then enrich each with its
/// statistics and download address.
pub fn select_textbooks(
    raw_books: &Vec<RawBook>,
    required: &Vec<String>,
    statistics: &StatMap,
) -> (r: Vec<Textbook>)
    requires
        required@.len() > 0,
    ensures
        ({
            let kept = filter_books_spec(raw_books@, seq_views(required@));
            &&& r@.len() == kept.len()
            &&& forall|i: int|
                0 <= i < r@.len() ==> {
                    let b = kept[i];
                    let stats = stat_values_spec(statistics.entries@, b.id@);
                    &&& (#[trigger] r@[i]).id@ == b.id@
                    &&& r@[i].title@ == b.title@
                    &&& r@[i].cover_url@ == b.cover_url_spec()
                    &&& r@[i].total_uv == stats.0
                    &&& r@[i].like_count == stats.1
                    &&& r@[i].download_url@ == DOWNLOAD_URL_PREFIX@ + b.id@
                        + DOWNLOAD_URL_SUFFIX@
                }
        }),
{
    let filtered = filter_books(raw_books, required);
    proof {
        assert forall|i: int|
            0 <= i < filtered@.len() implies *(#[trigger] filtered@[i]) == filter_books_spec(
            raw_books@,
            seq_views(required@),
        )[i] by {
            assert(filtered@.map_values(|b: &RawBook| *b)[i] == *filtered@[i]);
        }
    }
    convert_to_textbooks(filtered, statistics)
}

} // verus!
