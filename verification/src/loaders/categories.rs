use vstd::prelude::*;
use vstd::string::*;

use crate::text::{chars_of, string_of_range};

verus! {

/// One dispatch category: its name, its number, and its subcategories with
/// their offsets.
pub struct Category {
    pub name: String,
    pub id: u64,
    pub subcategories: Vec<(String, u64)>,
}

/// All dispatch categories.
pub struct CategoryMap {
    pub categories: Vec<Category>,
}

/// A category as plain values.
pub type CategoryEntry = (Seq<char>, u64, Seq<(Seq<char>, u64)>);

impl View for CategoryMap {
    type V = Seq<CategoryEntry>;

    open spec fn view(&self) -> Seq<CategoryEntry> {
        self.categories@.map_values(
            |c: Category| (c.name@, c.id, c.subcategories@.map_values(|p: (String, u64)| (p.0@, p.1))),
        )
    }
}

/// The categories and subcategories that dispatches can be filed under.
pub open spec fn category_table() -> Seq<CategoryEntry> {
    seq![
        ("Factbook"@, 1u64, seq![
            ("Overview"@, 0u64),
            ("History"@, 1u64),
            ("Geography"@, 2u64),
            ("Culture"@, 3u64),
            ("Politics"@, 4u64),
            ("Legislation"@, 5u64),
            ("Religion"@, 6u64),
            ("Military"@, 7u64),
            ("Economy"@, 8u64),
            ("International"@, 9u64),
            ("Trivia"@, 10u64),
            ("Miscellaneous"@, 11u64),
        ]),
        ("Bulletin"@, 3u64, seq![
            ("Policy"@, 5u64),
            ("News"@, 15u64),
            ("Opinion"@, 25u64),
            ("Campaign"@, 85u64),
        ]),
        ("Account"@, 5u64, seq![
            ("Military"@, 5u64),
            ("Trade"@, 15u64),
            ("Sport"@, 25u64),
            ("Drama"@, 35u64),
            ("Diplomacy"@, 45u64),
            ("Science"@, 55u64),
            ("Culture"@, 65u64),
            ("Other"@, 95u64),
        ]),
        ("Meta"@, 8u64, seq![
            ("Gameplay"@, 35u64),
            ("Reference"@, 45u64),
        ]),
    ]
}

fn subcategory(name: &str, offset: u64) -> (r: (String, u64))
    ensures
        r.0@ == name@,
        r.1 == offset,
{
    (String::from_str(name), offset)
}

fn category(name: &str, id: u64, subcategories: Vec<(String, u64)>) -> (r: Category)
    ensures
        r.name@ == name@,
        r.id == id,
        r.subcategories == subcategories,
{
    Category { name: String::from_str(name), id, subcategories }
}

/// Builds the table of categories.
pub fn create_category_map() -> (m: CategoryMap)
    ensures
        m@ == category_table(),
{
    let factbook = vec![
        subcategory("Overview", 0),
        subcategory("History", 1),
        subcategory("Geography", 2),
        subcategory("Culture", 3),
        subcategory("Politics", 4),
        subcategory("Legislation", 5),
        subcategory("Religion", 6),
        subcategory("Military", 7),
        subcategory("Economy", 8),
        subcategory("International", 9),
        subcategory("Trivia", 10),
        subcategory("Miscellaneous", 11),
    ];
    let bulletin = vec![
        subcategory("Policy", 5),
        subcategory("News", 15),
        subcategory("Opinion", 25),
        subcategory("Campaign", 85),
    ];
    let account = vec![
        subcategory("Military", 5),
        subcategory("Trade", 15),
        subcategory("Sport", 25),
        subcategory("Drama", 35),
        subcategory("Diplomacy", 45),
        subcategory("Science", 55),
        subcategory("Culture", 65),
        subcategory("Other", 95),
    ];
    let meta = vec![subcategory("Gameplay", 35), subcategory("Reference", 45)];
    let m = CategoryMap {
        categories: vec![
            category("Factbook", 1, factbook),
            category("Bulletin", 3, bulletin),
            category("Account", 5, account),
            category("Meta", 8, meta),
        ],
    };
    let ghost t = category_table();
    assert(m@[0].2 =~= t[0].2);
    assert(m@[1].2 =~= t[1].2);
    assert(m@[2].2 =~= t[2].2);
    assert(m@[3].2 =~= t[3].2);
    assert(m@ =~= t);
    m
}

/// The first category named `name`.
pub open spec fn find_category(t: Seq<CategoryEntry>, name: Seq<char>) -> Option<CategoryEntry>
    decreases t.len(),
{
    if t.len() == 0 {
        None
    } else if t[0].0 == name {
        Some(t[0])
    } else {
        find_category(t.drop_first(), name)
    }
}

/// The offset of the first subcategory named `name`.
pub open spec fn find_offset(subs: Seq<(Seq<char>, u64)>, name: Seq<char>) -> Option<u64>
    decreases subs.len(),
{
    if subs.len() == 0 {
        None
    } else if subs[0].0 == name {
        Some(subs[0].1)
    } else {
        find_offset(subs.drop_first(), name)
    }
}

/// `i` is the position of the first `/` in `s`.
pub open spec fn is_first_slash(s: Seq<char>, i: int) -> bool {
    &&& 0 <= i < s.len()
    &&& s[i] == '/'
    &&& forall|j: int| 0 <= j < i ==> s[j] != '/'
}

/// Why a category string was refused.
pub enum CategoryError {
    /// There is no `/` between category and subcategory (the whole string).
    MissingSeparator(String),
    /// The part before the first `/` names no category.
    UnknownCategory(String),
    /// The part after the first `/` names no subcategory of that category.
    UnknownSubcategory(String),
}

/// `CategoryError` as plain values.
pub enum CategoryErrorView {
    MissingSeparator(Seq<char>),
    UnknownCategory(Seq<char>),
    UnknownSubcategory(Seq<char>),
}

impl View for CategoryError {
    type V = CategoryErrorView;

    open spec fn view(&self) -> CategoryErrorView {
        match self {
            CategoryError::MissingSeparator(c) => CategoryErrorView::MissingSeparator(c@),
            CategoryError::UnknownCategory(c) => CategoryErrorView::UnknownCategory(c@),
            CategoryError::UnknownSubcategory(c) => CategoryErrorView::UnknownSubcategory(c@),
        }
    }
}

/// The numbers of subcategory `sub` of category `cat`, or which of the two
/// names is unknown.
pub open spec fn lookup_categories(cat: Seq<char>, sub: Seq<char>) -> Result<(u64, u64), CategoryErrorView> {
    match find_category(category_table(), cat) {
        None => Err(CategoryErrorView::UnknownCategory(cat)),
        Some(entry) => match find_offset(entry.2, sub) {
            None => Err(CategoryErrorView::UnknownSubcategory(sub)),
            Some(offset) => Ok((entry.1, (entry.1 * 100 + offset) as u64)),
        },
    }
}

/// What a category string `Category/Subcategory` stands for: the category's
/// number, and the subcategory's number, which is the category's number
/// times one hundred plus the subcategory's offset.
pub open spec fn parse_categories_spec(s: Seq<char>) -> Result<(u64, u64), CategoryErrorView> {
    if exists|i: int| is_first_slash(s, i) {
        let i: int = choose|i: int| is_first_slash(s, i);
        lookup_categories(s.subrange(0, i), s.subrange(i + 1, s.len() as int))
    } else {
        Err(CategoryErrorView::MissingSeparator(s))
    }
}

/// The result as plain values.
pub open spec fn category_result_view(r: Result<(u64, u64), CategoryError>) -> Result<(u64, u64), CategoryErrorView> {
    match r {
        Ok(v) => Ok(v),
        Err(e) => Err(e@),
    }
}

proof fn lemma_table_bounds()
    ensures
        forall|k: int| 0 <= k < category_table().len() ==> (#[trigger] category_table()[k]).1 <= 8,
        forall|k: int, j: int| 0 <= k < category_table().len() && 0 <= j < category_table()[k].2.len()
            ==> (#[trigger] category_table()[k].2[j]).1 < 100,
{
    let t = category_table();
    assert(t.len() == 4);
    assert forall|k: int, j: int| 0 <= k < t.len() && 0 <= j < t[k].2.len() implies (#[trigger] t[k].2[j]).1 < 100 by {
        if k == 0 {
            assert(t[0].2[j].1 <= 11);
        } else if k == 1 {
            assert(t[1].2[j].1 <= 85);
        } else if k == 2 {
            assert(t[2].2[j].1 <= 95);
        } else {
            assert(t[3].2[j].1 <= 45);
        }
    }
}

proof fn lemma_find_category_from(t: Seq<CategoryEntry>, name: Seq<char>)
    ensures
        find_category(t, name) matches Some(e) ==> exists|k: int| 0 <= k < t.len() && t[k] == e,
    decreases t.len(),
{
    if t.len() > 0 && t[0].0 != name {
        lemma_find_category_from(t.drop_first(), name);
        if find_category(t, name) is Some {
            let k: int = choose|k: int| 0 <= k < t.drop_first().len() && t.drop_first()[k] == find_category(t, name)->0;
            assert(t[k + 1] == find_category(t, name)->0);
        }
    }
}

proof fn lemma_find_offset_from(subs: Seq<(Seq<char>, u64)>, name: Seq<char>)
    ensures
        find_offset(subs, name) matches Some(o) ==> exists|j: int| 0 <= j < subs.len() && subs[j].1 == o,
    decreases subs.len(),
{
    if subs.len() > 0 && subs[0].0 != name {
        lemma_find_offset_from(subs.drop_first(), name);
        if find_offset(subs, name) is Some {
            let j: int = choose|j: int| 0 <= j < subs.drop_first().len() && subs.drop_first()[j].1 == find_offset(subs, name)->0;
            assert(subs[j + 1].1 == find_offset(subs, name)->0);
        }
    }
}

/// Every subcategory number lies in the hundred that its category's number
/// opens: dividing it by one hundred gives the category's number back.
pub proof fn law_subcategory_encodes_category(s: Seq<char>)
    ensures
        parse_categories_spec(s) matches Ok((c, sc)) ==> sc / 100 == c && c <= 8,
{
    if exists|i: int| is_first_slash(s, i) {
        let i: int = choose|i: int| is_first_slash(s, i);
        let cat = s.subrange(0, i);
        let sub = s.subrange(i + 1, s.len() as int);
        lemma_table_bounds();
        lemma_find_category_from(category_table(), cat);
        if let Some(entry) = find_category(category_table(), cat) {
            let k: int = choose|k: int| 0 <= k < category_table().len() && category_table()[k] == entry;
            assert(category_table()[k].1 <= 8);
            lemma_find_offset_from(entry.2, sub);
            if let Some(o) = find_offset(entry.2, sub) {
                let j: int = choose|j: int| 0 <= j < entry.2.len() && entry.2[j].1 == o;
                assert(category_table()[k].2[j].1 < 100);
            }
        }
    }
}

/// Finds the category named `name` in the table: its position, if any.
fn category_index(m: &CategoryMap, name: &String) -> (r: Option<usize>)
    ensures
        r matches Some(k) ==> k < m@.len() && find_category(m@, name@) == Some(m@[k as int]),
        r is None ==> find_category(m@, name@) is None,
{
    let mut k: usize = 0;
    assert(m@.skip(0) =~= m@);
    while k < m.categories.len()
        invariant
            k <= m@.len(),
            m@.len() == m.categories@.len(),
            find_category(m@, name@) == find_category(m@.skip(k as int), name@),
        decreases m.categories.len() - k,
    {
        assert(m@.skip(k as int)[0] == m@[k as int]);
        if m.categories[k].name == *name {
            return Some(k);
        }
        assert(m@.skip(k as int).drop_first() =~= m@.skip(k + 1));
        k = k + 1;
    }
    None
}

/// Finds the subcategory named `name`: its position, if any.
fn subcategory_index(subs: &Vec<(String, u64)>, name: &String) -> (r: Option<usize>)
    ensures
        r matches Some(j) ==> j < subs@.len() && find_offset(
            subs@.map_values(|p: (String, u64)| (p.0@, p.1)),
            name@,
        ) == Some(subs@[j as int].1),
        r is None ==> find_offset(subs@.map_values(|p: (String, u64)| (p.0@, p.1)), name@) is None,
{
    let ghost v = subs@.map_values(|p: (String, u64)| (p.0@, p.1));
    let mut j: usize = 0;
    assert(v.skip(0) =~= v);
    while j < subs.len()
        invariant
            j <= subs@.len(),
            v == subs@.map_values(|p: (String, u64)| (p.0@, p.1)),
            find_offset(v, name@) == find_offset(v.skip(j as int), name@),
        decreases subs.len() - j,
    {
        assert(v.skip(j as int)[0] == v[j as int]);
        if subs[j].0 == *name {
            return Some(j);
        }
        assert(v.skip(j as int).drop_first() =~= v.skip(j + 1));
        j = j + 1;
    }
    None
}

/// Reads a category string of the form `Category/Subcategory`.
pub fn parse_categories(category: &String) -> (r: Result<(u64, u64), CategoryError>)
    ensures
        category_result_view(r) == parse_categories_spec(category@),
{
    let cs = chars_of(category.as_str());
    let mut i: usize = 0;
    while i < cs.len() && cs[i] != '/'
        invariant
            cs@ == category@,
            i <= cs.len(),
            forall|j: int| 0 <= j < i ==> cs@[j] != '/',
        decreases cs.len() - i,
    {
        i = i + 1;
    }
    if i == cs.len() {
        assert forall|k: int| !is_first_slash(category@, k) by {
            if 0 <= k < category@.len() {
                assert(cs@[k] != '/');
            }
        }
        return Err(CategoryError::MissingSeparator(category.clone()));
    }
    assert(is_first_slash(category@, i as int));
    assert forall|k: int| is_first_slash(category@, k) implies k == i by {
        if k < i {
            assert(cs@[k] != '/');
        } else if k > i {
            assert(category@[i as int] != '/');
        }
    }
    let cat = string_of_range(&cs, 0, i);
    let sub = string_of_range(&cs, i + 1, cs.len());
    let m = create_category_map();
    match category_index(&m, &cat) {
        None => Err(CategoryError::UnknownCategory(cat)),
        Some(k) => {
            let c = &m.categories[k];
            assert(m@[k as int].2 == c.subcategories@.map_values(|p: (String, u64)| (p.0@, p.1)));
            match subcategory_index(&c.subcategories, &sub) {
                None => Err(CategoryError::UnknownSubcategory(sub)),
                Some(j) => {
                    proof {
                        lemma_table_bounds();
                        assert(category_table()[k as int].2[j as int].1 == c.subcategories@[j as int].1);
                    }
                    let offset: u64 = c.subcategories[j].1;
                    Ok((c.id, c.id * 100 + offset))
                },
            }
        },
    }
}

/// The category string that names subcategory `sub` of category `cat`.
pub open spec fn category_string(cat: Seq<char>, sub: Seq<char>) -> Seq<char> {
    cat + seq!['/'] + sub
}

/// A category string splits at its first `/`.
proof fn lemma_parse_joined(cat: Seq<char>, sub: Seq<char>)
    requires
        forall|i: int| 0 <= i < cat.len() ==> cat[i] != '/',
    ensures
        parse_categories_spec(category_string(cat, sub)) == lookup_categories(cat, sub),
{
    let p = category_string(cat, sub);
    let n = cat.len() as int;
    assert(p[n] == '/');
    assert forall|j: int| 0 <= j < n implies p[j] != '/' by {
        assert(p[j] == cat[j]);
    }
    assert(is_first_slash(p, n));
    let i: int = choose|i: int| is_first_slash(p, i);
    if i < n {
        assert(p[i] == cat[i]);
    }
    assert(i == n);
    assert(p.subrange(0, n) =~= cat);
    assert(p.subrange(n + 1, p.len() as int) =~= sub);
}

/// The first entry named `name` sits at position `k`.
proof fn lemma_find_category_at(t: Seq<CategoryEntry>, name: Seq<char>, k: int)
    requires
        0 <= k < t.len(),
        t[k].0 == name,
        forall|j: int| 0 <= j < k ==> t[j].0 != name,
    ensures
        find_category(t, name) == Some(t[k]),
    decreases k,
{
    if k > 0 {
        lemma_find_category_at(t.drop_first(), name, k - 1);
    }
}

/// The first subcategory named `name` sits at position `k`.
proof fn lemma_find_offset_at(subs: Seq<(Seq<char>, u64)>, name: Seq<char>, k: int)
    requires
        0 <= k < subs.len(),
        subs[k].0 == name,
        forall|j: int| 0 <= j < k ==> subs[j].0 != name,
    ensures
        find_offset(subs, name) == Some(subs[k].1),
    decreases k,
{
    if k > 0 {
        lemma_find_offset_at(subs.drop_first(), name, k - 1);
    }
}

/// The Bulletin subcategories and their numbers.
pub proof fn law_bulletin_numbers()
    ensures
        parse_categories_spec(category_string("Bulletin"@, "Policy"@)) == Ok::<(u64, u64), CategoryErrorView>((3, 305)),
        parse_categories_spec(category_string("Bulletin"@, "News"@)) == Ok::<(u64, u64), CategoryErrorView>((3, 315)),
        parse_categories_spec(category_string("Bulletin"@, "Opinion"@)) == Ok::<(u64, u64), CategoryErrorView>((3, 325)),
        parse_categories_spec(category_string("Bulletin"@, "Campaign"@)) == Ok::<(u64, u64), CategoryErrorView>((3, 385)),
{
    reveal_strlit("Factbook");
    reveal_strlit("Bulletin");
    reveal_strlit("Policy");
    reveal_strlit("News");
    reveal_strlit("Opinion");
    reveal_strlit("Campaign");
    let t = category_table();
    assert(t[0].0 != "Bulletin"@) by { assert(t[0].0[0] != "Bulletin"@[0]); }
    lemma_find_category_at(t, "Bulletin"@, 1);
    let subs = t[1].2;
    lemma_parse_joined("Bulletin"@, "Policy"@);
    lemma_parse_joined("Bulletin"@, "News"@);
    lemma_parse_joined("Bulletin"@, "Opinion"@);
    lemma_parse_joined("Bulletin"@, "Campaign"@);
    lemma_find_offset_at(subs, "Policy"@, 0);
    lemma_find_offset_at(subs, "News"@, 1);
    lemma_find_offset_at(subs, "Opinion"@, 2);
    lemma_find_offset_at(subs, "Campaign"@, 3);
}

/// The Factbook subcategories and their numbers.
pub proof fn law_factbook_numbers()
    ensures
        parse_categories_spec(category_string("Factbook"@, "Overview"@)) == Ok::<(u64, u64), CategoryErrorView>((1, 100)),
        parse_categories_spec(category_string("Factbook"@, "History"@)) == Ok::<(u64, u64), CategoryErrorView>((1, 101)),
        parse_categories_spec(category_string("Factbook"@, "Geography"@)) == Ok::<(u64, u64), CategoryErrorView>((1, 102)),
        parse_categories_spec(category_string("Factbook"@, "Culture"@)) == Ok::<(u64, u64), CategoryErrorView>((1, 103)),
        parse_categories_spec(category_string("Factbook"@, "Politics"@)) == Ok::<(u64, u64), CategoryErrorView>((1, 104)),
        parse_categories_spec(category_string("Factbook"@, "Legislation"@)) == Ok::<(u64, u64), CategoryErrorView>((1, 105)),
        parse_categories_spec(category_string("Factbook"@, "Religion"@)) == Ok::<(u64, u64), CategoryErrorView>((1, 106)),
        parse_categories_spec(category_string("Factbook"@, "Military"@)) == Ok::<(u64, u64), CategoryErrorView>((1, 107)),
        parse_categories_spec(category_string("Factbook"@, "Economy"@)) == Ok::<(u64, u64), CategoryErrorView>((1, 108)),
        parse_categories_spec(category_string("Factbook"@, "International"@)) == Ok::<(u64, u64), CategoryErrorView>((1, 109)),
        parse_categories_spec(category_string("Factbook"@, "Trivia"@)) == Ok::<(u64, u64), CategoryErrorView>((1, 110)),
        parse_categories_spec(category_string("Factbook"@, "Miscellaneous"@)) == Ok::<(u64, u64), CategoryErrorView>((1, 111)),
{
    reveal_strlit("Culture");
    reveal_strlit("Economy");
    reveal_strlit("Factbook");
    reveal_strlit("Geography");
    reveal_strlit("History");
    reveal_strlit("International");
    reveal_strlit("Legislation");
    reveal_strlit("Military");
    reveal_strlit("Miscellaneous");
    reveal_strlit("Overview");
    reveal_strlit("Politics");
    reveal_strlit("Religion");
    reveal_strlit("Trivia");
    let t = category_table();
    lemma_find_category_at(t, "Factbook"@, 0);
    let subs = t[0].2;
    lemma_parse_joined("Factbook"@, "Overview"@);
    lemma_find_offset_at(subs, "Overview"@, 0);
    lemma_parse_joined("Factbook"@, "History"@);
    lemma_find_offset_at(subs, "History"@, 1);
    lemma_parse_joined("Factbook"@, "Geography"@);
    lemma_find_offset_at(subs, "Geography"@, 2);
    lemma_parse_joined("Factbook"@, "Culture"@);
    assert(subs[1].0 != "Culture"@) by { assert(subs[1].0[0] != "Culture"@[0]); }
    lemma_find_offset_at(subs, "Culture"@, 3);
    lemma_parse_joined("Factbook"@, "Politics"@);
    assert(subs[0].0 != "Politics"@) by { assert(subs[0].0[0] != "Politics"@[0]); }
    lemma_find_offset_at(subs, "Politics"@, 4);
    lemma_parse_joined("Factbook"@, "Legislation"@);
    lemma_find_offset_at(subs, "Legislation"@, 5);
    lemma_parse_joined("Factbook"@, "Religion"@);
    assert(subs[0].0 != "Religion"@) by { assert(subs[0].0[0] != "Religion"@[0]); }
    assert(subs[4].0 != "Religion"@) by { assert(subs[4].0[0] != "Religion"@[0]); }
    lemma_find_offset_at(subs, "Religion"@, 6);
    lemma_parse_joined("Factbook"@, "Military"@);
    assert(subs[0].0 != "Military"@) by { assert(subs[0].0[0] != "Military"@[0]); }
    assert(subs[4].0 != "Military"@) by { assert(subs[4].0[0] != "Military"@[0]); }
    assert(subs[6].0 != "Military"@) by { assert(subs[6].0[0] != "Military"@[0]); }
    lemma_find_offset_at(subs, "Military"@, 7);
    lemma_parse_joined("Factbook"@, "Economy"@);
    assert(subs[1].0 != "Economy"@) by { assert(subs[1].0[0] != "Economy"@[0]); }
    assert(subs[3].0 != "Economy"@) by { assert(subs[3].0[0] != "Economy"@[0]); }
    lemma_find_offset_at(subs, "Economy"@, 8);
    lemma_parse_joined("Factbook"@, "International"@);
    lemma_find_offset_at(subs, "International"@, 9);
    lemma_parse_joined("Factbook"@, "Trivia"@);
    lemma_find_offset_at(subs, "Trivia"@, 10);
    lemma_parse_joined("Factbook"@, "Miscellaneous"@);
    assert(subs[9].0 != "Miscellaneous"@) by { assert(subs[9].0[0] != "Miscellaneous"@[0]); }
    lemma_find_offset_at(subs, "Miscellaneous"@, 11);
}

/// The Account subcategories and their numbers.
pub proof fn law_account_numbers()
    ensures
        parse_categories_spec(category_string("Account"@, "Military"@)) == Ok::<(u64, u64), CategoryErrorView>((5, 505)),
        parse_categories_spec(category_string("Account"@, "Trade"@)) == Ok::<(u64, u64), CategoryErrorView>((5, 515)),
        parse_categories_spec(category_string("Account"@, "Sport"@)) == Ok::<(u64, u64), CategoryErrorView>((5, 525)),
        parse_categories_spec(category_string("Account"@, "Drama"@)) == Ok::<(u64, u64), CategoryErrorView>((5, 535)),
        parse_categories_spec(category_string("Account"@, "Diplomacy"@)) == Ok::<(u64, u64), CategoryErrorView>((5, 545)),
        parse_categories_spec(category_string("Account"@, "Science"@)) == Ok::<(u64, u64), CategoryErrorView>((5, 555)),
        parse_categories_spec(category_string("Account"@, "Culture"@)) == Ok::<(u64, u64), CategoryErrorView>((5, 565)),
        parse_categories_spec(category_string("Account"@, "Other"@)) == Ok::<(u64, u64), CategoryErrorView>((5, 595)),
{
    reveal_strlit("Account");
    reveal_strlit("Bulletin");
    reveal_strlit("Culture");
    reveal_strlit("Diplomacy");
    reveal_strlit("Drama");
    reveal_strlit("Factbook");
    reveal_strlit("Military");
    reveal_strlit("Other");
    reveal_strlit("Science");
    reveal_strlit("Sport");
    reveal_strlit("Trade");
    let t = category_table();
    lemma_find_category_at(t, "Account"@, 2);
    let subs = t[2].2;
    lemma_parse_joined("Account"@, "Military"@);
    lemma_find_offset_at(subs, "Military"@, 0);
    lemma_parse_joined("Account"@, "Trade"@);
    lemma_find_offset_at(subs, "Trade"@, 1);
    lemma_parse_joined("Account"@, "Sport"@);
    assert(subs[1].0 != "Sport"@) by { assert(subs[1].0[0] != "Sport"@[0]); }
    lemma_find_offset_at(subs, "Sport"@, 2);
    lemma_parse_joined("Account"@, "Drama"@);
    assert(subs[1].0 != "Drama"@) by { assert(subs[1].0[0] != "Drama"@[0]); }
    assert(subs[2].0 != "Drama"@) by { assert(subs[2].0[0] != "Drama"@[0]); }
    lemma_find_offset_at(subs, "Drama"@, 3);
    lemma_parse_joined("Account"@, "Diplomacy"@);
    lemma_find_offset_at(subs, "Diplomacy"@, 4);
    lemma_parse_joined("Account"@, "Science"@);
    lemma_find_offset_at(subs, "Science"@, 5);
    lemma_parse_joined("Account"@, "Culture"@);
    assert(subs[5].0 != "Culture"@) by { assert(subs[5].0[0] != "Culture"@[0]); }
    lemma_find_offset_at(subs, "Culture"@, 6);
    lemma_parse_joined("Account"@, "Other"@);
    assert(subs[1].0 != "Other"@) by { assert(subs[1].0[0] != "Other"@[0]); }
    assert(subs[2].0 != "Other"@) by { assert(subs[2].0[0] != "Other"@[0]); }
    assert(subs[3].0 != "Other"@) by { assert(subs[3].0[0] != "Other"@[0]); }
    lemma_find_offset_at(subs, "Other"@, 7);
}

/// The Meta subcategories and their numbers.
pub proof fn law_meta_numbers()
    ensures
        parse_categories_spec(category_string("Meta"@, "Gameplay"@)) == Ok::<(u64, u64), CategoryErrorView>((8, 835)),
        parse_categories_spec(category_string("Meta"@, "Reference"@)) == Ok::<(u64, u64), CategoryErrorView>((8, 845)),
{
    reveal_strlit("Account");
    reveal_strlit("Bulletin");
    reveal_strlit("Factbook");
    reveal_strlit("Gameplay");
    reveal_strlit("Meta");
    reveal_strlit("Reference");
    let t = category_table();
    lemma_find_category_at(t, "Meta"@, 3);
    let subs = t[3].2;
    lemma_parse_joined("Meta"@, "Gameplay"@);
    lemma_find_offset_at(subs, "Gameplay"@, 0);
    lemma_parse_joined("Meta"@, "Reference"@);
    lemma_find_offset_at(subs, "Reference"@, 1);
}

} // verus!
