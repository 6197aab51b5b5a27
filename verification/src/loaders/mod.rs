use vstd::prelude::*;
use vstd::string::*;

use crate::text::{chars_of, string_of_range};

pub mod categories;
pub mod metadata;

verus! {

/// Position of the last `c` in `s`, or -1.
pub open spec fn last_index_of(s: Seq<char>, c: char) -> int
    decreases s.len(),
{
    if s.len() == 0 {
        -1
    } else if s.last() == c {
        s.len() - 1
    } else {
        last_index_of(s.drop_last(), c)
    }
}

/// Position of the first `.` at or after `k`, or -1.
pub open spec fn first_dot_from(s: Seq<char>, k: int) -> int
    decreases s.len() - k,
{
    if k < 0 || k >= s.len() {
        -1
    } else if s[k] == '.' {
        k
    } else {
        first_dot_from(s, k + 1)
    }
}

/// The final component of a `/`-separated path: separators at the end and
/// `.` components are passed over; a path that ends in `..`, or that has no
/// component left, has none.
pub open spec fn file_name_of(p: Seq<char>) -> Option<Seq<char>>
    decreases p.len(),
{
    if p.len() == 0 {
        None
    } else if p.last() == '/' {
        file_name_of(p.drop_last())
    } else {
        let k: int = last_index_of(p, '/');
        let seg = p.subrange(k + 1, p.len() as int);
        if seg == seq!['.'] {
            proof {
                lemma_last_index_bounds(p, '/');
            }
            file_name_of(p.subrange(0, k + 1))
        } else if seg == seq!['.', '.'] {
            None
        } else {
            Some(seg)
        }
    }
}

/// What follows the last `.` of a file name, unless that `.` opens the name.
pub open spec fn extension_of_name(n: Seq<char>) -> Option<Seq<char>> {
    let d: int = last_index_of(n, '.');
    if d > 0 {
        Some(n.subrange(d + 1, n.len() as int))
    } else {
        None
    }
}

/// What precedes the first `.` of a file name that does not open it; the
/// whole name where there is none.
pub open spec fn prefix_of_name(n: Seq<char>) -> Seq<char> {
    let d: int = first_dot_from(n, 1);
    if d > 0 {
        n.subrange(0, d)
    } else {
        n
    }
}

pub proof fn lemma_last_index_bounds(s: Seq<char>, c: char)
    ensures
        -1 <= last_index_of(s, c) < s.len(),
        last_index_of(s, c) >= 0 ==> s[last_index_of(s, c)] == c,
        forall|j: int| last_index_of(s, c) < j < s.len() ==> s[j] != c,
    decreases s.len(),
{
    if s.len() > 0 && s.last() != c {
        lemma_last_index_bounds(s.drop_last(), c);
        assert forall|j: int| last_index_of(s, c) < j < s.len() implies s[j] != c by {
            if j < s.len() - 1 {
                assert(s[j] == s.drop_last()[j]);
            }
        }
    }
}

/// Position of the last `c` in `cs[..end]`, or `None`.
fn last_index_in(cs: &Vec<char>, end: usize, c: char) -> (r: Option<usize>)
    requires
        end <= cs.len(),
    ensures
        r matches Some(k) ==> k < end && k == last_index_of(cs@.subrange(0, end as int), c),
        r is None ==> last_index_of(cs@.subrange(0, end as int), c) == -1,
    decreases end,
{
    if end == 0 {
        None
    } else if cs[end - 1] == c {
        Some(end - 1)
    } else {
        assert(cs@.subrange(0, end as int).drop_last() =~= cs@.subrange(0, end - 1));
        last_index_in(cs, end - 1, c)
    }
}

/// The bounds of the final component of `cs[..end]`.
fn file_name_range(cs: &Vec<char>, end: usize) -> (r: Option<(usize, usize)>)
    requires
        end <= cs.len(),
    ensures
        r matches Some((a, b)) ==> a < b <= end && file_name_of(cs@.subrange(0, end as int))
            == Some(cs@.subrange(a as int, b as int)),
        r is None ==> file_name_of(cs@.subrange(0, end as int)) is None,
    decreases end,
{
    let ghost p = cs@.subrange(0, end as int);
    if end == 0 {
        return None;
    }
    if cs[end - 1] == '/' {
        assert(p.drop_last() =~= cs@.subrange(0, end - 1));
        return file_name_range(cs, end - 1);
    }
    let start: usize = match last_index_in(cs, end, '/') {
        Some(k) => k + 1,
        None => 0,
    };
    proof {
        lemma_last_index_bounds(p, '/');
    }
    assert(p.subrange(last_index_of(p, '/') + 1, p.len() as int) =~= cs@.subrange(start as int, end as int));
    if end - start == 1 && cs[start] == '.' {
        assert(cs@.subrange(start as int, end as int) =~= seq!['.']);
        assert(p.subrange(0, last_index_of(p, '/') + 1) =~= cs@.subrange(0, start as int));
        return file_name_range(cs, start);
    }
    if end - start == 2 && cs[start] == '.' && cs[start + 1] == '.' {
        assert(cs@.subrange(start as int, end as int) =~= seq!['.', '.']);
        return None;
    }
    if end - start == 1 {
        assert(cs@.subrange(start as int, end as int) != seq!['.']) by {
            assert(cs@.subrange(start as int, end as int)[0] == cs@[start as int]);
        }
    }
    if end - start == 2 {
        assert(cs@.subrange(start as int, end as int) != seq!['.', '.']) by {
            assert(cs@.subrange(start as int, end as int)[0] == cs@[start as int]);
            assert(cs@.subrange(start as int, end as int)[1] == cs@[start + 1]);
        }
    }
    Some((start, end))
}

/// The extension of the file that `path` names, as `Path::extension` gives it.
pub fn extension(path: &str) -> (r: Option<String>)
    ensures
        r matches Some(e) ==> file_name_of(path@) matches Some(n) && extension_of_name(n) == Some(e@),
        r is None ==> (file_name_of(path@) matches Some(n) ==> extension_of_name(n) is None),
{
    let cs = chars_of(path);
    assert(cs@.subrange(0, cs@.len() as int) =~= path@);
    match file_name_range(&cs, cs.len()) {
        None => None,
        Some((a, b)) => {
            let ghost n = cs@.subrange(a as int, b as int);
            match last_index_in(&cs, b, '.') {
                Some(d) => {
                    proof {
                        lemma_last_index_bounds(cs@.subrange(0, b as int), '.');
                        lemma_last_index_shift(cs@, a as int, b as int, '.');
                    }
                    if d > a {
                        let e = string_of_range(&cs, d + 1, b);
                        assert(n.subrange(d - a + 1, n.len() as int) =~= cs@.subrange(d + 1, b as int));
                        Some(e)
                    } else {
                        None
                    }
                },
                None => {
                    proof {
                        lemma_last_index_shift(cs@, a as int, b as int, '.');
                    }
                    None
                },
            }
        },
    }
}

/// Relates the last `c` in `s[a..b]` to the last `c` in `s[..b]`.
proof fn lemma_last_index_shift(s: Seq<char>, a: int, b: int, c: char)
    requires
        0 <= a <= b <= s.len(),
    ensures
        last_index_of(s.subrange(0, b), c) >= a ==> last_index_of(s.subrange(a, b), c)
            == last_index_of(s.subrange(0, b), c) - a,
        last_index_of(s.subrange(0, b), c) < a ==> last_index_of(s.subrange(a, b), c) == -1,
    decreases b - a,
{
    if b > a {
        assert(s.subrange(0, b).drop_last() =~= s.subrange(0, b - 1));
        assert(s.subrange(a, b).drop_last() =~= s.subrange(a, b - 1));
        lemma_last_index_shift(s, a, b - 1, c);
    } else {
        assert(s.subrange(a, b).len() == 0);
        lemma_last_index_bounds(s.subrange(0, b), c);
    }
}

/// The name of the file that `path` names up to its first `.` that does not
/// open it, as `Path::file_prefix` gives it.
pub fn file_prefix(path: &str) -> (r: Option<String>)
    ensures
        r matches Some(p) ==> file_name_of(path@) matches Some(n) && prefix_of_name(n) == p@,
        r is None ==> file_name_of(path@) is None,
{
    let cs = chars_of(path);
    assert(cs@.subrange(0, cs@.len() as int) =~= path@);
    match file_name_range(&cs, cs.len()) {
        None => None,
        Some((a, b)) => {
            let ghost n = cs@.subrange(a as int, b as int);
            let mut k: usize = a + 1;
            while k < b && cs[k] != '.'
                invariant
                    a < k,
                    k <= b || b == a,
                    b <= cs.len(),
                    n == cs@.subrange(a as int, b as int),
                    first_dot_from(n, 1) == first_dot_from(n, k - a),
                decreases b - k,
            {
                assert(n[k - a] == cs@[k as int]);
                k = k + 1;
            }
            if k < b {
                assert(n[k - a] == '.');
                let p = string_of_range(&cs, a, k);
                assert(n.subrange(0, k - a) =~= cs@.subrange(a as int, k as int));
                Some(p)
            } else {
                assert(first_dot_from(n, k - a) == -1);
                let p = string_of_range(&cs, a, b);
                Some(p)
            }
        },
    }
}

/// The formats that parameter files are read in.
pub enum ParameterFormat {
    Json,
    Toml,
}

/// The format of a parameter file, by its extension: `json` or `toml`; other
/// files are not parameter files.
pub fn parameter_format(path: &str) -> (r: Option<ParameterFormat>)
    ensures
        r matches Some(ParameterFormat::Json) <==> (file_name_of(path@) matches Some(n)
            && extension_of_name(n) == Some("json"@)),
        r matches Some(ParameterFormat::Toml) <==> (file_name_of(path@) matches Some(n)
            && extension_of_name(n) == Some("toml"@)),
{
    let json = String::from_str("json");
    let toml = String::from_str("toml");
    proof {
        reveal_strlit("json");
        reveal_strlit("toml");
        assert("json"@ != "toml"@) by {
            assert("json"@[0] != "toml"@[0]);
        }
    }
    match extension(path) {
        Some(e) => {
            if e == json {
                Some(ParameterFormat::Json)
            } else if e == toml {
                Some(ParameterFormat::Toml)
            } else {
                None
            }
        },
        None => None,
    }
}

/// The name under which a supporting template file is registered:
/// `directory/prefix` for a file with the extension `tmpl`; other files are
/// not templates.
pub fn supporting_template_name(directory: &str, path: &str) -> (r: Option<String>)
    ensures
        r is Some <==> (file_name_of(path@) matches Some(n) && extension_of_name(n) == Some("tmpl"@)),
        r matches Some(name) ==> (file_name_of(path@) matches Some(n) && name@ == directory@ + "/"@
            + prefix_of_name(n)),
{
    let tmpl = String::from_str("tmpl");
    match extension(path) {
        Some(e) => {
            if e == tmpl {
                match file_prefix(path) {
                    Some(prefix) => {
                        let name = String::from_str(directory).concat("/").concat(prefix.as_str());
                        Some(name)
                    },
                    None => None,
                }
            } else {
                None
            }
        },
        None => None,
    }
}

/// `serde_json::Value`, the document tree that parameter files are read into.
#[verifier::external_type_specification]
#[verifier::external_body]
pub struct ExJsonValue(serde_json::Value);

/// Whether `serde_json` reads `text` as one JSON document.
pub uninterp spec fn json_document(text: Seq<char>) -> bool;

/// Whether `toml` reads `text` as one TOML document.
pub uninterp spec fn toml_document(text: Seq<char>) -> bool;

/// The tree that `serde_json` reads from `text`, where it reads one.
pub uninterp spec fn json_value(text: Seq<char>) -> serde_json::Value;

/// The tree that `toml` reads from `text`, where it reads one.
pub uninterp spec fn toml_value(text: Seq<char>) -> serde_json::Value;

/// `serde_json::from_str::<serde_json::Value>`: the contract claims that it
/// gives a tree exactly on the texts that `json_document` holds for, and that
/// the tree is `json_value` of the text, so the same text gives the same tree.
#[verifier::external_body]
fn parse_json_value(text: &str) -> (r: Option<serde_json::Value>)
    ensures
        r is Some <==> json_document(text@),
        r matches Some(v) ==> v == json_value(text@),
{
    serde_json::from_str::<serde_json::Value>(text).ok()
}

/// `toml::from_str::<serde_json::Value>`: the contract claims that it gives a
/// tree exactly on the texts that `toml_document` holds for, and that the tree
/// is `toml_value` of the text, so the same text gives the same tree.
#[verifier::external_body]
fn parse_toml_value(text: &str) -> (r: Option<serde_json::Value>)
    ensures
        r is Some <==> toml_document(text@),
        r matches Some(v) ==> v == toml_value(text@),
{
    toml::from_str::<serde_json::Value>(text).ok()
}

/// The file at `path` is a parameter file in this format.
pub open spec fn has_extension(path: Seq<char>, ext: Seq<char>) -> bool {
    file_name_of(path) matches Some(n) && extension_of_name(n) == Some(ext)
}

/// What a file with the text `contents` adds to the parameters: `None` where
/// it is no parameter file (its extension is neither `json` nor `toml`);
/// `Some(None)` where its text does not parse in the format its extension
/// names; else the tree parsed from the text, under the file's name up to its first `.`
/// that does not open it.
pub fn parameter_entry(path: &str, contents: &str) -> (r: Option<Option<(Option<String>, serde_json::Value)>>)
    ensures
        r is None <==> !(has_extension(path@, "json"@) || has_extension(path@, "toml"@)),
        has_extension(path@, "json"@) ==> (r matches Some(Some(_)) <==> json_document(contents@)),
        has_extension(path@, "toml"@) ==> (r matches Some(Some(_)) <==> toml_document(contents@)),
        r matches Some(Some((k, _))) ==> (k matches Some(kk) && file_name_of(path@) matches Some(n)
            && kk@ == prefix_of_name(n)),
        r matches Some(Some((_, v))) ==> (has_extension(path@, "json"@) ==> v == json_value(contents@))
            && (has_extension(path@, "toml"@) ==> v == toml_value(contents@)),
{
    let parsed = match parameter_format(path) {
        None => {
            return None;
        },
        Some(ParameterFormat::Json) => parse_json_value(contents),
        Some(ParameterFormat::Toml) => parse_toml_value(contents),
    };
    match parsed {
        None => Some(None),
        Some(value) => Some(Some((file_prefix(path), value))),
    }
}

} // verus!
