//! Steam's `libraryfolders.vdf`: the KeyValues document that lists Steam
//! library folders, and the library paths read out of it.
use vstd::prelude::*;
use crate::text::{chars_eq_ignore_ascii_case, chars_of, eq_ignore_case, push_char};

verus! {

broadcast use vstd::string::group_string_axioms;

/// A KeyValues value: a string, or an object mapping keys to the values
/// given under them (a key may be given several times).
#[derive(Debug)]
pub enum VdfValue {
    Str(String),
    Obj(Vec<VdfEntry>),
}

/// One key of an object with all the values given under it, in order.
#[derive(Debug)]
pub struct VdfEntry {
    pub key: String,
    pub values: Vec<VdfValue>,
}

#[verifier::external_type_specification]
#[verifier::external_body]
pub struct ExKeyValuesValue<'a>(keyvalues_parser::Value<'a>);

/// What `keyvalues_parser::parse` yields for a text, taken to its top-level
/// value (`Vdf::from` drops the `#base` directives and the top-level key):
/// `None` where the parser reports an error.
pub uninterp spec fn vdf_document(text: Seq<char>) -> Option<VdfValue>;

/// Calls `keyvalues_parser::parse` (escaped strings, as `parse` does by
/// default) and converts the top-level value. The contract claims only that
/// the result is `vdf_document` of the text: the grammar is the parser's.
#[verifier::external_body]
fn parse_vdf(text: &str) -> (r: Option<VdfValue>)
    ensures
        r == vdf_document(text@),
{
    match keyvalues_parser::parse(text) {
        Ok(partial) => Some(convert_value(&keyvalues_parser::Vdf::from(partial).value)),
        Err(_) => None,
    }
}

/// Converts a parsed `keyvalues_parser::Value` into a `VdfValue`, one for
/// one: strings are copied, object entries keep the parser's key order.
#[verifier::external_body]
fn convert_value(v: &keyvalues_parser::Value<'_>) -> VdfValue {
    match v {
        keyvalues_parser::Value::Str(s) => VdfValue::Str(s.to_string()),
        keyvalues_parser::Value::Obj(obj) => VdfValue::Obj(
            obj.iter().map(|(k, vs)| VdfEntry {
                key: k.to_string(),
                values: vs.iter().map(convert_value).collect(),
            }).collect(),
        ),
    }
}

// ---------------------------------------------------------------------------
// The paths in a document.
// ---------------------------------------------------------------------------

/// Every doubled backslash replaced by one, scanning left to right without
/// overlap (std's `str::replace("\\\\", "\\")`).
pub open spec fn collapse_backslashes(s: Seq<char>) -> Seq<char>
    decreases s.len(),
{
    if s.len() >= 2 && s[0] == '\\' && s[1] == '\\' {
        seq!['\\'] + collapse_backslashes(s.skip(2))
    } else if s.len() >= 1 {
        seq![s[0]] + collapse_backslashes(s.drop_first())
    } else {
        Seq::empty()
    }
}

/// The string values among `vs`, in order, each with backslashes collapsed.
pub open spec fn string_paths(vs: Seq<VdfValue>) -> Seq<Seq<char>>
    decreases vs.len(),
{
    if vs.len() == 0 {
        Seq::empty()
    } else {
        string_paths(vs.drop_last()) + match vs.last() {
            VdfValue::Str(s) => seq![collapse_backslashes(s@)],
            VdfValue::Obj(_) => Seq::empty(),
        }
    }
}

/// Whether a key is `path`, ignoring ASCII case.
pub open spec fn is_path_key(k: Seq<char>) -> bool {
    eq_ignore_case(k, seq!['p', 'a', 't', 'h'])
}

/// The paths given in one library folder object: the string values of its
/// `path` keys, in entry order.
pub open spec fn folder_paths(es: Seq<VdfEntry>) -> Seq<Seq<char>>
    decreases es.len(),
{
    if es.len() == 0 {
        Seq::empty()
    } else {
        folder_paths(es.drop_last()) + if is_path_key(es.last().key@) {
            string_paths(es.last().values@)
        } else {
            Seq::empty()
        }
    }
}

/// The paths given in the values under one top-level key: for each object
/// value, its folder paths.
pub open spec fn section_paths(vs: Seq<VdfValue>) -> Seq<Seq<char>>
    decreases vs.len(),
{
    if vs.len() == 0 {
        Seq::empty()
    } else {
        section_paths(vs.drop_last()) + match vs.last() {
            VdfValue::Obj(es) => folder_paths(es@),
            VdfValue::Str(_) => Seq::empty(),
        }
    }
}

/// The paths given under all top-level keys, in the order of the entries.
pub open spec fn root_entry_paths(es: Seq<VdfEntry>) -> Seq<Seq<char>>
    decreases es.len(),
{
    if es.len() == 0 {
        Seq::empty()
    } else {
        root_entry_paths(es.drop_last()) + section_paths(es.last().values@)
    }
}

/// The library paths of a document: none unless its top-level value is an object.
pub open spec fn document_paths(doc: VdfValue) -> Seq<Seq<char>> {
    match doc {
        VdfValue::Obj(es) => root_entry_paths(es@),
        VdfValue::Str(_) => Seq::empty(),
    }
}

/// The views of a sequence of strings.
pub open spec fn string_views(v: Seq<String>) -> Seq<Seq<char>> {
    v.map_values(|s: String| s@)
}

proof fn lemma_string_views_push(v: Seq<String>, s: String)
    ensures
        string_views(v.push(s)) == string_views(v).push(s@),
{
    assert(string_views(v.push(s)) =~= string_views(v).push(s@));
}

/// Collapses doubled backslashes (std's `str::replace("\\\\", "\\")`).
pub fn collapse_double_backslashes(s: &str) -> (r: String)
    ensures
        r@ == collapse_backslashes(s@),
{
    let cs = chars_of(s);
    let mut out = String::new();
    let mut i: usize = 0;
    assert(cs@.skip(0) =~= cs@);
    while i < cs.len()
        invariant
            i <= cs@.len(),
            cs@ == s@,
            out@ + collapse_backslashes(cs@.skip(i as int)) == collapse_backslashes(s@),
        decreases cs@.len() - i,
    {
        let ghost rest = cs@.skip(i as int);
        let ghost out0 = out@;
        if i + 1 < cs.len() && cs[i] == '\\' && cs[i + 1] == '\\' {
            push_char(&mut out, '\\');
            assert(rest.skip(2) =~= cs@.skip(i + 2));
            assert(collapse_backslashes(rest) == seq!['\\'] + collapse_backslashes(rest.skip(2)));
            assert(out@ + collapse_backslashes(cs@.skip(i + 2)) =~= out0 + collapse_backslashes(rest));
            i = i + 2;
        } else {
            let c = cs[i];
            push_char(&mut out, c);
            assert(rest.drop_first() =~= cs@.skip(i + 1));
            assert(collapse_backslashes(rest) == seq![c] + collapse_backslashes(rest.drop_first()));
            assert(out@ + collapse_backslashes(cs@.skip(i + 1)) =~= out0 + collapse_backslashes(rest));
            i = i + 1;
        }
    }
    assert(cs@.skip(i as int) =~= Seq::<char>::empty());
    assert(out@ + Seq::<char>::empty() =~= out@);
    out
}

fn push_string_paths(vs: &Vec<VdfValue>, out: &mut Vec<String>)
    ensures
        string_views(final(out)@) == string_views(old(out)@) + string_paths(vs@),
{
    let mut i: usize = 0;
    while i < vs.len()
        invariant
            i <= vs@.len(),
            string_views(out@) == string_views(old(out)@) + string_paths(vs@.take(i as int)),
        decreases vs@.len() - i,
    {
        let ghost before = out@;
        let ghost t = vs@.take(i + 1);
        assert(t.drop_last() =~= vs@.take(i as int));
        match &vs[i] {
            VdfValue::Str(s) => {
                let p = collapse_double_backslashes(s.as_str());
                out.push(p);
                proof {
                    lemma_string_views_push(before, p);
                }
            },
            VdfValue::Obj(_) => {},
        }
        i = i + 1;
    }
    assert(vs@.take(vs@.len() as int) =~= vs@);
}

fn is_path_key_exec(k: &String) -> (r: bool)
    ensures
        r == is_path_key(k@),
{
    let kc = chars_of(k.as_str());
    let path: [char; 4] = ['p', 'a', 't', 'h'];
    assert(path@ =~= seq!['p', 'a', 't', 'h']);
    chars_eq_ignore_ascii_case(kc.as_slice(), path.as_slice())
}

fn push_folder_paths(es: &Vec<VdfEntry>, out: &mut Vec<String>)
    ensures
        string_views(final(out)@) == string_views(old(out)@) + folder_paths(es@),
{
    let mut i: usize = 0;
    while i < es.len()
        invariant
            i <= es@.len(),
            string_views(out@) == string_views(old(out)@) + folder_paths(es@.take(i as int)),
        decreases es@.len() - i,
    {
        let ghost t = es@.take(i + 1);
        assert(t.drop_last() =~= es@.take(i as int));
        let e = &es[i];
        if is_path_key_exec(&e.key) {
            push_string_paths(&e.values, out);
        }
        i = i + 1;
    }
    assert(es@.take(es@.len() as int) =~= es@);
}

fn push_section_paths(vs: &Vec<VdfValue>, out: &mut Vec<String>)
    ensures
        string_views(final(out)@) == string_views(old(out)@) + section_paths(vs@),
{
    let mut i: usize = 0;
    while i < vs.len()
        invariant
            i <= vs@.len(),
            string_views(out@) == string_views(old(out)@) + section_paths(vs@.take(i as int)),
        decreases vs@.len() - i,
    {
        let ghost t = vs@.take(i + 1);
        assert(t.drop_last() =~= vs@.take(i as int));
        match &vs[i] {
            VdfValue::Obj(es) => {
                push_folder_paths(es, out);
            },
            VdfValue::Str(_) => {},
        }
        i = i + 1;
    }
    assert(vs@.take(vs@.len() as int) =~= vs@);
}

/// The library paths of a parsed document: under every top-level key (in the
/// parser's key order, which sorts an object's keys), every object value's
/// `path` keys (any ASCII case, again in key order), their string values in
/// the order given, with doubled backslashes collapsed. `None` when there are none.
pub fn library_paths_of(doc: &VdfValue) -> (r: Option<Vec<String>>)
    ensures
        match r {
            Some(paths) => document_paths(*doc).len() > 0 && string_views(paths@)
                == document_paths(*doc),
            None => document_paths(*doc).len() == 0,
        },
{
    let mut out: Vec<String> = Vec::new();
    match doc {
        VdfValue::Obj(es) => {
            let mut i: usize = 0;
            while i < es.len()
                invariant
                    i <= es@.len(),
                    string_views(out@) == root_entry_paths(es@.take(i as int)),
                decreases es@.len() - i,
            {
                let ghost t = es@.take(i + 1);
                assert(t.drop_last() =~= es@.take(i as int));
                push_section_paths(&es[i].values, &mut out);
                i = i + 1;
            }
            assert(es@.take(es@.len() as int) =~= es@);
        },
        VdfValue::Str(_) => {
            assert(string_views(out@) =~= Seq::<Seq<char>>::empty());
        },
    }
    if out.len() == 0 {
        None
    } else {
        Some(out)
    }
}

/// Reads the Steam library paths out of the text of `libraryfolders.vdf`.
/// `None` when the text does not parse or lists no path.
pub fn extract_library_paths(content: &str) -> (r: Option<Vec<String>>)
    ensures
        match vdf_document(content@) {
            None => r is None,
            Some(doc) => match r {
                Some(paths) => document_paths(doc).len() > 0 && string_views(paths@)
                    == document_paths(doc),
                None => document_paths(doc).len() == 0,
            },
        },
{
    match parse_vdf(content) {
        Some(doc) => library_paths_of(&doc),
        None => None,
    }
}

} // verus!
