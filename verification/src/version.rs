//! Release tags: which ones name a legacy (pre-1.1) build.
use vstd::prelude::*;
use crate::text::{
    span, lemma_span_is, lemma_span_facts, parse_i32, parse_i32_chars, chars_of, slice_skip,
    slice_take, decimal, lemma_decimal_digits, is_digit,
};

verus! {

/// Number of leading `v` characters (what `trim_start_matches('v')` drops).
pub open spec fn v_prefix_len(s: Seq<char>) -> nat {
    span(s, |c: char| c == 'v')
}

/// Length of the first `.`-separated field.
pub open spec fn field_len(s: Seq<char>) -> nat {
    span(s, |c: char| c != '.')
}

/// The tag without its leading `v`s.
pub open spec fn tag_core(tag: Seq<char>) -> Seq<char> {
    tag.skip(v_prefix_len(tag) as int)
}

/// The first `.`-separated field of `s`.
pub open spec fn first_field(s: Seq<char>) -> Seq<char> {
    s.take(field_len(s) as int)
}

/// Whether `s` has a second field, i.e. holds a `.`.
pub open spec fn has_second_field(s: Seq<char>) -> bool {
    field_len(s) < s.len()
}

/// The second `.`-separated field of `s`.
pub open spec fn second_field(s: Seq<char>) -> Seq<char> {
    first_field(s.skip(field_len(s) + 1int))
}

/// A tag names a legacy build when, after its leading `v`s, the major
/// number parses below 1, or it is 1 and the minor number parses below 1.
pub open spec fn legacy_tag(tag: Seq<char>) -> bool {
    let core = tag_core(tag);
    match parse_i32(first_field(core)) {
        Some(major) => major < 1 || (major == 1 && has_second_field(core) && match parse_i32(
            second_field(core),
        ) {
            Some(minor) => minor < 1,
            None => false,
        }),
        None => false,
    }
}

fn v_prefix_exec(s: &[char]) -> (n: usize)
    ensures
        n == v_prefix_len(s@),
        n <= s@.len(),
{
    let mut i: usize = 0;
    while i < s.len() && s[i] == 'v'
        invariant
            i <= s@.len(),
            forall|j: int| 0 <= j < i ==> s@[j] == 'v',
        decreases s@.len() - i,
    {
        i = i + 1;
    }
    proof {
        let p = |c: char| c == 'v';
        assert forall|j: int| 0 <= j < i implies #[trigger] p(s@[j]) by {}
        lemma_span_is(s@, p, i as int);
    }
    i
}

fn field_len_exec(s: &[char]) -> (n: usize)
    ensures
        n == field_len(s@),
        n <= s@.len(),
{
    let mut i: usize = 0;
    while i < s.len() && s[i] != '.'
        invariant
            i <= s@.len(),
            forall|j: int| 0 <= j < i ==> s@[j] != '.',
        decreases s@.len() - i,
    {
        i = i + 1;
    }
    proof {
        let p = |c: char| c != '.';
        assert forall|j: int| 0 <= j < i implies #[trigger] p(s@[j]) by {}
        lemma_span_is(s@, p, i as int);
    }
    i
}

/// Whether a release tag names a legacy build (major version below 1, or
/// 1 with a minor version below 1), after stripping leading `v`s.
pub fn is_legacy_version(tag: &str) -> (r: bool)
    ensures
        r == legacy_tag(tag@),
{
    let chars = chars_of(tag);
    let n = v_prefix_exec(chars.as_slice());
    let core = slice_skip(chars.as_slice(), n);
    let k = field_len_exec(core);
    proof {
        lemma_span_facts(core@, |c: char| c != '.');
    }
    let major_field = slice_take(core, k);
    match parse_i32_chars(major_field) {
        Some(major) => {
            if major < 1 {
                return true;
            }
            if major == 1 && k < core.len() {
                let rest = slice_skip(core, k + 1);
                let k2 = field_len_exec(rest);
                proof {
                    lemma_span_facts(rest@, |c: char| c != '.');
                }
                let minor_field = slice_take(rest, k2);
                if let Some(minor) = parse_i32_chars(minor_field) {
                    if minor < 1 {
                        return true;
                    }
                }
            }
            false
        },
        None => false,
    }
}

/// Leading `v`s do not matter: a tag and the same tag with one more `v`
/// in front are legacy alike.
pub proof fn lemma_legacy_ignores_v_prefix(tag: Seq<char>)
    ensures
        legacy_tag(seq!['v'] + tag) == legacy_tag(tag),
{
    let t = seq!['v'] + tag;
    let p = |c: char| c == 'v';
    assert(t.drop_first() =~= tag);
    assert(span(t, p) == 1 + span(tag, p));
    lemma_span_facts(tag, p);
    assert(t.skip(span(t, p) as int) =~= tag.skip(span(tag, p) as int));
}

/// How the numbers decide: a major number below 1 is legacy, above 1 is
/// not; with major number 1, the tag is legacy exactly when it has a minor
/// number that parses to some `m < 1`; a major field that does not parse
/// is never legacy.
pub proof fn lemma_legacy_by_fields(tag: Seq<char>)
    ensures
        ({
            let core = tag_core(tag);
            let major = parse_i32(first_field(core));
            &&& (major matches Some(a) && a < 1) ==> legacy_tag(tag)
            &&& (major matches Some(a) && a > 1) ==> !legacy_tag(tag)
            &&& major is None ==> !legacy_tag(tag)
            &&& major == Some(1i32) ==> (legacy_tag(tag) <==> (has_second_field(core)
                && (parse_i32(second_field(core)) matches Some(m) && m < 1)))
        }),
{
}

/// The first field of a string of digits followed by `.` or nothing is
/// those digits.
proof fn lemma_digits_field(d: Seq<char>, rest: Seq<char>)
    requires
        forall|i: int| 0 <= i < d.len() ==> #[trigger] is_digit(d[i]),
        rest.len() == 0 || rest[0] == '.',
    ensures
        field_len(d + rest) == d.len(),
        first_field(d + rest) =~= d,
        rest.len() > 0 ==> has_second_field(d + rest),
        rest.len() > 0 ==> (d + rest).skip(field_len(d + rest) + 1int) =~= rest.drop_first(),
{
    let t = d + rest;
    let p = |c: char| c != '.';
    assert forall|j: int| 0 <= j < d.len() implies #[trigger] p(t[j]) by {
        assert(t[j] == d[j]);
        assert(is_digit(d[j]));
    }
    if d.len() < t.len() {
        assert(t[d.len() as int] == rest[0]);
    }
    lemma_span_is(t, p, d.len() as int);
}

/// A tag `a.b...` written with plain decimal numbers `a` and `b` (in the
/// range of `i32`) is legacy exactly when `a < 1`, or `a == 1` and
/// `b < 1`; a tag that is just the number `a` is legacy exactly when
/// `a < 1`. So `1.2.0` or `2.0` are not legacy, `0.9` and `1.0.6` are.
pub proof fn lemma_legacy_of_numbers(a: nat, b: nat, rest: Seq<char>)
    requires
        a <= 2147483647,
        b <= 2147483647,
        rest.len() == 0 || rest[0] == '.',
    ensures
        legacy_tag(decimal(a) + seq!['.'] + decimal(b) + rest) == (a < 1 || (a == 1 && b < 1)),
        legacy_tag(decimal(a)) == (a < 1),
{
    lemma_decimal_digits(a);
    lemma_decimal_digits(b);
    let da = decimal(a);
    let db = decimal(b);
    let v = |c: char| c == 'v';
    // The tag with a minor number.
    let tail = seq!['.'] + db + rest;
    let t = da + tail;
    assert(t =~= decimal(a) + seq!['.'] + decimal(b) + rest);
    assert(t[0] == da[0]);
    assert(is_digit(da[0]));
    lemma_span_is(t, v, 0);
    assert(tag_core(t) =~= t);
    lemma_digits_field(da, tail);
    assert(tail.drop_first() =~= db + rest);
    lemma_digits_field(db, rest);
    assert(parse_i32(da) == Some(a as i32));
    assert(is_digit(db[0]));
    assert(parse_i32(db) == Some(b as i32));
    // The tag that is just the major number.
    lemma_span_is(da, v, 0);
    assert(tag_core(da) =~= da);
    lemma_digits_field(da, Seq::<char>::empty());
    assert(da + Seq::<char>::empty() =~= da);
}

} // verus!
