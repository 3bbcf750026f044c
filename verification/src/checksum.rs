//! Release checksums: the `SHA256SUMS.txt` table that a release may carry,
//! and SHA-256 digests of files in the lower-case hex form it uses.
use vstd::prelude::*;
use crate::text::{
    chars_of, hex_lower, is_whitespace, is_ws, lemma_span_facts, lemma_span_is, slice_skip,
    slice_take, span, string_from_chars, to_hex_lower, to_lowercase, unicode_lowercase,
    all_ascii, ascii_lower_seq,
};

verus! {

broadcast use vstd::string::group_string_axioms;

// ---------------------------------------------------------------------------
// Lines and words.
// ---------------------------------------------------------------------------

/// Length of the text before the first line break.
pub open spec fn line_len(s: Seq<char>) -> nat {
    span(s, |c: char| c != '\n')
}

/// The lines of a text: the pieces between `\n`s, without a last empty piece
/// after a final `\n` (std's `str::lines`, save that a `\r` before the `\n`
/// stays on the line; it is white space to everything that reads a line).
pub open spec fn lines(s: Seq<char>) -> Seq<Seq<char>>
    decreases s.len(),
{
    if s.len() == 0 {
        Seq::empty()
    } else {
        proof {
            lemma_span_facts(s, |c: char| c != '\n');
        }
        let k = line_len(s);
        if k < s.len() {
            seq![s.take(k as int)] + lines(s.skip(k + 1int))
        } else {
            seq![s]
        }
    }
}

/// Number of leading white-space characters.
pub open spec fn ws_len(s: Seq<char>) -> nat {
    span(s, |c: char| is_ws(c))
}

/// Length of the leading word (run of non-white-space characters).
pub open spec fn word_len(s: Seq<char>) -> nat {
    span(s, |c: char| !is_ws(c))
}

/// The first white-space-separated word of `s` (empty when there is none).
pub open spec fn first_word(s: Seq<char>) -> Seq<char> {
    let t = s.skip(ws_len(s) as int);
    t.take(word_len(t) as int)
}

/// What follows the first word of `s`.
pub open spec fn after_first_word(s: Seq<char>) -> Seq<char> {
    let t = s.skip(ws_len(s) as int);
    t.skip(word_len(t) as int)
}

/// The second white-space-separated word of `s` (empty when there is none).
pub open spec fn second_word(s: Seq<char>) -> Seq<char> {
    first_word(after_first_word(s))
}

/// Number of leading `*`s (the binary-mode marker of `sha256sum`).
pub open spec fn star_len(s: Seq<char>) -> nat {
    span(s, |c: char| c == '*')
}

/// What std's `to_lowercase` gives for a hash word: ASCII lower-casing for
/// an ASCII word, the Unicode mapping otherwise.
pub open spec fn lowercased(w: Seq<char>) -> Seq<char> {
    if all_ascii(w) {
        ascii_lower_seq(w)
    } else {
        unicode_lowercase(w)
    }
}

/// What one checksum line lists: with at least two words, the file named by
/// the second word (leading `*`s dropped) and the hash in the first word,
/// as written.
pub open spec fn line_listing(line: Seq<char>) -> Option<(Seq<char>, Seq<char>)> {
    let w0 = first_word(line);
    let w1 = second_word(line);
    if w0.len() > 0 && w1.len() > 0 {
        Some((w1.skip(star_len(w1) as int), w0))
    } else {
        None
    }
}

/// One checksum table entry: the line's file and its hash, lower-cased.
pub open spec fn line_entry(line: Seq<char>) -> Option<(Seq<char>, Seq<char>)> {
    match line_listing(line) {
        Some((file, hash)) => Some((file, lowercased(hash))),
        None => None,
    }
}

/// The listings of the lines that hold one, in order, hashes as written.
pub open spec fn listings_of_lines(ls: Seq<Seq<char>>) -> Seq<(Seq<char>, Seq<char>)>
    decreases ls.len(),
{
    if ls.len() == 0 {
        Seq::empty()
    } else {
        let prev = listings_of_lines(ls.drop_last());
        match line_listing(ls.last()) {
            Some(e) => prev.push(e),
            None => prev,
        }
    }
}

/// The hash that a `SHA256SUMS.txt` text lists for `file`, as written on
/// the last line that names it.
pub open spec fn listed_hash(text: Seq<char>, file: Seq<char>) -> Option<Seq<char>> {
    lookup(listings_of_lines(lines(text)), file)
}

/// The table's hash for a file is the listed hash, lower-cased.
pub proof fn lemma_table_hash_is_listed_hash(ls: Seq<Seq<char>>, file: Seq<char>)
    ensures
        lookup(entries_of_lines(ls), file) == match lookup(listings_of_lines(ls), file) {
            Some(h) => Some(lowercased(h)),
            None => None,
        },
    decreases ls.len(),
{
    if ls.len() > 0 {
        let d = ls.drop_last();
        lemma_table_hash_is_listed_hash(d, file);
        let es = entries_of_lines(d);
        let li = listings_of_lines(d);
        match line_listing(ls.last()) {
            Some((f, h)) => {
                assert(entries_of_lines(ls) == es.push((f, lowercased(h))));
                assert(listings_of_lines(ls) == li.push((f, h)));
                assert(es.push((f, lowercased(h))).drop_last() == es);
                assert(li.push((f, h)).drop_last() == li);
            },
            None => {
                assert(entries_of_lines(ls) == es);
                assert(listings_of_lines(ls) == li);
            },
        }
    }
}

/// The entries of the lines that hold one, in order.
pub open spec fn entries_of_lines(ls: Seq<Seq<char>>) -> Seq<(Seq<char>, Seq<char>)>
    decreases ls.len(),
{
    if ls.len() == 0 {
        Seq::empty()
    } else {
        let prev = entries_of_lines(ls.drop_last());
        match line_entry(ls.last()) {
            Some(e) => prev.push(e),
            None => prev,
        }
    }
}

/// The hash recorded for `file` by the last entry that names it.
pub open spec fn lookup(es: Seq<(Seq<char>, Seq<char>)>, file: Seq<char>) -> Option<Seq<char>>
    decreases es.len(),
{
    if es.len() == 0 {
        None
    } else if es.last().0 == file {
        Some(es.last().1)
    } else {
        lookup(es.drop_last(), file)
    }
}

/// The hash found for a file is the one of the last entry naming it: a
/// lookup succeeds with `h` exactly when some entry pairs the file with `h`
/// and no later entry names the file.
pub proof fn lemma_lookup_is_last_entry(es: Seq<(Seq<char>, Seq<char>)>, file: Seq<char>, h: Seq<char>)
    ensures
        lookup(es, file) == Some(h) <==> exists|i: int|
            0 <= i < es.len() && #[trigger] es[i] == (file, h) && forall|j: int|
                i < j < es.len() ==> (#[trigger] es[j]).0 != file,
    decreases es.len(),
{
    if es.len() > 0 {
        let d = es.drop_last();
        lemma_lookup_is_last_entry(d, file, h);
        let n = es.len() - 1;
        if lookup(es, file) == Some(h) {
            if es.last().0 != file {
                let i = choose|i: int|
                    0 <= i < d.len() && #[trigger] d[i] == (file, h) && forall|j: int|
                        i < j < d.len() ==> (#[trigger] d[j]).0 != file;
                assert(es[i] == d[i]);
                assert forall|j: int| i < j < es.len() implies (#[trigger] es[j]).0 != file by {
                    if j < n {
                        assert(es[j] == d[j]);
                    }
                }
            } else {
                assert(es[n] == (file, h));
            }
        }
        if exists|i: int|
            0 <= i < es.len() && #[trigger] es[i] == (file, h) && forall|j: int|
                i < j < es.len() ==> (#[trigger] es[j]).0 != file {
            let i = choose|i: int|
                0 <= i < es.len() && #[trigger] es[i] == (file, h) && forall|j: int|
                    i < j < es.len() ==> (#[trigger] es[j]).0 != file;
            if i < n {
                assert(es[n].0 != file);
                assert(d[i] == es[i]);
                assert forall|j: int| i < j < d.len() implies (#[trigger] d[j]).0 != file by {
                    assert(d[j] == es[j]);
                }
            }
        }
    }
}

/// The hash that a `SHA256SUMS.txt` text gives for `file`: the one on the
/// last line that names it.
pub open spec fn checksum_for(text: Seq<char>, file: Seq<char>) -> Option<Seq<char>> {
    lookup(entries_of_lines(lines(text)), file)
}

/// One entry of a checksum table.
#[derive(Debug)]
pub struct ChecksumEntry {
    pub file_name: String,
    pub hash: String,
}

/// The expected hashes of a release's files, read from `SHA256SUMS.txt`.
#[derive(Debug)]
pub struct ChecksumTable {
    entries: Vec<ChecksumEntry>,
}

impl View for ChecksumTable {
    type V = Seq<(Seq<char>, Seq<char>)>;

    closed spec fn view(&self) -> Seq<(Seq<char>, Seq<char>)> {
        self.entries@.map_values(|e: ChecksumEntry| (e.file_name@, e.hash@))
    }
}

impl ChecksumTable {
    /// A table without entries (a release without `SHA256SUMS.txt`).
    pub fn empty() -> (t: ChecksumTable)
        ensures
            t@ == Seq::<(Seq<char>, Seq<char>)>::empty(),
    {
        let t = ChecksumTable { entries: Vec::new() };
        assert(t@ =~= Seq::<(Seq<char>, Seq<char>)>::empty());
        t
    }

    /// The table read from the text of a `SHA256SUMS.txt`.
    pub fn parse(text: &str) -> (t: ChecksumTable)
        ensures
            t@ == entries_of_lines(lines(text@)),
    {
        let ls = split_lines(text);
        let mut entries: Vec<ChecksumEntry> = Vec::new();
        let mut i: usize = 0;
        while i < ls.len()
            invariant
                i <= ls@.len(),
                lines_view(ls@) == lines(text@),
                entries@.map_values(|e: ChecksumEntry| (e.file_name@, e.hash@))
                    == entries_of_lines(lines(text@).take(i as int)),
            decreases ls@.len() - i,
        {
            let ghost before = entries@;
            let ghost t = lines(text@).take(i + 1);
            assert(t.drop_last() =~= lines(text@).take(i as int));
            assert(t.last() == ls@[i as int]@);
            match parse_line(&ls[i]) {
                Some(e) => {
                    entries.push(e);
                    assert(entries@.map_values(|e: ChecksumEntry| (e.file_name@, e.hash@))
                        =~= before.map_values(|e: ChecksumEntry| (e.file_name@, e.hash@)).push(
                        (e.file_name@, e.hash@),
                    ));
                },
                None => {},
            }
            i = i + 1;
        }
        assert(lines(text@).take(ls@.len() as int) =~= lines(text@));
        ChecksumTable { entries }
    }

    /// The expected hash of `file`, if the table records one.
    pub fn get(&self, file: &str) -> (r: Option<&String>)
        ensures
            match r {
                Some(h) => lookup(self@, file@) == Some(h@),
                None => lookup(self@, file@) is None,
            },
    {
        let fc = chars_of(file);
        let mut i: usize = self.entries.len();
        assert(self@.len() == self.entries@.len());
        assert(self@.take(i as int) =~= self@);
        while i > 0
            invariant
                i <= self.entries@.len(),
                lookup(self@, file@) == lookup(self@.take(i as int), file@),
                fc@ == file@,
                self@.len() == self.entries@.len(),
            decreases i,
        {
            let ghost t = self@.take(i as int);
            assert(t.drop_last() =~= self@.take(i - 1));
            let e = &self.entries[i - 1];
            assert(t.last() == (e.file_name@, e.hash@));
            let ec = chars_of(e.file_name.as_str());
            if crate::text::chars_eq(ec.as_slice(), fc.as_slice()) {
                return Some(&e.hash);
            }
            i = i - 1;
        }
        None
    }
}

/// The views of split lines.
pub open spec fn lines_view(ls: Seq<Vec<char>>) -> Seq<Seq<char>> {
    ls.map_values(|l: Vec<char>| l@)
}

fn line_len_exec(s: &[char]) -> (n: usize)
    ensures
        n == line_len(s@),
        n <= s@.len(),
{
    let mut i: usize = 0;
    while i < s.len() && s[i] != '\n'
        invariant
            i <= s@.len(),
            forall|j: int| 0 <= j < i ==> s@[j] != '\n',
        decreases s@.len() - i,
    {
        i = i + 1;
    }
    proof {
        let p = |c: char| c != '\n';
        assert forall|j: int| 0 <= j < i implies #[trigger] p(s@[j]) by {}
        lemma_span_is(s@, p, i as int);
    }
    i
}

fn slice_to_vec(s: &[char]) -> (v: Vec<char>)
    ensures
        v@ == s@,
{
    let mut v: Vec<char> = Vec::new();
    let mut i: usize = 0;
    while i < s.len()
        invariant
            i <= s@.len(),
            v@ == s@.take(i as int),
        decreases s@.len() - i,
    {
        v.push(s[i]);
        assert(s@.take(i + 1) =~= s@.take(i as int).push(s@[i as int]));
        i = i + 1;
    }
    assert(s@.take(s@.len() as int) =~= s@);
    v
}

/// The lines of a text.
pub fn split_lines(text: &str) -> (ls: Vec<Vec<char>>)
    ensures
        lines_view(ls@) == lines(text@),
{
    let cs = chars_of(text);
    let mut ls: Vec<Vec<char>> = Vec::new();
    let mut pos: usize = 0;
    assert(cs@.skip(0) =~= cs@);
    while pos < cs.len()
        invariant
            pos <= cs@.len(),
            cs@ == text@,
            lines_view(ls@) + lines(cs@.skip(pos as int)) == lines(text@),
        decreases cs@.len() - pos,
    {
        let rest = slice_skip(cs.as_slice(), pos);
        let k = line_len_exec(rest);
        let line = slice_to_vec(slice_take(rest, k));
        let ghost before = ls@;
        ls.push(line);
        assert(lines_view(ls@) =~= lines_view(before).push(rest@.take(k as int)));
        if k < rest.len() {
            assert(rest@.skip(k + 1) =~= cs@.skip(pos + k + 1));
            assert(lines(rest@) == seq![rest@.take(k as int)] + lines(rest@.skip(k + 1)));
            assert(lines_view(ls@) + lines(cs@.skip(pos + k + 1)) =~= lines_view(before) + lines(
                rest@,
            ));
            pos = pos + k + 1;
        } else {
            assert(rest@.take(k as int) =~= rest@);
            assert(lines(rest@) == seq![rest@]);
            assert(cs@.skip(cs@.len() as int) =~= Seq::<char>::empty());
            assert(lines_view(ls@) + lines(cs@.skip(cs@.len() as int)) =~= lines_view(before)
                + lines(rest@));
            pos = cs.len();
        }
    }
    assert(cs@.skip(pos as int) =~= Seq::<char>::empty());
    assert(lines_view(ls@) + Seq::<Seq<char>>::empty() =~= lines_view(ls@));
    ls
}

fn ws_len_exec(s: &[char]) -> (n: usize)
    ensures
        n == ws_len(s@),
        n <= s@.len(),
{
    let mut i: usize = 0;
    while i < s.len() && is_whitespace(s[i])
        invariant
            i <= s@.len(),
            forall|j: int| 0 <= j < i ==> is_ws(s@[j]),
        decreases s@.len() - i,
    {
        i = i + 1;
    }
    proof {
        let p = |c: char| is_ws(c);
        assert forall|j: int| 0 <= j < i implies #[trigger] p(s@[j]) by {}
        lemma_span_is(s@, p, i as int);
    }
    i
}

fn word_len_exec(s: &[char]) -> (n: usize)
    ensures
        n == word_len(s@),
        n <= s@.len(),
{
    let mut i: usize = 0;
    while i < s.len() && !is_whitespace(s[i])
        invariant
            i <= s@.len(),
            forall|j: int| 0 <= j < i ==> !is_ws(s@[j]),
        decreases s@.len() - i,
    {
        i = i + 1;
    }
    proof {
        let p = |c: char| !is_ws(c);
        assert forall|j: int| 0 <= j < i implies #[trigger] p(s@[j]) by {}
        lemma_span_is(s@, p, i as int);
    }
    i
}

fn star_len_exec(s: &[char]) -> (n: usize)
    ensures
        n == star_len(s@),
        n <= s@.len(),
{
    let mut i: usize = 0;
    while i < s.len() && s[i] == '*'
        invariant
            i <= s@.len(),
            forall|j: int| 0 <= j < i ==> s@[j] == '*',
        decreases s@.len() - i,
    {
        i = i + 1;
    }
    proof {
        let p = |c: char| c == '*';
        assert forall|j: int| 0 <= j < i implies #[trigger] p(s@[j]) by {}
        lemma_span_is(s@, p, i as int);
    }
    i
}

/// The first word of `s` and what follows it.
fn split_first_word(s: &[char]) -> (r: (&[char], &[char]))
    ensures
        r.0@ == first_word(s@),
        r.1@ == after_first_word(s@),
{
    let t = slice_skip(s, ws_len_exec(s));
    let k = word_len_exec(t);
    (slice_take(t, k), slice_skip(t, k))
}

/// The checksum entry of one line, if it has one.
fn parse_line(line: &Vec<char>) -> (r: Option<ChecksumEntry>)
    ensures
        match r {
            Some(e) => line_entry(line@) == Some((e.file_name@, e.hash@)),
            None => line_entry(line@) is None,
        },
{
    let (w0, rest) = split_first_word(line.as_slice());
    let (w1, _) = split_first_word(rest);
    if w0.len() > 0 && w1.len() > 0 {
        let file = slice_skip(w1, star_len_exec(w1));
        let file_name = string_from_chars(file);
        let raw_hash = string_from_chars(w0);
        let hash = to_lowercase(raw_hash.as_str());
        assert(hash@ == lowercased(w0@));
        Some(ChecksumEntry { file_name, hash })
    } else {
        None
    }
}

// ---------------------------------------------------------------------------
// SHA-256.
// ---------------------------------------------------------------------------

/// A running `sha2::Sha256` hasher, kept in a private field: its contents
/// are reached only through `sha256_new`, `sha256_update` and
/// `sha256_finalize`, and `sha256_absorbed` names the bytes it has been fed.
#[verifier::external_body]
pub struct Sha256State {
    inner: sha2::Sha256,
}

/// The bytes fed to a hasher so far.
pub uninterp spec fn sha256_absorbed(h: Sha256State) -> Seq<u8>;

/// The SHA-256 digest of a byte string, as `sha2::Sha256` computes it.
pub uninterp spec fn sha256(data: Seq<u8>) -> Seq<u8>;

/// `sha2::Sha256::new` (through `Digest`): a hasher that has absorbed nothing.
#[verifier::external_body]
fn sha256_new() -> (h: Sha256State)
    ensures
        sha256_absorbed(h) == Seq::<u8>::empty(),
{
    Sha256State { inner: <sha2::Sha256 as sha2::Digest>::new() }
}

/// `sha2::Digest::update`: the hasher absorbs `data` after what it had.
#[verifier::external_body]
fn sha256_update(h: &mut Sha256State, data: &[u8])
    ensures
        sha256_absorbed(*final(h)) == sha256_absorbed(*old(h)) + data@,
{
    sha2::Digest::update(&mut h.inner, data);
}

/// `sha2::Digest::finalize`: the 32-byte digest of everything absorbed.
#[verifier::external_body]
fn sha256_finalize(h: Sha256State) -> (r: Vec<u8>)
    ensures
        r@ == sha256(sha256_absorbed(h)),
        r@.len() == 32,
{
    sha2::Digest::finalize(h.inner).to_vec()
}

/// A SHA-256 digest of a file's contents, fed chunk by chunk as they are read.
pub struct FileSha256 {
    state: Sha256State,
}

impl FileSha256 {
    /// The bytes fed so far.
    pub closed spec fn absorbed(&self) -> Seq<u8> {
        sha256_absorbed(self.state)
    }

    /// A digest of nothing yet.
    pub fn new() -> (h: FileSha256)
        ensures
            h.absorbed() == Seq::<u8>::empty(),
    {
        FileSha256 { state: sha256_new() }
    }

    /// Feeds the next chunk of the file.
    pub fn update(&mut self, chunk: &[u8])
        ensures
            final(self).absorbed() == old(self).absorbed() + chunk@,
    {
        sha256_update(&mut self.state, chunk);
    }

    /// The digest in lower-case hex (64 characters).
    pub fn finish_hex(self) -> (s: String)
        ensures
            s@ == hex_lower(sha256(self.absorbed())),
            s@.len() == 64,
    {
        let d = sha256_finalize(self.state);
        to_hex_lower(d.as_slice())
    }
}

/// The lower-case hex SHA-256 digest of a byte string.
pub fn sha256_hex(data: &[u8]) -> (s: String)
    ensures
        s@ == hex_lower(sha256(data@)),
        s@.len() == 64,
{
    let mut h = FileSha256::new();
    h.update(data);
    assert(Seq::<u8>::empty() + data@ =~= data@);
    h.finish_hex()
}

} // verus!
