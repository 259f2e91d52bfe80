//! The index of a TeX Live bundle: one line per file, holding the file's
//! name, its byte offset in the bundle and its length, separated by white
//! space; and the plan by which the files are cut out of the bundle's byte
//! stream, in the order of the index.
use vstd::prelude::*;

use crate::text;

verus! {

/// One file of the bundle: its name, where it starts in the bundle and how
/// many bytes it has.
#[derive(Debug, PartialEq, Eq)]
pub struct FileIndexEntry {
    pub name: String,
    pub offset: u64,
    pub length: u64,
}

impl View for FileIndexEntry {
    type V = (Seq<char>, u64, u64);

    open spec fn view(&self) -> (Seq<char>, u64, u64) {
        (self.name@, self.offset, self.length)
    }
}

/// Why a line of the index does not describe a file.
#[derive(Debug, PartialEq, Eq, Structural, Clone, Copy)]
pub enum IndexParseError {
    MissingName,
    MissingOffset,
    MissingLength,
    InvalidOffset,
    InvalidLength,
}

/// What a line of the index means: its first word is the name, its second
/// the offset and its third the length, both unsigned 64-bit decimals; the
/// first part that is missing or malformed is the error. Words after the
/// third are ignored.
pub open spec fn index_line_meaning(line: Seq<char>) -> Result<
    (Seq<char>, u64, u64),
    IndexParseError,
> {
    let w = text::words(line);
    if w.len() < 1 {
        Err(IndexParseError::MissingName)
    } else if w.len() < 2 {
        Err(IndexParseError::MissingOffset)
    } else {
        match text::parse_unsigned(w[1], u64::MAX as int) {
            None => Err(IndexParseError::InvalidOffset),
            Some(offset) => if w.len() < 3 {
                Err(IndexParseError::MissingLength)
            } else {
                match text::parse_unsigned(w[2], u64::MAX as int) {
                    None => Err(IndexParseError::InvalidLength),
                    Some(length) => Ok((w[0], offset as u64, length as u64)),
                }
            },
        }
    }
}

/// What the result of reading a line says.
pub open spec fn parse_result_view(r: Result<FileIndexEntry, IndexParseError>) -> Result<
    (Seq<char>, u64, u64),
    IndexParseError,
> {
    match r {
        Ok(e) => Ok(e@),
        Err(k) => Err(k),
    }
}

/// Reads one line of the index.
pub fn parse_file_index(line: &str) -> (r: Result<FileIndexEntry, IndexParseError>)
    ensures
        parse_result_view(r) == index_line_meaning(line@),
{
    let cs = text::chars_of(line);
    let ghost s = cs@;
    let n = cs.len();
    proof {
        text::lemma_words_from_step(s, 0);
    }
    let (b0, e0) = text::next_word(&cs, 0);
    if b0 == n {
        return Err(IndexParseError::MissingName);
    }
    proof {
        text::lemma_words_from_step(s, e0 as int);
    }
    let (b1, e1) = text::next_word(&cs, e0);
    if b1 == n {
        return Err(IndexParseError::MissingOffset);
    }
    let ghost w = text::words(s);
    assert(w[1] == s.subrange(b1 as int, e1 as int));
    let offset = match text::parse_unsigned_range(&cs, b1, e1, u64::MAX) {
        Some(v) => v,
        None => {
            return Err(IndexParseError::InvalidOffset);
        },
    };
    proof {
        text::lemma_words_from_step(s, e1 as int);
    }
    let (b2, e2) = text::next_word(&cs, e1);
    if b2 == n {
        return Err(IndexParseError::MissingLength);
    }
    assert(w[2] == s.subrange(b2 as int, e2 as int));
    let length = match text::parse_unsigned_range(&cs, b2, e2, u64::MAX) {
        Some(v) => v,
        None => {
            return Err(IndexParseError::InvalidLength);
        },
    };
    let name = line.substring_char(b0, e0).to_owned();
    assert(w[0] == s.subrange(b0 as int, e0 as int));
    Ok(FileIndexEntry { name, offset, length })
}

/// The files that the lines of an index describe, in order; a line that
/// describes no file is passed over.
pub open spec fn index_entries(lines: Seq<Seq<char>>) -> Seq<(Seq<char>, u64, u64)>
    decreases lines.len(),
{
    if lines.len() == 0 {
        seq![]
    } else {
        index_entries(lines.drop_last()) + match index_line_meaning(lines.last()) {
            Ok(e) => seq![e],
            Err(_) => seq![],
        }
    }
}

/// Reads every line of an index and keeps the files that they describe, in
/// order, passing over the lines that describe none.
pub fn parse_file_index_lines(lines: &Vec<String>) -> (r: Vec<FileIndexEntry>)
    ensures
        r@.map_values(|e: FileIndexEntry| e@) == index_entries(lines@.map_values(|l: String| l@)),
{
    let ghost ls = lines@.map_values(|l: String| l@);
    let mut r: Vec<FileIndexEntry> = Vec::new();
    let mut i: usize = 0;
    while i < lines.len()
        invariant
            i <= lines.len(),
            ls == lines@.map_values(|l: String| l@),
            r@.map_values(|e: FileIndexEntry| e@) == index_entries(ls.take(i as int)),
        decreases lines.len() - i,
    {
        let parsed = parse_file_index(lines[i].as_str());
        assert(ls.take(i + 1).drop_last() =~= ls.take(i as int));
        assert(ls.take(i + 1).last() == lines@[i as int]@);
        match parsed {
            Ok(e) => {
                r.push(e);
            },
            Err(_) => {},
        }
        assert(r@.map_values(|e: FileIndexEntry| e@) =~= index_entries(ls.take(i + 1)));
        i = i + 1;
    }
    assert(ls.take(lines.len() as int) =~= ls);
    r
}

/// How the next file is cut out of the bundle's byte stream: first `skip`
/// bytes are passed over, then `length` bytes are the file; the stream is
/// then taken to stand at `position_after`, which is `None` when the end of
/// the file lies beyond the 64-bit range.
#[derive(Debug, PartialEq, Eq, Structural, Clone, Copy)]
pub struct CopyStep {
    pub skip: u64,
    pub length: u64,
    pub position_after: Option<u64>,
}

/// The bytes passed over before a file at `offset` when the stream stands
/// at `position`: none when the stream is already at or past the offset.
pub open spec fn skip_before(position: u64, offset: u64) -> nat {
    if offset >= position {
        (offset - position) as nat
    } else {
        0
    }
}

/// The step that cuts `entry` out of the stream when the stream stands at
/// `position`.
pub fn next_copy_step(position: u64, entry: &FileIndexEntry) -> (r: CopyStep)
    ensures
        r.skip == skip_before(position, entry.offset),
        r.length == entry.length,
        entry.offset + entry.length <= u64::MAX ==> r.position_after == Some(
            (entry.offset + entry.length) as u64,
        ),
        entry.offset + entry.length > u64::MAX ==> r.position_after is None,
{
    CopyStep {
        skip: entry.offset.saturating_sub(position),
        length: entry.length,
        position_after: entry.offset.checked_add(entry.length),
    }
}

/// Where the stream is taken to stand after the first `n` files of
/// `entries`, cut out from a stream that starts at byte 0.
pub open spec fn position_after(entries: Seq<(Seq<char>, u64, u64)>, n: int) -> int {
    if n <= 0 {
        0
    } else {
        entries[n - 1].1 + entries[n - 1].2
    }
}

/// How many bytes of the stream have really been read after the first `n`
/// files: the bytes passed over and the bytes of each file.
pub open spec fn bytes_read(entries: Seq<(Seq<char>, u64, u64)>, n: int) -> int
    decreases n,
{
    if n <= 0 {
        0
    } else {
        bytes_read(entries, n - 1) + skip_before(
            position_after(entries, n - 1) as u64,
            entries[n - 1].1,
        ) + entries[n - 1].2
    }
}

/// Whether the files of `entries` come in the order of the bundle and do
/// not overlap: each starts at or after the end of the one before.
pub open spec fn ascending_without_overlap(entries: Seq<(Seq<char>, u64, u64)>) -> bool {
    &&& forall|k: int| 0 <= k < entries.len() ==> #[trigger] entries[k].1 + entries[k].2 <= u64::MAX
    &&& forall|k: int|
        0 < k < entries.len() ==> entries[k - 1].1 + entries[k - 1].2 <= #[trigger] entries[k].1
}

/// When the files of the index come in the order of the bundle and do not
/// overlap, the steps read the stream exactly up to where they take it to
/// stand, so every file is cut out starting at its own offset.
pub proof fn lemma_files_cut_at_their_offsets(entries: Seq<(Seq<char>, u64, u64)>, n: int)
    requires
        ascending_without_overlap(entries),
        0 <= n <= entries.len(),
    ensures
        bytes_read(entries, n) == position_after(entries, n),
        n < entries.len() ==> bytes_read(entries, n) + skip_before(
            position_after(entries, n) as u64,
            entries[n].1,
        ) == entries[n].1,
    decreases n,
{
    if n > 0 {
        lemma_files_cut_at_their_offsets(entries, n - 1);
    }
    if n < entries.len() && n > 0 {
        assert(entries[n - 1].1 + entries[n - 1].2 <= entries[n].1);
    }
}

/// The line that describes a file: its name, its offset and its length in
/// decimal, separated by single spaces.
pub open spec fn index_line_for(name: Seq<char>, offset: u64, length: u64) -> Seq<char> {
    name + seq![' '] + text::decimal_text(offset as nat) + seq![' '] + text::decimal_text(
        length as nat,
    )
}

/// Reading back the line that describes a file gives that file, for any
/// name that is not empty and holds no white space.
pub proof fn lemma_index_line_round_trip(name: Seq<char>, offset: u64, length: u64)
    requires
        name.len() > 0,
        forall|k: int| 0 <= k < name.len() ==> !text::is_white_space(#[trigger] name[k]),
    ensures
        index_line_meaning(index_line_for(name, offset, length)) == Ok::<
            (Seq<char>, u64, u64),
            IndexParseError,
        >((name, offset, length)),
{
    let d1 = text::decimal_text(offset as nat);
    let d2 = text::decimal_text(length as nat);
    let s = index_line_for(name, offset, length);
    text::lemma_decimal_text_has_no_white_space(offset as nat);
    text::lemma_decimal_text_has_no_white_space(length as nat);
    text::lemma_decimal_text_parses_back(offset as nat, u64::MAX as int);
    text::lemma_decimal_text_parses_back(length as nat, u64::MAX as int);
    let a = name.len() as int;
    let b = a + 1;
    let c = b + d1.len();
    let d = c + 1;
    let e = s.len() as int;
    assert(e == d + d2.len());
    assert forall|k: int| 0 <= k < a implies !text::is_white_space(#[trigger] s[k]) by {
        assert(s[k] == name[k]);
    }
    assert forall|k: int| b <= k < c implies !text::is_white_space(#[trigger] s[k]) by {
        assert(s[k] == d1[k - b]);
    }
    assert forall|k: int| d <= k < e implies !text::is_white_space(#[trigger] s[k]) by {
        assert(s[k] == d2[k - d]);
    }
    assert(s[a] == ' ');
    assert(s[c] == ' ');
    assert(text::is_white_space(' '));
    text::lemma_word_start_at(s, 0, 0);
    text::lemma_word_end_at(s, 0, a);
    text::lemma_word_start_at(s, a, b);
    text::lemma_word_end_at(s, b, c);
    text::lemma_word_start_at(s, c, d);
    text::lemma_word_end_at(s, d, e);
    text::lemma_word_start_at(s, e, e);
    text::lemma_words_from_step(s, 0);
    text::lemma_words_from_step(s, a);
    text::lemma_words_from_step(s, c);
    text::lemma_words_from_step(s, e);
    assert(s.subrange(0, a) =~= name);
    assert(s.subrange(b, c) =~= d1);
    assert(s.subrange(d, e) =~= d2);
    let w = text::words(s);
    assert(w =~= seq![name, d1, d2]);
}

/// Words after the third leave the meaning of a line unchanged: a line
/// that has three words means the same with anything appended after a space.
pub proof fn lemma_extra_words_ignored(line: Seq<char>, rest: Seq<char>)
    requires
        text::words(line).len() >= 3,
    ensures
        index_line_meaning(line + seq![' '] + rest) == index_line_meaning(line),
{
    assert(text::is_white_space(' '));
    text::lemma_words_concat(line, ' ', rest);
    let w = text::words(line);
    let v = text::words(line + seq![' '] + rest);
    assert(v[0] == w[0] && v[1] == w[1] && v[2] == w[2]);
}

/// A line means what its words mean: joining them with single spaces
/// keeps its meaning.
pub proof fn lemma_rejoined_line_same_meaning(line: Seq<char>)
    ensures
        index_line_meaning(text::join_words(text::words(line))) == index_line_meaning(line),
{
    text::lemma_words_of_joined_words(line);
}

/// A line that describes a file adds exactly that file to the entries,
/// whatever its length (an empty file too); a line that describes none adds
/// nothing.
pub proof fn lemma_index_entries_push(
    lines: Seq<Seq<char>>,
    line: Seq<char>,
)
    ensures
        index_line_meaning(line) matches Ok(e) ==> index_entries(lines.push(line)) == index_entries(
            lines,
        ).push(e),
        index_line_meaning(line) is Err ==> index_entries(lines.push(line)) == index_entries(lines),
{
    assert(lines.push(line).drop_last() =~= lines);
    assert(lines.push(line).last() == line);
    if let Ok(e) = index_line_meaning(line) {
        assert(index_entries(lines) + seq![e] =~= index_entries(lines).push(e));
    } else {
        assert(index_entries(lines) + Seq::<(Seq<char>, u64, u64)>::empty() =~= index_entries(
            lines,
        ));
    }
}

/// The entries of two indexes read one after the other are the entries of
/// the first, then those of the second.
pub proof fn lemma_index_entries_concat(a: Seq<Seq<char>>, b: Seq<Seq<char>>)
    ensures
        index_entries(a + b) == index_entries(a) + index_entries(b),
    decreases b.len(),
{
    if b.len() == 0 {
        assert(a + b =~= a);
        assert(index_entries(b) =~= Seq::<(Seq<char>, u64, u64)>::empty());
        assert(index_entries(a) + index_entries(b) =~= index_entries(a));
    } else {
        let rest = b.drop_last();
        let l = b.last();
        lemma_index_entries_concat(a, rest);
        assert(a + b =~= (a + rest).push(l));
        assert(b =~= rest.push(l));
        lemma_index_entries_push(a + rest, l);
        lemma_index_entries_push(rest, l);
        if let Ok(e) = index_line_meaning(l) {
            assert(index_entries(a) + index_entries(rest).push(e) =~= (index_entries(a)
                + index_entries(rest)).push(e));
        }
    }
}

/// Every entry comes from a line that describes it, and a line that
/// describes a file is never dropped: an index of one line has exactly the
/// file of that line, or nothing.
pub proof fn lemma_index_entries_single(line: Seq<char>)
    ensures
        index_line_meaning(line) matches Ok(e) ==> index_entries(seq![line]) == seq![e],
        index_line_meaning(line) is Err ==> index_entries(seq![line]).len() == 0,
{
    lemma_index_entries_push(Seq::<Seq<char>>::empty(), line);
    assert(Seq::<Seq<char>>::empty().push(line) =~= seq![line]);
    assert(index_entries(Seq::<Seq<char>>::empty()) =~= Seq::<(Seq<char>, u64, u64)>::empty());
}

} // verus!
