//! Classification of source identifiers.
//!
//! An identifier is a local path. Only its final path segment matters, and in
//! that segment only the text between the first dot and the next one (or the
//! end): that text is the extension the source is classified by.

use vstd::prelude::*;

verus! {

/// The character that separates the segments of a path.
pub const SEPARATOR: char = '/';

/// The character that separates a file name from its extension.
pub const DOT: char = '.';

/// The index of the first `c` in `s`, or `s.len()` where `s` holds none.
pub open spec fn first_index_of(s: Seq<char>, c: char) -> int
    decreases s.len(),
{
    if s.len() == 0 {
        0
    } else if s[0] == c {
        0
    } else {
        1 + first_index_of(s.drop_first(), c)
    }
}

/// One past the index of the last `c` in `s`, or 0 where `s` holds none.
pub open spec fn after_last(s: Seq<char>, c: char) -> int
    decreases s.len(),
{
    if s.len() == 0 {
        0
    } else if s.last() == c {
        s.len() as int
    } else {
        after_last(s.drop_last(), c)
    }
}

/// What follows the last separator of `file`: all of it where there is none.
pub open spec fn final_segment(file: Seq<char>) -> Seq<char> {
    file.skip(after_last(file, SEPARATOR))
}

/// Whether the final segment of `file` holds a dot, and with it an extension.
pub open spec fn has_extension(file: Seq<char>) -> bool {
    final_segment(file).contains(DOT)
}

/// What follows the first dot of the final segment.
pub open spec fn after_first_dot(file: Seq<char>) -> Seq<char> {
    let segment = final_segment(file);
    segment.skip(first_index_of(segment, DOT) + 1)
}

/// The extension of `file`: the text between the first dot of its final
/// segment and the next dot, or the end of the segment. A name with several
/// dots has the text after the first one as its extension, not the last.
pub open spec fn extension(file: Seq<char>) -> Seq<char>
    recommends
        has_extension(file),
{
    let rest = after_first_dot(file);
    rest.take(first_index_of(rest, DOT))
}

/// Whether `ext` spells `flac`, in whatever case.
pub open spec fn is_flac(ext: Seq<char>) -> bool {
    &&& ext.len() == 4
    &&& (ext[0] == 'f' || ext[0] == 'F')
    &&& (ext[1] == 'l' || ext[1] == 'L')
    &&& (ext[2] == 'a' || ext[2] == 'A')
    &&& (ext[3] == 'c' || ext[3] == 'C')
}

/// The mathematical value of a [`SourceType`].
pub enum SourceKind {
    /// A FLAC file, with the identifier it was given by.
    Flac(Seq<char>),
    /// An identifier whose extension is empty.
    Sourceless,
    /// Any other extension.
    Unsupported,
}

/// The kind of source that `file` names.
pub open spec fn classify(file: Seq<char>) -> SourceKind
    recommends
        has_extension(file),
{
    let ext = extension(file);
    if is_flac(ext) {
        SourceKind::Flac(file)
    } else if ext.len() == 0 {
        SourceKind::Sourceless
    } else {
        SourceKind::Unsupported
    }
}

/// Where a cable takes its samples from.
#[allow(non_camel_case_types)]
#[derive(Debug)]
pub enum SourceType {
    /// A FLAC file that can be decoded, with its path.
    FLAC(String),
    /// No source: the cable plays silence.
    SOURCELESS,
    /// A source that no decoder is known for: the cable plays silence.
    UNSUPPORTED,
}

impl View for SourceType {
    type V = SourceKind;

    open spec fn view(&self) -> SourceKind {
        match self {
            SourceType::FLAC(path) => SourceKind::Flac(path@),
            SourceType::SOURCELESS => SourceKind::Sourceless,
            SourceType::UNSUPPORTED => SourceKind::Unsupported,
        }
    }
}

/// `first_index_of` is the index `at` where `c` stands at `at` and nowhere
/// before it; it is the length where `c` stands nowhere.
pub proof fn lemma_first_index_of(s: Seq<char>, c: char, at: int)
    requires
        0 <= at <= s.len(),
        forall|i: int| 0 <= i < at ==> s[i] != c,
        at < s.len() ==> s[at] == c,
    ensures
        first_index_of(s, c) == at,
    decreases s.len(),
{
    if s.len() > 0 && s[0] != c {
        let rest = s.drop_first();
        lemma_first_index_of(rest, c, at - 1);
    }
}

/// `first_index_of` points at a `c` exactly where the sequence holds one, and
/// nothing before that index is `c`.
pub proof fn lemma_first_index_of_bounds(s: Seq<char>, c: char)
    ensures
        0 <= first_index_of(s, c) <= s.len(),
        first_index_of(s, c) < s.len() <==> s.contains(c),
        first_index_of(s, c) < s.len() ==> s[first_index_of(s, c)] == c,
        forall|i: int| 0 <= i < first_index_of(s, c) ==> s[i] != c,
    decreases s.len(),
{
    if s.len() > 0 && s[0] != c {
        let rest = s.drop_first();
        lemma_first_index_of_bounds(rest, c);
        let at = first_index_of(rest, c);
        assert forall|i: int| 0 <= i < at + 1 implies s[i] != c by {
            if i > 0 {
                assert(rest[i - 1] == s[i]);
            }
        }
    }
}

/// `after_last` is the index `start` where a `c` stands just before `start`
/// (unless `start` is 0) and none stands at or after it.
pub proof fn lemma_after_last(s: Seq<char>, c: char, start: int)
    requires
        0 <= start <= s.len(),
        start > 0 ==> s[start - 1] == c,
        forall|i: int| start <= i < s.len() ==> s[i] != c,
    ensures
        after_last(s, c) == start,
    decreases s.len(),
{
    if s.len() > 0 && s.last() != c {
        lemma_after_last(s.drop_last(), c, start);
    }
}

/// `after_last` stays within the sequence, follows a `c` unless it is 0, and
/// has no `c` at or after it.
pub proof fn lemma_after_last_bounds(s: Seq<char>, c: char)
    ensures
        0 <= after_last(s, c) <= s.len(),
        after_last(s, c) > 0 ==> s[after_last(s, c) - 1] == c,
        forall|i: int| after_last(s, c) <= i < s.len() ==> s[i] != c,
    decreases s.len(),
{
    if s.len() > 0 && s.last() != c {
        let front = s.drop_last();
        lemma_after_last_bounds(front, c);
        assert forall|i: int| after_last(s, c) <= i < s.len() implies s[i] != c by {
            if i < front.len() {
                assert(front[i] == s[i]);
            }
        }
    }
}

/// Every identifier with an extension has exactly one kind, and the
/// extension alone decides which: FLAC where it spells `flac` in whatever
/// case, sourceless where it is empty, unsupported for every other one. A
/// FLAC source carries the whole identifier.
pub proof fn lemma_kind_by_extension(file: Seq<char>)
    ensures
        classify(file) == SourceKind::Flac(file) <==> is_flac(extension(file)),
        classify(file) is Flac ==> classify(file) == SourceKind::Flac(file),
        classify(file) is Sourceless <==> extension(file).len() == 0,
        classify(file) is Unsupported <==> extension(file).len() > 0 && !is_flac(extension(file)),
{
}

/// An identifier that ends in a dot and `flac`, in whatever case, names a
/// FLAC file, provided that dot is the first one of its final segment.
pub proof fn lemma_flac_suffix_is_flac(file: Seq<char>)
    requires
        file.len() >= 5,
        file[file.len() - 5] == DOT,
        is_flac(file.skip(file.len() - 4)),
        forall|i: int| after_last(file, SEPARATOR) <= i < file.len() - 5 ==> file[i] != DOT,
    ensures
        has_extension(file),
        extension(file) == file.skip(file.len() - 4),
        classify(file) == SourceKind::Flac(file),
{
    let n = file.len() as int;
    let suffix = file.skip(n - 4);
    assert(suffix[0] == file[n - 4] && suffix[1] == file[n - 3] && suffix[2] == file[n - 2]
        && suffix[3] == file[n - 1]);
    lemma_after_last_bounds(file, SEPARATOR);
    let start = after_last(file, SEPARATOR);
    let segment = final_segment(file);
    lemma_first_index_of(segment, DOT, n - 5 - start);
    lemma_first_index_of_bounds(segment, DOT);
    let rest = after_first_dot(file);
    lemma_first_index_of(rest, DOT, 4);
}

/// An identifier that ends in the first dot of its final segment has an
/// empty extension, and is sourceless.
pub proof fn lemma_trailing_dot_is_sourceless(file: Seq<char>)
    requires
        file.len() >= 1,
        file.last() == DOT,
        forall|i: int| after_last(file, SEPARATOR) <= i < file.len() - 1 ==> file[i] != DOT,
    ensures
        has_extension(file),
        extension(file).len() == 0,
        classify(file) == SourceKind::Sourceless,
{
    let n = file.len() as int;
    lemma_after_last_bounds(file, SEPARATOR);
    let start = after_last(file, SEPARATOR);
    let segment = final_segment(file);
    lemma_first_index_of(segment, DOT, n - 1 - start);
    lemma_first_index_of_bounds(segment, DOT);
}

/// Classification depends on the identifier alone: two sources made from
/// the same identifier are of the same kind.
pub proof fn lemma_classification_is_stable(file: Seq<char>, first: SourceType, second: SourceType)
    requires
        first@ == classify(file),
        second@ == classify(file),
    ensures
        first@ == second@,
{
}

/// The characters of `text`, in order.
fn chars_of(text: &str) -> (chars: Vec<char>)
    ensures
        chars@ == text@,
{
    let mut chars: Vec<char> = Vec::new();
    for c in it: text.chars()
        invariant
            it.seq() == text@,
            chars@ == text@.take(it.index()),
    {
        assert(text@.take(it.index()).push(c) == text@.take(it.index() + 1));
        chars.push(c);
    }
    chars
}

/// The index just after the last separator of `chars`, or 0 without one.
fn segment_start(chars: &Vec<char>) -> (start: usize)
    ensures
        start == after_last(chars@, SEPARATOR),
        start <= chars.len(),
{
    let mut start: usize = chars.len();
    while start > 0 && chars[start - 1] != SEPARATOR
        invariant
            start <= chars.len(),
            forall|i: int| start <= i < chars.len() ==> chars@[i] != SEPARATOR,
        decreases start,
    {
        start -= 1;
    }
    proof {
        lemma_after_last(chars@, SEPARATOR, start as int);
    }
    start
}

/// The index of the first dot of `chars` at or after `from`, or the length
/// of `chars` where none follows.
fn next_dot(chars: &Vec<char>, from: usize) -> (at: usize)
    requires
        from <= chars.len(),
    ensures
        from <= at <= chars.len(),
        at == from + first_index_of(chars@.skip(from as int), DOT),
{
    let mut at: usize = from;
    while at < chars.len() && chars[at] != DOT
        invariant
            from <= at <= chars.len(),
            forall|i: int| from <= i < at ==> chars@[i] != DOT,
        decreases chars.len() - at,
    {
        at += 1;
    }
    proof {
        lemma_first_index_of(chars@.skip(from as int), DOT, at - from);
    }
    at
}

/// Whether the characters of `chars` from `from` up to `to` spell `flac`, in
/// whatever case.
fn spells_flac(chars: &Vec<char>, from: usize, to: usize) -> (yes: bool)
    requires
        from <= to <= chars.len(),
    ensures
        yes == is_flac(chars@.subrange(from as int, to as int)),
{
    if to - from != 4 {
        return false;
    }
    let c0 = chars[from];
    let c1 = chars[from + 1];
    let c2 = chars[from + 2];
    let c3 = chars[from + 3];
    (c0 == 'f' || c0 == 'F') && (c1 == 'l' || c1 == 'L') && (c2 == 'a' || c2 == 'A') && (c3 == 'c'
        || c3 == 'C')
}

impl SourceType {
    /// Whether `file` can be classified: whether its final segment holds a
    /// dot. [`SourceType::from_local`] asks for it.
    pub fn has_extension(file: &str) -> (yes: bool)
        ensures
            yes == has_extension(file@),
    {
        let chars = chars_of(file);
        let start = segment_start(&chars);
        let dot = next_dot(&chars, start);
        proof {
            lemma_first_index_of_bounds(final_segment(file@), DOT);
        }
        dot < chars.len()
    }

    /// Classifies a local source by the extension of `file`: `FLAC` where it
    /// spells `flac` in whatever case, `SOURCELESS` where it is empty, and
    /// `UNSUPPORTED` otherwise. A `FLAC` source keeps `file` as its path.
    ///
    /// An identifier without an extension names no source at all, and is not
    /// accepted here: test it with [`SourceType::has_extension`] first.
    pub fn from_local(file: String) -> (kind: SourceType)
        requires
            has_extension(file@),
        ensures
            kind@ == classify(file@),
    {
        let chars = chars_of(file.as_str());
        let start = segment_start(&chars);
        let dot = next_dot(&chars, start);
        proof {
            lemma_first_index_of_bounds(final_segment(file@), DOT);
        }
        let from = dot + 1;
        let to = next_dot(&chars, from);
        proof {
            assert(after_first_dot(file@) == chars@.skip(from as int));
            assert(extension(file@) == chars@.subrange(from as int, to as int));
        }
        if spells_flac(&chars, from, to) {
            SourceType::FLAC(file)
        } else if to == from {
            SourceType::SOURCELESS
        } else {
            SourceType::UNSUPPORTED
        }
    }

    /// The path to decode, for a source that a decode task is started for:
    /// the path of a `FLAC` source. The other kinds have none, and play as
    /// silence.
    pub fn decodable_path(&self) -> (path: Option<&String>)
        ensures
            match self@ {
                SourceKind::Flac(text) => path matches Some(p) && p@ == text,
                _ => path is None,
            },
    {
        match self {
            SourceType::FLAC(path) => Some(path),
            _ => None,
        }
    }

    /// The kind of a source that is a network stream: no decoder is known
    /// for any, so it is always `UNSUPPORTED`.
    pub fn from_stream() -> (kind: SourceType)
        ensures
            kind@ == SourceKind::Unsupported,
    {
        SourceType::UNSUPPORTED
    }
}

} // verus!
