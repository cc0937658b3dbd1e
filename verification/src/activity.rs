//! The kinds of activity files, as their names tell them.

use vstd::prelude::*;

verus! {

/// The format of an activity file.
#[derive(Clone, Copy, Debug, PartialEq, Eq)]
pub enum FileType {
    Gpx,
    Fit,
    Tcx,
}

/// How an activity file is compressed.
#[derive(Clone, Copy, Debug, PartialEq, Eq)]
pub enum CompressionType {
    Uncompressed,
    Gzip,
}

/// The position of the last `.` in `name`, if there is one.
pub open spec fn last_dot(name: Seq<char>) -> Option<int>
    decreases name.len(),
{
    if name.len() == 0 {
        None
    } else if name.last() == '.' {
        Some(name.len() - 1)
    } else {
        last_dot(name.drop_last())
    }
}

/// What follows the last `.` in `name`: all of `name` if it has no `.`.
pub open spec fn extension(name: Seq<char>) -> Seq<char> {
    match last_dot(name) {
        Some(dot) => name.subrange(dot + 1, name.len() as int),
        None => name,
    }
}

/// What stands before the last `.` in `name`, if it has a `.`.
pub open spec fn stem(name: Seq<char>) -> Option<Seq<char>> {
    match last_dot(name) {
        Some(dot) => Some(name.subrange(0, dot)),
        None => None,
    }
}

/// The format that an extension stands for.
pub open spec fn format_of(ext: Seq<char>) -> Option<FileType> {
    if ext == "gpx"@ {
        Some(FileType::Gpx)
    } else if ext == "fit"@ {
        Some(FileType::Fit)
    } else if ext == "tcx"@ {
        Some(FileType::Tcx)
    } else {
        None
    }
}

/// The kind of file that a name stands for. A last extension `gz` says
/// that the file is compressed, and the extension before it gives the
/// format; any other last extension gives the format itself.
pub open spec fn file_type(name: Seq<char>) -> Option<(FileType, CompressionType)> {
    if extension(name) == "gz"@ {
        match stem(name) {
            Some(rest) => match format_of(extension(rest)) {
                Some(format) => Some((format, CompressionType::Gzip)),
                None => None,
            },
            None => None,
        }
    } else {
        match format_of(extension(name)) {
            Some(format) => Some((format, CompressionType::Uncompressed)),
            None => None,
        }
    }
}

/// A compressed file is read like the file that it holds: appending
/// `.gz` to a name keeps the format that the name stands for, unless the
/// name itself ends in `gz`.
pub proof fn lemma_gz_keeps_format(name: Seq<char>)
    requires
        extension(name) != "gz"@,
    ensures
        file_type(name + ".gz"@) == (match file_type(name) {
            Some((format, _)) => Some((format, CompressionType::Gzip)),
            None => None,
        }),
{
    reveal_strlit(".gz");
    reveal_strlit("gz");
    let zipped = name + ".gz"@;
    let n = name.len() as int;
    assert(zipped.len() == n + 3 && zipped[n] == '.' && zipped[n + 1] == 'g' && zipped[n + 2]
        == 'z');
    assert(zipped.drop_last().drop_last() =~= name.push('.'));
    assert(zipped.drop_last().last() == 'g');
    reveal_with_fuel(last_dot, 3);
    assert(last_dot(zipped) == Some(n));
    assert(extension(zipped) =~= "gz"@);
    assert(zipped.subrange(0, n) =~= name);
}

/// The characters of a text.
fn chars_of(text: &str) -> (r: Vec<char>)
    ensures
        r@ == text@,
{
    let mut out: Vec<char> = Vec::new();
    for c in it: text.chars()
        invariant
            it.seq() == text@,
            out@ == it.seq().take(it.index() as int),
    {
        out.push(c);
    }
    out
}

/// The position of the last `.` among the first `end` characters.
fn find_last_dot(chars: &Vec<char>, end: usize) -> (r: Option<usize>)
    requires
        end <= chars@.len(),
    ensures
        match r {
            Some(dot) => last_dot(chars@.take(end as int)) == Some(dot as int) && dot < end,
            None => last_dot(chars@.take(end as int)) is None,
        },
{
    let mut i: usize = end;
    while i > 0
        invariant
            i <= end <= chars@.len(),
            last_dot(chars@.take(end as int)) == last_dot(chars@.take(i as int)),
        decreases i,
    {
        assert(chars@.take(i as int).drop_last() =~= chars@.take(i - 1));
        i -= 1;
        if chars[i] == '.' {
            return Some(i);
        }
    }
    None
}

/// Whether the characters from `from` up to `to` spell `word`.
fn spells(chars: &Vec<char>, from: usize, to: usize, word: &str) -> (r: bool)
    requires
        from <= to <= chars@.len(),
    ensures
        r == (chars@.subrange(from as int, to as int) == word@),
{
    let letters = chars_of(word);
    if letters.len() != to - from {
        return false;
    }
    let mut i: usize = 0;
    while i < letters.len()
        invariant
            from <= to <= chars@.len(),
            letters@ == word@,
            letters@.len() == to - from,
            i <= letters@.len(),
            forall|j: int| 0 <= j < i ==> chars@[from + j] == letters@[j],
        decreases letters@.len() - i,
    {
        if chars[from + i] != letters[i] {
            return false;
        }
        i += 1;
    }
    assert(chars@.subrange(from as int, to as int) =~= letters@);
    true
}

/// The format that the characters from `from` up to `to` stand for.
fn format_between(chars: &Vec<char>, from: usize, to: usize) -> (r: Option<FileType>)
    requires
        from <= to <= chars@.len(),
    ensures
        r == format_of(chars@.subrange(from as int, to as int)),
{
    if spells(chars, from, to, "gpx") {
        Some(FileType::Gpx)
    } else if spells(chars, from, to, "fit") {
        Some(FileType::Fit)
    } else if spells(chars, from, to, "tcx") {
        Some(FileType::Tcx)
    } else {
        None
    }
}

/// Tells the kind of an activity file from its name, so that
/// `bar.gpx.gz` is read like `bar.gpx`.
pub fn get_file_type(file_name: &str) -> (r: Option<(FileType, CompressionType)>)
    ensures
        r == file_type(file_name@),
{
    let chars = chars_of(file_name);
    let n = chars.len();
    let dot = find_last_dot(&chars, n);
    let from = match dot {
        Some(dot) => dot + 1,
        None => 0,
    };
    assert(chars@.subrange(0, n as int) =~= chars@);
    if spells(&chars, from, n, "gz") {
        match dot {
            Some(dot) => {
                let inner = find_last_dot(&chars, dot);
                let inner_from = match inner {
                    Some(inner) => inner + 1,
                    None => 0,
                };
                let ghost rest = chars@.subrange(0, dot as int);
                assert(extension(rest) =~= chars@.subrange(inner_from as int, dot as int));
                match format_between(&chars, inner_from, dot) {
                    Some(format) => Some((format, CompressionType::Gzip)),
                    None => None,
                }
            },
            None => None,
        }
    } else {
        match format_between(&chars, from, n) {
            Some(format) => Some((format, CompressionType::Uncompressed)),
            None => None,
        }
    }
}

} // verus!
