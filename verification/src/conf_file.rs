//! Parser for the `key = value` config-file format.
//!
//! Blank lines and lines whose first non-whitespace character is `#` are
//! skipped; every other line must hold an `=`, splitting a key and a value
//! that are trimmed of surrounding whitespace. A line without `=` is a
//! parse error carrying its 1-based number, and the caller discards the
//! whole file.

use vstd::prelude::*;
use crate::errors::ConfigError;
use crate::text::{
    find_char, lemma_find_char_at, lemma_find_char_none, split_char, split_on, trim_of,
    trim_spec, views_of,
};

verus! {

/// The lines of `s`: segments between newlines, a trailing empty
/// segment dropped (so a final newline adds no line).
pub open spec fn lines_spec(s: Seq<char>) -> Seq<Seq<char>> {
    let segs = split_char(s, '\n');
    if segs.len() > 0 && segs.last().len() == 0 {
        segs.drop_last()
    } else {
        segs
    }
}

/// A line the parser skips: blank, or a `#` comment.
pub open spec fn is_skip_line(l: Seq<char>) -> bool {
    trim_spec(l).len() == 0 || trim_spec(l)[0] == '#'
}

/// A line the parser accepts: skipped, or holding an `=`.
pub open spec fn line_ok(l: Seq<char>) -> bool {
    is_skip_line(l) || find_char(trim_spec(l), '=') >= 0
}

/// The key/value pair of a non-skipped line holding an `=`: both sides
/// of the first `=`, trimmed.
pub open spec fn line_entry(l: Seq<char>) -> (Seq<char>, Seq<char>) {
    let t = trim_spec(l);
    let e = find_char(t, '=');
    (trim_spec(t.take(e)), trim_spec(t.skip(e + 1)))
}

/// The key/value pairs of a sequence of lines, in order.
pub open spec fn entries_of(lines: Seq<Seq<char>>) -> Seq<(Seq<char>, Seq<char>)>
    decreases lines.len(),
{
    if lines.len() == 0 {
        Seq::empty()
    } else {
        let rest = entries_of(lines.drop_last());
        if is_skip_line(lines.last()) {
            rest
        } else {
            rest.push(line_entry(lines.last()))
        }
    }
}

/// The views of a vector of string pairs.
pub open spec fn entry_views(v: Seq<(String, String)>) -> Seq<(Seq<char>, Seq<char>)> {
    v.map_values(|p: (String, String)| (p.0@, p.1@))
}

/// The value of the last entry with the given key, if any: a later
/// line overrides an earlier one.
pub open spec fn map_get(entries: Seq<(Seq<char>, Seq<char>)>, key: Seq<char>) -> Option<
    Seq<char>,
>
    decreases entries.len(),
{
    if entries.len() == 0 {
        None
    } else if entries.last().0 == key {
        Some(entries.last().1)
    } else {
        map_get(entries.drop_last(), key)
    }
}

/// Parses the text of a config file into its key/value pairs.
///
/// Returns the pairs of every `key = value` line in order, or the
/// 1-based number of the first line that is neither blank, nor a
/// comment, nor holds an `=`.
pub fn parse_config_text(text: &str) -> (r: Result<Vec<(String, String)>, ConfigError>)
    ensures
        r is Ok <==> (forall|i: int|
            0 <= i < lines_spec(text@).len() ==> line_ok(lines_spec(text@)[i])),
        r matches Ok(m) ==> entry_views(m@) == entries_of(lines_spec(text@)),
        r matches Err(e) ==> (e matches ConfigError::MalformedLine(ln) && 1 <= ln
            <= lines_spec(text@).len() && !line_ok(lines_spec(text@)[ln - 1]) && (forall|j: int|
            0 <= j < ln - 1 ==> line_ok(lines_spec(text@)[j]))),
{
    let lines = split_on(text, '\n');
    let mut count = lines.len();
    if count > 0 && lines[count - 1].as_str().unicode_len() == 0 {
        count = count - 1;
    }
    let ghost gl = lines_spec(text@);
    proof {
        assert(views_of(lines@).len() == lines@.len());
        if lines@.len() > 0 && lines@[lines@.len() - 1]@.len() == 0 {
            assert(gl =~= views_of(lines@).drop_last());
        } else {
            assert(gl =~= views_of(lines@));
        }
        assert(gl.len() == count);
        assert(forall|k: int| 0 <= k < count ==> gl[k] == #[trigger] lines@[k]@);
    }
    let mut out: Vec<(String, String)> = Vec::new();
    let mut i: usize = 0;
    proof {
        assert(gl.take(0) =~= Seq::<Seq<char>>::empty());
        assert(entry_views(out@) =~= entries_of(gl.take(0)));
    }
    while i < count
        invariant
            gl == lines_spec(text@),
            count == gl.len(),
            count <= lines@.len(),
            0 <= i <= count,
            forall|k: int| 0 <= k < count ==> gl[k] == #[trigger] lines@[k]@,
            forall|k: int| 0 <= k < i ==> line_ok(#[trigger] gl[k]),
            entry_views(out@) == entries_of(gl.take(i as int)),
        decreases count - i,
    {
        let t = trim_of(lines[i].as_str());
        let tn = t.unicode_len();
        proof {
            assert(gl.take(i + 1).drop_last() =~= gl.take(i as int));
            assert(gl.take(i + 1).last() == gl[i as int]);
        }
        if tn == 0 {
            proof {
                assert(entries_of(gl.take(i + 1)) == entries_of(gl.take(i as int)));
            }
        } else if t.get_char(0) == '#' {
            proof {
                assert(entries_of(gl.take(i + 1)) == entries_of(gl.take(i as int)));
            }
        } else {
            let mut j: usize = 0;
            while j < tn && t.get_char(j) != '='
                invariant
                    tn == t@.len(),
                    0 <= j <= tn,
                    forall|k: int| 0 <= k < j ==> t@[k] != '=',
                decreases tn - j,
            {
                j = j + 1;
            }
            if j == tn {
                proof {
                    lemma_find_char_none(t@, '=');
                    assert(t@ == trim_spec(gl[i as int]));
                    assert(!line_ok(lines_spec(text@)[i as int]));
                }
                return Err(ConfigError::MalformedLine(i + 1));
            }
            proof {
                lemma_find_char_at(t@, '=', j as int);
            }
            let key = trim_of(t.substring_char(0, j)).to_owned();
            let val = trim_of(t.substring_char(j + 1, tn)).to_owned();
            proof {
                let lt = trim_spec(gl[i as int]);
                assert(lt.subrange(0, j as int) =~= lt.take(j as int));
                assert(lt.subrange(j + 1, tn as int) =~= lt.skip(j + 1));
                assert((key@, val@) == line_entry(gl[i as int]));
                assert(!is_skip_line(gl[i as int]));
            }
            out.push((key, val));
            proof {
                assert(entry_views(out@) =~= entries_of(gl.take(i as int)).push(
                    line_entry(gl[i as int]),
                ));
            }
        }
        i = i + 1;
    }
    proof {
        assert(gl.take(count as int) =~= gl);
    }
    Ok(out)
}

/// Looks up a key among parsed entries; a later entry wins.
pub fn lookup(entries: &Vec<(String, String)>, key: &str) -> (r: Option<String>)
    ensures
        r matches Some(v) ==> map_get(entry_views(entries@), key@) == Some(v@),
        r is None <==> map_get(entry_views(entries@), key@) is None,
{
    let mut i: usize = entries.len();
    proof {
        assert(entry_views(entries@).take(i as int) =~= entry_views(entries@));
    }
    while i > 0
        invariant
            0 <= i <= entries.len(),
            map_get(entry_views(entries@), key@) == map_get(
                entry_views(entries@).take(i as int),
                key@,
            ),
        decreases i,
    {
        proof {
            assert(entry_views(entries@).take(i as int).last() == (
                entries@[i - 1].0@,
                entries@[i - 1].1@,
            ));
            assert(entry_views(entries@).take(i as int).drop_last() =~= entry_views(
                entries@,
            ).take(i - 1));
        }
        if crate::text::str_eq(entries[i - 1].0.as_str(), key) {
            return Some(entries[i - 1].1.clone());
        }
        i = i - 1;
    }
    proof {
        assert(entry_views(entries@).take(0) =~= Seq::<(Seq<char>, Seq<char>)>::empty());
    }
    None
}

} // verus!
