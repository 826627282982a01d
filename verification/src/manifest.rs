//! The release manifest: a mapping from index path to expected digest,
//! parsed from signed, verified text.
//!
//! The textual form is one entry per line, `path digest`, the two fields
//! separated by a single space; empty lines are ignored.  A line with any
//! other shape, and a duplicate path, are rejected as malformed: the mapping
//! either holds every entry of the text with unique paths, or does not exist.

use vstd::prelude::*;
use vstd::string::*;
use crate::errors::Error;
use crate::text::{split_on, split_str, eq_str};

verus! {

/// One manifest line, parsed: the line must hold exactly two nonempty
/// fields, the path and the digest, separated by a single space.
pub open spec fn parse_line_spec(line: Seq<char>) -> Option<(Seq<char>, Seq<char>)> {
    let parts = split_on(line, ' ');
    if parts.len() == 2 && parts[0].len() > 0 && parts[1].len() > 0 {
        Some((parts[0], parts[1]))
    } else {
        None
    }
}

/// The digest of the first entry whose path equals `path`.
pub open spec fn lookup_spec(
    entries: Seq<(Seq<char>, Seq<char>)>,
    path: Seq<char>,
) -> Option<Seq<char>>
    decreases entries.len(),
{
    if entries.len() == 0 {
        None
    } else if entries[0].0 == path {
        Some(entries[0].1)
    } else {
        lookup_spec(entries.skip(1), path)
    }
}

/// Folds the lines from `i` on into `acc`: empty lines are skipped, a
/// malformed line or a path already present rejects the whole text.
pub open spec fn parse_entries_spec(
    lines: Seq<Seq<char>>,
    i: int,
    acc: Seq<(Seq<char>, Seq<char>)>,
) -> Option<Seq<(Seq<char>, Seq<char>)>>
    decreases lines.len() - i,
{
    if i < 0 || i >= lines.len() {
        Some(acc)
    } else if lines[i].len() == 0 {
        parse_entries_spec(lines, i + 1, acc)
    } else {
        match parse_line_spec(lines[i]) {
            None => None,
            Some(e) => if lookup_spec(acc, e.0) is Some {
                None
            } else {
                parse_entries_spec(lines, i + 1, acc.push(e))
            },
        }
    }
}

/// What a release manifest text parses to, if it is well formed.
pub open spec fn parse_manifest_spec(text: Seq<char>) -> Option<Seq<(Seq<char>, Seq<char>)>> {
    parse_entries_spec(split_on(text, '\n'), 0, Seq::empty())
}

/// The path field of a well-formed manifest line.
pub open spec fn line_path(line: Seq<char>) -> Seq<char>
    recommends
        parse_line_spec(line) is Some,
{
    split_on(line, ' ')[0]
}

/// How many lines from `i` on are nonempty.
pub open spec fn count_nonempty(lines: Seq<Seq<char>>, i: int) -> int
    decreases lines.len() - i,
{
    if i < 0 || i >= lines.len() {
        0
    } else {
        (if lines[i].len() == 0 { 0int } else { 1int }) + count_nonempty(lines, i + 1)
    }
}

/// No two entries share a path.
pub open spec fn unique_paths(entries: Seq<(Seq<char>, Seq<char>)>) -> bool {
    forall|j: int, k: int| 0 <= j < k < entries.len() ==> entries[j].0 != entries[k].0
}

/// `lookup_spec` misses exactly when no entry holds the path.
pub proof fn lemma_lookup_none(entries: Seq<(Seq<char>, Seq<char>)>, path: Seq<char>)
    ensures
        (lookup_spec(entries, path) is None) <==> (forall|j: int|
            0 <= j < entries.len() ==> entries[j].0 != path),
    decreases entries.len(),
{
    if entries.len() == 0 {
    } else if entries[0].0 == path {
    } else {
        lemma_lookup_none(entries.skip(1), path);
        assert(forall|j: int| 1 <= j < entries.len() ==> entries[j] == entries.skip(1)[j - 1]);
    }
}

proof fn lemma_parse_entries_count(
    lines: Seq<Seq<char>>,
    i: int,
    acc: Seq<(Seq<char>, Seq<char>)>,
)
    ensures
        parse_entries_spec(lines, i, acc) matches Some(es) ==> es.len() == acc.len()
            + count_nonempty(lines, i),
    decreases lines.len() - i,
{
    if i < 0 || i >= lines.len() {
    } else if lines[i].len() == 0 {
        lemma_parse_entries_count(lines, i + 1, acc);
    } else {
        match parse_line_spec(lines[i]) {
            None => {},
            Some(e) => {
                if lookup_spec(acc, e.0) is None {
                    lemma_parse_entries_count(lines, i + 1, acc.push(e));
                }
            },
        }
    }
}

proof fn lemma_parse_entries_unique(lines: Seq<Seq<char>>, i: int, acc: Seq<(Seq<char>, Seq<char>)>)
    requires
        unique_paths(acc),
    ensures
        parse_entries_spec(lines, i, acc) matches Some(es) ==> unique_paths(es),
    decreases lines.len() - i,
{
    if i < 0 || i >= lines.len() {
    } else if lines[i].len() == 0 {
        lemma_parse_entries_unique(lines, i + 1, acc);
    } else {
        match parse_line_spec(lines[i]) {
            None => {},
            Some(e) => {
                if lookup_spec(acc, e.0) is None {
                    lemma_lookup_none(acc, e.0);
                    assert(unique_paths(acc.push(e)));
                    lemma_parse_entries_unique(lines, i + 1, acc.push(e));
                }
            },
        }
    }
}

proof fn lemma_parse_entries_pending(
    lines: Seq<Seq<char>>,
    i: int,
    acc: Seq<(Seq<char>, Seq<char>)>,
)
    requires
        0 <= i,
    ensures
        parse_entries_spec(lines, i, acc) is Some ==> forall|j: int|
            i <= j < lines.len() && parse_line_spec(lines[j]) is Some ==> lookup_spec(
                acc,
                line_path(lines[j]),
            ) is None,
    decreases lines.len() - i,
{
    if i < 0 || i >= lines.len() {
    } else if lines[i].len() == 0 {
        lemma_parse_entries_pending(lines, i + 1, acc);
        assert(split_on(lines[i], ' ').len() == 1);
        assert(parse_line_spec(lines[i]) is None);
        if parse_entries_spec(lines, i, acc) is Some {
            assert forall|j: int|
                i <= j < lines.len() && parse_line_spec(lines[j]) is Some implies lookup_spec(
                acc,
                line_path(lines[j]),
            ) is None by {
                assert(j != i);
            }
        }
    } else {
        match parse_line_spec(lines[i]) {
            None => {
                assert(parse_entries_spec(lines, i, acc) is None);
            },
            Some(e) => {
                if lookup_spec(acc, e.0) is None {
                    assert(parse_entries_spec(lines, i, acc) == parse_entries_spec(
                        lines,
                        i + 1,
                        acc.push(e),
                    ));
                    lemma_parse_entries_pending(lines, i + 1, acc.push(e));
                    if parse_entries_spec(lines, i, acc) is Some {
                        assert forall|j: int|
                            i <= j < lines.len() && parse_line_spec(lines[j]) is Some implies lookup_spec(
                            acc,
                            line_path(lines[j]),
                        ) is None by {
                            if j == i {
                                assert(line_path(lines[i]) == e.0);
                            } else {
                                lemma_lookup_none(acc.push(e), line_path(lines[j]));
                                lemma_lookup_none(acc, line_path(lines[j]));
                                assert(forall|k: int|
                                    0 <= k < acc.len() ==> acc.push(e)[k] == acc[k]);
                            }
                        }
                    }
                } else {
                    assert(parse_entries_spec(lines, i, acc) is None);
                }
            },
        }
    }
}

proof fn lemma_parse_entries_distinct(
    lines: Seq<Seq<char>>,
    i: int,
    acc: Seq<(Seq<char>, Seq<char>)>,
)
    requires
        0 <= i,
    ensures
        parse_entries_spec(lines, i, acc) is Some ==> forall|j: int, k: int|
            i <= j < k < lines.len() && parse_line_spec(lines[j]) is Some && parse_line_spec(
                lines[k],
            ) is Some ==> line_path(lines[j]) != line_path(lines[k]),
    decreases lines.len() - i,
{
    if i < 0 || i >= lines.len() {
    } else if lines[i].len() == 0 {
        lemma_parse_entries_distinct(lines, i + 1, acc);
        assert(split_on(lines[i], ' ').len() == 1);
        assert(parse_line_spec(lines[i]) is None);
        if parse_entries_spec(lines, i, acc) is Some {
            assert forall|j: int, k: int|
                i <= j < k < lines.len() && parse_line_spec(lines[j]) is Some && parse_line_spec(
                    lines[k],
                ) is Some implies line_path(lines[j]) != line_path(lines[k]) by {
                assert(j != i);
            }
        }
    } else {
        match parse_line_spec(lines[i]) {
            None => {
                assert(parse_entries_spec(lines, i, acc) is None);
            },
            Some(e) => {
                if lookup_spec(acc, e.0) is None {
                    assert(parse_entries_spec(lines, i, acc) == parse_entries_spec(
                        lines,
                        i + 1,
                        acc.push(e),
                    ));
                    lemma_parse_entries_distinct(lines, i + 1, acc.push(e));
                    if parse_entries_spec(lines, i, acc) is Some {
                        lemma_parse_entries_pending(lines, i + 1, acc.push(e));
                        assert forall|j: int, k: int|
                            i <= j < k < lines.len() && parse_line_spec(lines[j]) is Some
                                && parse_line_spec(lines[k]) is Some implies line_path(lines[j])
                            != line_path(lines[k]) by {
                            if j == i {
                                lemma_lookup_none(acc.push(e), line_path(lines[k]));
                                assert(acc.push(e)[acc.len() as int] == e);
                                assert(e.0 == line_path(lines[i]));
                            }
                        }
                    }
                } else {
                    assert(parse_entries_spec(lines, i, acc) is None);
                }
            },
        }
    }
}

/// A manifest text with `n` nonempty, well-formed, pairwise-distinct
/// `path digest` lines parses to a mapping of exactly `n` entries, and the
/// mapping's paths are unique; a text in which two well-formed lines share
/// a path never parses.
pub proof fn lemma_manifest_mapping(text: Seq<char>)
    ensures
        parse_manifest_spec(text) matches Some(es) ==> es.len() == count_nonempty(
            split_on(text, '\n'),
            0,
        ) && unique_paths(es),
        parse_manifest_spec(text) is Some ==> forall|j: int, k: int|
            0 <= j < k < split_on(text, '\n').len() && parse_line_spec(
                split_on(text, '\n')[j],
            ) is Some && parse_line_spec(split_on(text, '\n')[k]) is Some ==> line_path(
                split_on(text, '\n')[j],
            ) != line_path(split_on(text, '\n')[k]),
{
    lemma_parse_entries_count(split_on(text, '\n'), 0, Seq::empty());
    lemma_parse_entries_unique(split_on(text, '\n'), 0, Seq::empty());
    lemma_parse_entries_distinct(split_on(text, '\n'), 0, Seq::empty());
}

/// A parsed release manifest: `path -> digest` entries with unique paths.
pub struct ReleaseManifest {
    pub entries: Vec<(String, String)>,
}

impl View for ReleaseManifest {
    type V = Seq<(Seq<char>, Seq<char>)>;

    open spec fn view(&self) -> Seq<(Seq<char>, Seq<char>)> {
        self.entries.deep_view()
    }
}

/// The digest recorded for `path`, searching front to back.
pub fn lookup_digest(entries: &Vec<(String, String)>, path: &str) -> (r: Option<String>)
    ensures
        match r {
            Some(d) => lookup_spec(entries.deep_view(), path@) == Some(d@),
            None => lookup_spec(entries.deep_view(), path@) is None,
        },
{
    let ghost dv = entries.deep_view();
    let mut j: usize = 0;
    proof {
        assert(dv.skip(0) =~= dv);
    }
    while j < entries.len()
        invariant
            0 <= j <= entries@.len(),
            dv == entries.deep_view(),
            lookup_spec(dv, path@) == lookup_spec(dv.skip(j as int), path@),
        decreases entries@.len() - j,
    {
        proof {
            assert(dv.skip(j as int)[0] == dv[j as int]);
            assert(dv.skip(j as int).skip(1) =~= dv.skip(j as int + 1));
        }
        let e = &entries[j];
        if eq_str(e.0.as_str(), path) {
            return Some(e.1.clone());
        }
        j = j + 1;
    }
    proof {
        assert(dv.skip(j as int) =~= Seq::<(Seq<char>, Seq<char>)>::empty());
    }
    None
}

impl ReleaseManifest {
    /// The expected digest this manifest records for `path`, if any.
    pub fn get(&self, path: &str) -> (r: Option<String>)
        ensures
            match r {
                Some(d) => lookup_spec(self@, path@) == Some(d@),
                None => lookup_spec(self@, path@) is None,
            },
    {
        lookup_digest(&self.entries, path)
    }
}

/// Parse a release manifest text.  Returns the mapping exactly when
/// [`parse_manifest_spec`] accepts the text, and `ManifestMalformed`
/// exactly when it rejects it.
pub fn parse_manifest(text: &str) -> (r: Result<ReleaseManifest, Error>)
    ensures
        match r {
            Ok(m) => parse_manifest_spec(text@) == Some(m@),
            Err(e) => parse_manifest_spec(text@) is None && e == Error::ManifestMalformed,
        },
{
    let lines = split_str(text, '\n');
    let ghost lv = lines.deep_view();
    let mut entries: Vec<(String, String)> = Vec::new();
    let mut i: usize = 0;
    proof {
        assert(entries.deep_view() =~= Seq::<(Seq<char>, Seq<char>)>::empty());
    }
    while i < lines.len()
        invariant
            0 <= i <= lines@.len(),
            lv == lines.deep_view(),
            parse_manifest_spec(text@) == parse_entries_spec(lv, i as int, entries.deep_view()),
        decreases lines@.len() - i,
    {
        let line = &lines[i];
        proof {
            assert(lv[i as int] == line@);
        }
        if !line.as_str().is_empty() {
            let parts = split_str(line.as_str(), ' ');
            if parts.len() != 2 || parts[0].as_str().is_empty() || parts[1].as_str().is_empty() {
                proof {
                    assert(parse_line_spec(lv[i as int]) is None);
                }
                return Err(Error::ManifestMalformed);
            }
            proof {
                assert(split_on(line@, ' ')[0] == parts[0]@);
                assert(split_on(line@, ' ')[1] == parts[1]@);
                assert(parse_line_spec(lv[i as int]) == Some((parts[0]@, parts[1]@)));
            }
            if lookup_digest(&entries, parts[0].as_str()).is_some() {
                return Err(Error::ManifestMalformed);
            }
            let mut parts = parts;
            let d = parts.pop().unwrap();
            let p = parts.pop().unwrap();
            let ghost before = entries.deep_view();
            entries.push((p, d));
            proof {
                assert(entries.deep_view() =~= before.push((p@, d@)));
            }
        }
        i = i + 1;
    }
    Ok(ReleaseManifest { entries })
}

} // verus!
