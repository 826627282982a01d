//! The package index: an ordered sequence of package records parsed from
//! digest-verified text, and the exact-name lookup over it.
//!
//! The textual form is one record per line, `name version filename digest`,
//! the four fields separated by single spaces; empty lines are ignored.
//! Records with duplicate names are kept in order: lookup returns the first
//! match, a policy [`find_spec`] fixes and the lookup's contract restates.

use vstd::prelude::*;
use vstd::string::*;
use crate::errors::Error;
use crate::text::{split_on, split_str, eq_str};

verus! {

/// The mathematical image of a [`PackageRecord`].
pub ghost struct RecordV {
    pub package: Seq<char>,
    pub version: Seq<char>,
    pub filename: Seq<char>,
    pub sha256sum: Seq<char>,
}

/// One entry of a package index: the package's name, its version, the
/// remote path of its artifact, and the expected digest of that artifact.
/// Once parsed from a digest-verified index, a record is trusted input for
/// the artifact check; the record itself is never re-verified.
#[derive(Clone, Debug)]
pub struct PackageRecord {
    pub package: String,
    pub version: String,
    pub filename: String,
    pub sha256sum: String,
}

impl View for PackageRecord {
    type V = RecordV;

    open spec fn view(&self) -> RecordV {
        RecordV {
            package: self.package@,
            version: self.version@,
            filename: self.filename@,
            sha256sum: self.sha256sum@,
        }
    }
}

impl DeepView for PackageRecord {
    type V = RecordV;

    open spec fn deep_view(&self) -> RecordV {
        self@
    }
}

impl PackageRecord {
    /// A field-for-field copy, with the copy's image pinned down.
    pub fn duplicate(&self) -> (r: PackageRecord)
        ensures
            r@ == self@,
    {
        PackageRecord {
            package: self.package.clone(),
            version: self.version.clone(),
            filename: self.filename.clone(),
            sha256sum: self.sha256sum.clone(),
        }
    }
}

/// One index line, parsed: the line must hold exactly four nonempty fields
/// separated by single spaces.
pub open spec fn parse_record_spec(line: Seq<char>) -> Option<RecordV> {
    let parts = split_on(line, ' ');
    if parts.len() == 4 && parts[0].len() > 0 && parts[1].len() > 0 && parts[2].len() > 0
        && parts[3].len() > 0 {
        Some(
            RecordV {
                package: parts[0],
                version: parts[1],
                filename: parts[2],
                sha256sum: parts[3],
            },
        )
    } else {
        None
    }
}

/// Folds the lines from `i` on into `acc`: empty lines are skipped, a
/// malformed line rejects the whole text.
pub open spec fn parse_records_spec(lines: Seq<Seq<char>>, i: int, acc: Seq<RecordV>) -> Option<
    Seq<RecordV>,
>
    decreases lines.len() - i,
{
    if i < 0 || i >= lines.len() {
        Some(acc)
    } else if lines[i].len() == 0 {
        parse_records_spec(lines, i + 1, acc)
    } else {
        match parse_record_spec(lines[i]) {
            None => None,
            Some(rec) => parse_records_spec(lines, i + 1, acc.push(rec)),
        }
    }
}

/// What a package index text parses to, if it is well formed.
pub open spec fn parse_index_spec(text: Seq<char>) -> Option<Seq<RecordV>> {
    parse_records_spec(split_on(text, '\n'), 0, Seq::empty())
}

/// The first record whose package name equals `name`.
pub open spec fn find_spec(records: Seq<RecordV>, name: Seq<char>) -> Option<RecordV>
    decreases records.len(),
{
    if records.len() == 0 {
        None
    } else if records[0].package == name {
        Some(records[0])
    } else {
        find_spec(records.skip(1), name)
    }
}

/// The lookup policy, written out: when some record matches, `find_spec`
/// returns a match and it is the first one; when none matches, it misses.
pub proof fn lemma_find_spec_first(records: Seq<RecordV>, name: Seq<char>)
    ensures
        match find_spec(records, name) {
            Some(rec) => exists|i: int|
                0 <= i < records.len() && records[i] == rec && rec.package == name && (forall|
                    j: int,
                |
                    0 <= j < i ==> records[j].package != name),
            None => forall|j: int| 0 <= j < records.len() ==> records[j].package != name,
        },
    decreases records.len(),
{
    if records.len() == 0 {
    } else if records[0].package == name {
        let i = 0int;
        assert(records[i] == find_spec(records, name).unwrap() && records[i].package == name && (
        forall|j: int| 0 <= j < i ==> records[j].package != name));
    } else {
        lemma_find_spec_first(records.skip(1), name);
        assert(forall|j: int| 1 <= j < records.len() ==> records[j] == records.skip(1)[j - 1]);
        match find_spec(records, name) {
            Some(rec) => {
                let i0 = choose|i: int|
                    0 <= i < records.skip(1).len() && records.skip(1)[i] == rec && rec.package
                        == name && (forall|j: int|
                        0 <= j < i ==> records.skip(1)[j].package != name);
                assert(records[i0 + 1] == rec && (forall|j: int|
                    0 <= j < i0 + 1 ==> records[j].package != name));
            },
            None => {},
        }
    }
}

/// Parse a package index text.  Returns the records exactly when
/// [`parse_index_spec`] accepts the text, and `IndexMalformed` exactly when
/// it rejects it.
pub fn parse_index(text: &str) -> (r: Result<Vec<PackageRecord>, Error>)
    ensures
        match r {
            Ok(recs) => parse_index_spec(text@) == Some(recs.deep_view()),
            Err(e) => parse_index_spec(text@) is None && e == Error::IndexMalformed,
        },
{
    let lines = split_str(text, '\n');
    let ghost lv = lines.deep_view();
    let mut records: Vec<PackageRecord> = Vec::new();
    let mut i: usize = 0;
    proof {
        assert(records.deep_view() =~= Seq::<RecordV>::empty());
    }
    while i < lines.len()
        invariant
            0 <= i <= lines@.len(),
            lv == lines.deep_view(),
            parse_index_spec(text@) == parse_records_spec(lv, i as int, records.deep_view()),
        decreases lines@.len() - i,
    {
        let line = &lines[i];
        proof {
            assert(lv[i as int] == line@);
        }
        if !line.as_str().is_empty() {
            let parts = split_str(line.as_str(), ' ');
            if parts.len() != 4 || parts[0].as_str().is_empty() || parts[1].as_str().is_empty()
                || parts[2].as_str().is_empty() || parts[3].as_str().is_empty() {
                proof {
                    assert(parse_record_spec(lv[i as int]) is None);
                }
                return Err(Error::IndexMalformed);
            }
            let mut parts = parts;
            let sha256sum = parts.pop().unwrap();
            let filename = parts.pop().unwrap();
            let version = parts.pop().unwrap();
            let package = parts.pop().unwrap();
            let rec = PackageRecord { package, version, filename, sha256sum };
            proof {
                assert(split_on(line@, ' ')[0] == rec.package@);
                assert(split_on(line@, ' ')[1] == rec.version@);
                assert(split_on(line@, ' ')[2] == rec.filename@);
                assert(split_on(line@, ' ')[3] == rec.sha256sum@);
                assert(parse_record_spec(lv[i as int]) == Some(rec@));
            }
            let ghost before = records.deep_view();
            records.push(rec);
            proof {
                assert(records.deep_view() =~= before.push(rec@));
            }
        }
        i = i + 1;
    }
    Ok(records)
}

/// Linear scan for the first record whose package name equals `name`,
/// exact and case-sensitive.  Succeeds exactly when some record matches;
/// absence is `PackageNotFound`.
pub fn find_package(records: &Vec<PackageRecord>, name: &str) -> (r: Result<PackageRecord, Error>)
    ensures
        match r {
            Ok(rec) => find_spec(records.deep_view(), name@) == Some(rec@),
            Err(e) => find_spec(records.deep_view(), name@) is None && e
                == Error::PackageNotFound,
        },
{
    let ghost dv = records.deep_view();
    let mut j: usize = 0;
    proof {
        assert(dv.skip(0) =~= dv);
    }
    while j < records.len()
        invariant
            0 <= j <= records@.len(),
            dv == records.deep_view(),
            find_spec(dv, name@) == find_spec(dv.skip(j as int), name@),
        decreases records@.len() - j,
    {
        proof {
            assert(dv.skip(j as int)[0] == dv[j as int]);
            assert(dv.skip(j as int).skip(1) =~= dv.skip(j as int + 1));
        }
        let rec = &records[j];
        if eq_str(rec.package.as_str(), name) {
            return Ok(rec.duplicate());
        }
        j = j + 1;
    }
    proof {
        assert(dv.skip(j as int) =~= Seq::<RecordV>::empty());
    }
    Err(Error::PackageNotFound)
}

} // verus!
