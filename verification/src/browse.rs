//! The paper list of the browse page: which files the subject, year, school
//! and search filters let through.

use vstd::prelude::*;
use crate::models::PaperFile;
use crate::nav::FilterState;
use crate::text::{chars_of, contains_chars, lowercase_of, seq_contains, str_eq, to_lowercase};

verus! {

/// Whether a file passes the filters; `query` is the lower-cased search text,
/// matched against the lower-cased file name and subject.
pub open spec fn file_passes(
    f: PaperFile,
    subject: Option<Seq<char>>,
    year: Option<i32>,
    school: Option<Seq<char>>,
    query: Seq<char>,
) -> bool {
    &&& (match subject {
        Some(s) => s == f.file_subject@,
        None => true,
    })
    &&& (match year {
        Some(y) => y as int == f.file_year as int,
        None => true,
    })
    &&& (match school {
        Some(s) => s == f.school_name@,
        None => true,
    })
    &&& (query.len() == 0 || seq_contains(lowercase_of(f.file_name@), query)
        || seq_contains(lowercase_of(f.file_subject@), query))
}

/// Mathematical form of an optional text.
pub open spec fn opt_chars(o: Option<String>) -> Option<Seq<char>> {
    match o {
        Some(s) => Some(s@),
        None => None,
    }
}

fn opt_matches(want: &Option<String>, have: &String) -> (r: bool)
    ensures
        r == match opt_chars(*want) {
            Some(s) => s == have@,
            None => true,
        },
{
    match want {
        Some(s) => str_eq(s.as_str(), have.as_str()),
        None => true,
    }
}

/// Whether one file passes the filters; `query` is the lower-cased search text.
pub fn file_matches(file: &PaperFile, filters: &FilterState, year: Option<i32>, query: &str) -> (r: bool)
    ensures
        r == file_passes(*file, opt_chars(filters.subject), year, opt_chars(filters.school), query@),
{
    let sub_ok = opt_matches(&filters.subject, &file.file_subject);
    let yr_ok = match year {
        Some(y) => y as i64 == file.file_year,
        None => true,
    };
    let sch_ok = opt_matches(&filters.school, &file.school_name);
    let q = chars_of(query);
    let q_ok = q.len() == 0
        || contains_chars(chars_of(to_lowercase(file.file_name.as_str()).as_str()).as_slice(), q.as_slice())
        || contains_chars(chars_of(to_lowercase(file.file_subject.as_str()).as_str()).as_slice(), q.as_slice());
    sub_ok && yr_ok && sch_ok && q_ok
}

/// The files that pass the filters, in order; `search` is the search box text
/// (lower-cased before matching).
pub fn filter_files<'a>(files: &'a [PaperFile], filters: &FilterState, year: Option<i32>, search: &str) -> (r: Vec<&'a PaperFile>)
    ensures
        r@ == files@.filter(|f: PaperFile| file_passes(f, opt_chars(filters.subject), year, opt_chars(filters.school), lowercase_of(search@))).map_values(|f: PaperFile| &f),
{
    let q = to_lowercase(search);
    let ghost pred = |f: PaperFile| file_passes(f, opt_chars(filters.subject), year, opt_chars(filters.school), lowercase_of(search@));
    let mut out: Vec<&'a PaperFile> = Vec::new();
    let mut i: usize = 0;
    while i < files.len()
        invariant
            0 <= i <= files@.len(),
            q@ == lowercase_of(search@),
            pred == (|f: PaperFile| file_passes(f, opt_chars(filters.subject), year, opt_chars(filters.school), lowercase_of(search@))),
            out@ == files@.take(i as int).filter(pred).map_values(|f: PaperFile| &f),
        decreases files.len() - i,
    {
        proof {
            reveal(Seq::filter);
            assert(files@.take(i + 1).drop_last() =~= files@.take(i as int));
        }
        if file_matches(&files[i], filters, year, q.as_str()) {
            out.push(&files[i]);
        }
        proof {
            assert(out@ =~= files@.take(i + 1).filter(pred).map_values(|f: PaperFile| &f));
        }
        i = i + 1;
    }
    assert(files@.take(i as int) =~= files@);
    out
}


/// Without filters and search text every file passes; a chosen subject,
/// year or school keeps only files that have it; a search text keeps only
/// files whose lower-cased name or subject contains it, and with no other
/// filter every such file.
pub proof fn lemma_file_filter_rules(f: PaperFile, subject: Option<Seq<char>>, year: Option<i32>, school: Option<Seq<char>>, query: Seq<char>)
    ensures
        file_passes(f, None, None, None, Seq::empty()),
        (subject matches Some(s) && s != f.file_subject@) ==> !file_passes(f, subject, year, school, query),
        (school matches Some(s) && s != f.school_name@) ==> !file_passes(f, subject, year, school, query),
        (year matches Some(y) && y as int != f.file_year as int) ==> !file_passes(f, subject, year, school, query),
        (query.len() > 0 && file_passes(f, subject, year, school, query)) ==> (seq_contains(lowercase_of(f.file_name@), query)
            || seq_contains(lowercase_of(f.file_subject@), query)),
        (seq_contains(lowercase_of(f.file_name@), query) || seq_contains(lowercase_of(f.file_subject@), query))
            ==> file_passes(f, None, None, None, query),
        file_passes(f, Some(f.file_subject@), Some(f.file_year as i32), Some(f.school_name@), Seq::empty())
            <==> (f.file_year as i32) as int == f.file_year as int,
{
}

/// Filtering keeps exactly the files that pass, in order.
pub proof fn lemma_filter_keeps_passing(files: Seq<PaperFile>, subject: Option<Seq<char>>, year: Option<i32>, school: Option<Seq<char>>, query: Seq<char>)
    ensures
        ({
            let kept = files.filter(|f: PaperFile| file_passes(f, subject, year, school, query));
            &&& forall|i: int| 0 <= i < kept.len() ==> file_passes(#[trigger] kept[i], subject, year, school, query)
            &&& forall|i: int| 0 <= i < files.len() && file_passes(files[i], subject, year, school, query)
                ==> #[trigger] kept.contains(files[i])
            &&& kept.len() <= files.len()
        }),
{
    broadcast use vstd::seq_lib::group_filter_ensures;
}

} // verus!
