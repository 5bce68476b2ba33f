//! The file-contribution form: the picked files, kept once per path, and when
//! the form may be submitted.

use vstd::prelude::*;
use crate::text::str_eq;

verus! {

/// A file picked for contribution.
pub struct ContributeFile {
    pub path: String,
    pub name: String,
    /// Lowercased extension, `pdf` when there is none.
    pub format: String,
    /// Size in bytes.
    pub size: u64,
}

/// The paths of a list of picked files, in order.
pub open spec fn paths_of(files: Seq<ContributeFile>) -> Seq<Seq<char>> {
    files.map_values(|f: ContributeFile| f.path@)
}

/// Some picked file has path `p`.
pub open spec fn has_path(files: Seq<ContributeFile>, p: Seq<char>) -> bool {
    exists|i: int| 0 <= i < files.len() && #[trigger] files[i].path@ == p
}

/// No two picked files share a path.
pub open spec fn paths_distinct(files: Seq<ContributeFile>) -> bool {
    forall|i: int, j: int| 0 <= i < j < files.len() ==> #[trigger] files[i].path@ != #[trigger] files[j].path@
}

/// Whether some file in `files` has the path `p`.
pub fn contains_path(files: &Vec<ContributeFile>, p: &str) -> (r: bool)
    ensures
        r == has_path(files@, p@),
{
    let mut i: usize = 0;
    while i < files.len()
        invariant
            i <= files.len(),
            forall|k: int| 0 <= k < i ==> files@[k].path@ != p@,
        decreases files.len() - i,
    {
        if str_eq(files[i].path.as_str(), p) {
            return true;
        }
        i = i + 1;
    }
    false
}

/// Add a picked file unless a file with the same path is already there; says
/// whether it was added.
pub fn add_picked_file(files: &mut Vec<ContributeFile>, f: ContributeFile) -> (added: bool)
    ensures
        added == !has_path(old(files)@, f.path@),
        added ==> final(files)@ == old(files)@.push(f),
        !added ==> final(files)@ == old(files)@,
{
    if contains_path(files, f.path.as_str()) {
        false
    } else {
        files.push(f);
        true
    }
}

/// Adding picked files one by one never lets two of them share a path.
pub proof fn lemma_add_keeps_paths_distinct(before: Seq<ContributeFile>, f: ContributeFile, after: Seq<ContributeFile>)
    requires
        paths_distinct(before),
        !has_path(before, f.path@) ==> after == before.push(f),
        has_path(before, f.path@) ==> after == before,
    ensures
        paths_distinct(after),
{
    if !has_path(before, f.path@) {
        assert forall|i: int, j: int| 0 <= i < j < after.len() implies #[trigger] after[i].path@ != #[trigger] after[j].path@ by {
            if j == before.len() {
                assert(after[i] == before[i]);
            } else {
                assert(after[i] == before[i] && after[j] == before[j]);
            }
        }
    }
}

/// Remove the picked file at `idx`; nothing is removed while an upload is
/// running or when `idx` is past the end. Says whether a file was removed.
pub fn remove_picked_file(files: &mut Vec<ContributeFile>, idx: usize, uploading: bool) -> (removed: bool)
    ensures
        removed == (!uploading && idx < old(files)@.len()),
        removed ==> final(files)@ == old(files)@.remove(idx as int),
        !removed ==> final(files)@ == old(files)@,
{
    if uploading || idx >= files.len() {
        false
    } else {
        files.remove(idx);
        true
    }
}

/// Removing a picked file keeps the paths distinct.
pub proof fn lemma_remove_keeps_paths_distinct(before: Seq<ContributeFile>, idx: int)
    requires
        paths_distinct(before),
        0 <= idx < before.len(),
    ensures
        paths_distinct(before.remove(idx)),
{
    let after = before.remove(idx);
    assert forall|i: int, j: int| 0 <= i < j < after.len() implies #[trigger] after[i].path@ != #[trigger] after[j].path@ by {
        let bi = if i < idx { i } else { i + 1 };
        let bj = if j < idx { j } else { j + 1 };
        assert(after[i] == before[bi] && after[j] == before[bj]);
    }
}

/// The form can be submitted when a file is picked, subject and year are
/// filled in, and no upload is running.
pub fn can_submit(file_count: usize, subject: &str, year: &str, uploading: bool) -> (r: bool)
    ensures
        r == (file_count > 0 && subject@.len() > 0 && year@.len() > 0 && !uploading),
{
    file_count > 0 && !subject.is_empty() && !year.is_empty() && !uploading
}

/// Caption of the submit button.
pub fn submit_label(uploading: bool, file_count: usize) -> (r: &'static str)
    ensures
        uploading ==> r@ == "  上传中…  "@,
        !uploading && file_count > 1 ==> r@ == "  批量提交上传  "@,
        !uploading && file_count <= 1 ==> r@ == "  提交上传  "@,
{
    if uploading {
        "  上传中…  "
    } else if file_count > 1 {
        "  批量提交上传  "
    } else {
        "  提交上传  "
    }
}

} // verus!
