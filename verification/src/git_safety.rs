//! Noticing which files of a workspace change while the coordinator works:
//! snapshots of the files that git reports, and what is new in one of them.

use crate::text::{
    byte_len, chars_of, clips_evenly, comes_before, fitting, lemma_byte_len_take,
    lemma_fitting_len, lemma_text_less_irreflexive, lemma_text_less_total,
    lemma_text_less_transitive, lines, lines_of, longer_than, same, string_between, text_less,
    texts, trim, trimmed, width,
};
use vstd::prelude::*;

verus! {

/// A changed file: its repository and its path in it.
pub type FileKey = (Seq<char>, Seq<char>);

/// Whether a file comes before another: by repository, then by path.
pub open spec fn file_less(a: FileKey, b: FileKey) -> bool {
    text_less(a.0, b.0) || (a.0 == b.0 && text_less(a.1, b.1))
}

/// The files of a list.
pub open spec fn file_keys(list: Seq<(String, String)>) -> Seq<FileKey> {
    list.map_values(|f: (String, String)| (f.0@, f.1@))
}

/// Whether each file of a list comes before the next.
pub open spec fn ascending(list: Seq<FileKey>) -> bool {
    forall|i: int, j: int|
        0 <= i < j < list.len() ==> file_less(#[trigger] list[i], #[trigger] list[j])
}

/// The changed files of a workspace, in ascending order and each once.
pub struct GitSnapshot {
    dirty_files: Vec<(String, String)>,
}

proof fn lemma_file_less(a: FileKey, b: FileKey, c: FileKey)
    ensures
        !file_less(a, a),
        a == b || file_less(a, b) || file_less(b, a),
        file_less(a, b) && file_less(b, c) ==> file_less(a, c),
{
    lemma_text_less_irreflexive(a.0);
    lemma_text_less_irreflexive(a.1);
    lemma_text_less_total(a.0, b.0);
    lemma_text_less_total(a.1, b.1);
    if text_less(a.0, b.0) && text_less(b.0, c.0) {
        lemma_text_less_transitive(a.0, b.0, c.0);
    }
    if text_less(a.1, b.1) && text_less(b.1, c.1) {
        lemma_text_less_transitive(a.1, b.1, c.1);
    }
}

fn file_comes_before(repo: &str, file: &str, other: &(String, String)) -> (r: bool)
    ensures
        r == file_less((repo@, file@), (other.0@, other.1@)),
{
    comes_before(repo, other.0.as_str()) || (same(repo, other.0.as_str()) && comes_before(
        file,
        other.1.as_str(),
    ))
}

/// The file that a line of git's status names, where it is long enough to name
/// one: what follows its first three bytes.
pub open spec fn file_in_line(line: Seq<char>) -> Option<Seq<char>> {
    if byte_len(line) > 3 {
        Some(trim(line.skip(fitting(line, 3))))
    } else {
        None
    }
}

/// Whether the first three bytes of a line end where a character ends.
pub open spec fn is_status_line(line: Seq<char>) -> bool {
    byte_len(line) > 3 ==> clips_evenly(line, 3)
}

/// The files that git's status of a repository names.
pub open spec fn files_in_status(repo: Seq<char>, list: Seq<Seq<char>>) -> Set<FileKey> {
    Set::new(
        |k: FileKey|
            k.0 == repo && exists|i: int|
                0 <= i < list.len() && file_in_line(#[trigger] list[i]) == Some(k.1),
    )
}

fn line_file(line: &str) -> (r: Option<String>)
    requires
        is_status_line(line@),
    ensures
        crate::text::opt_text(r) == file_in_line(line@),
{
    if !longer_than(line, 3) {
        return None;
    }
    let start = crate::text::clipped(line, 3);
    let v = chars_of(line);
    let w = chars_of(start.as_str());
    proof {
        lemma_fitting_len(line@, 3);
        assert(w@.len() == fitting(line@, 3));
    }
    let rest = string_between(&v, w.len(), v.len());
    proof {
        assert(line@.skip(fitting(line@, 3)) =~= rest@);
    }
    Some(trimmed(rest.as_str()))
}

impl GitSnapshot {
    /// The files in ascending order.
    pub closed spec fn files(self) -> Seq<FileKey> {
        file_keys(self.dirty_files@)
    }

    /// The files are in ascending order, each once.
    pub closed spec fn wf(self) -> bool {
        ascending(file_keys(self.dirty_files@))
    }

    /// A snapshot without files.
    pub fn new() -> (r: GitSnapshot)
        ensures
            r.wf(),
            r.files() == Seq::<FileKey>::empty(),
    {
        let r = GitSnapshot { dirty_files: Vec::new() };
        proof {
            assert(r.files() =~= Seq::<FileKey>::empty());
        }
        r
    }

    /// Whether no file has changed.
    pub fn is_empty(&self) -> (r: bool)
        ensures
            r == (self.files().len() == 0),
    {
        self.dirty_files.len() == 0
    }

    /// Adds a file; one that is there already is not added again.
    pub fn insert(&mut self, repo: &str, file: &str)
        requires
            old(self).wf(),
        ensures
            final(self).wf(),
            final(self).files().to_set() == old(self).files().to_set().insert((repo@, file@)),
    {
        let ghost before = self.files();
        let ghost x = (repo@, file@);
        let mut k: usize = self.dirty_files.len();
        while k > 0 && file_comes_before(repo, file, &self.dirty_files[k - 1])
            invariant
                0 <= k <= self.dirty_files@.len(),
                before == file_keys(self.dirty_files@),
                x == (repo@, file@),
                forall|j: int| k <= j < before.len() ==> file_less(x, #[trigger] before[j]),
            decreases k,
        {
            k = k - 1;
        }
        if k > 0 && same(self.dirty_files[k - 1].0.as_str(), repo) && same(
            self.dirty_files[k - 1].1.as_str(),
            file,
        ) {
            proof {
                assert(before[k - 1] == x);
                assert(before.to_set() =~= before.to_set().insert(x));
            }
            return ;
        }
        let one = (repo.to_owned(), file.to_owned());
        proof {
            let after = before.insert(k as int, x);
            assert(file_keys(self.dirty_files@.insert(k as int, one)) =~= after);
            if k > 0 {
                lemma_file_less(x, before[k - 1], x);
                assert(before[k - 1] != x);
                assert(file_less(before[k - 1], x));
            }
            assert forall|i: int, j: int| 0 <= i < j < after.len() implies file_less(
                #[trigger] after[i],
                #[trigger] after[j],
            ) by {
                if j == k {
                    assert(after[i] == before[i]);
                    if i < k - 1 {
                        assert(file_less(before[i], before[k - 1]));
                        lemma_file_less(before[i], before[k - 1], x);
                    }
                } else if i == k {
                    assert(after[j] == before[j - 1]);
                } else {
                    let i2 = if i < k {
                        i
                    } else {
                        i - 1
                    };
                    let j2 = if j < k {
                        j
                    } else {
                        j - 1
                    };
                    assert(after[i] == before[i2]);
                    assert(after[j] == before[j2]);
                }
            }
            assert(after.to_set() =~= before.to_set().insert(x)) by {
                assert forall|f: FileKey| after.to_set().contains(f) == before.to_set().insert(
                    x,
                ).contains(f) by {
                    if before.contains(f) {
                        let m = choose|m: int| 0 <= m < before.len() && before[m] == f;
                        assert(after[if m < k {
                            m
                        } else {
                            m + 1
                        }] == f);
                    }
                    if f == x {
                        assert(after[k as int] == f);
                    }
                    if after.contains(f) {
                        let m = choose|m: int| 0 <= m < after.len() && after[m] == f;
                        if m != k {
                            assert(before[if m < k {
                                m
                            } else {
                                m - 1
                            }] == f);
                        }
                    }
                }
            }
        }
        self.dirty_files.insert(k, one);
    }

    /// Adds the files that git's status of a repository names.
    pub fn add_status(&mut self, repo: &str, status: &str)
        requires
            old(self).wf(),
            forall|i: int|
                0 <= i < lines(status@).len() ==> is_status_line(#[trigger] lines(status@)[i]),
        ensures
            final(self).wf(),
            final(self).files().to_set() == old(self).files().to_set().union(
                files_in_status(repo@, lines(status@)),
            ),
    {
        let list = lines_of(status);
        let ghost all = texts(list@);
        let ghost before = self.files().to_set();
        let n: usize = list.len();
        let mut i: usize = 0;
        proof {
            assert(before.union(files_in_status(repo@, all.take(0))) =~= before);
        }
        while i < n
            invariant
                n == list@.len(),
                all == texts(list@),
                all == lines(status@),
                0 <= i <= n,
                self.wf(),
                forall|i: int| 0 <= i < all.len() ==> is_status_line(#[trigger] all[i]),
                self.files().to_set() == before.union(
                    files_in_status(repo@, all.take(i as int)),
                ),
            decreases n - i,
        {
            let ghost done = files_in_status(repo@, all.take(i as int));
            let ghost next = files_in_status(repo@, all.take(i + 1));
            let ghost was = self.files().to_set();
            proof {
                assert(all[i as int] == list@[i as int]@);
                assert forall|k: FileKey| next.contains(k) == (done.contains(k) || (k.0 == repo@
                    && file_in_line(all[i as int]) == Some(k.1))) by {
                    if done.contains(k) {
                        let m = choose|m: int|
                            0 <= m < i && file_in_line(#[trigger] all.take(i as int)[m]) == Some(
                                k.1,
                            );
                        assert(all.take(i + 1)[m] == all.take(i as int)[m]);
                    }
                    if k.0 == repo@ && file_in_line(all[i as int]) == Some(k.1) {
                        assert(all.take(i + 1)[i as int] == all[i as int]);
                    }
                    if next.contains(k) {
                        let m = choose|m: int|
                            0 <= m < i + 1 && file_in_line(#[trigger] all.take(i + 1)[m]) == Some(
                                k.1,
                            );
                        if m < i {
                            assert(all.take(i as int)[m] == all.take(i + 1)[m]);
                        }
                    }
                }
            }
            match line_file(list[i].as_str()) {
                Some(file) => {
                    self.insert(repo, file.as_str());
                    proof {
                        assert(self.files().to_set() =~= before.union(next));
                    }
                },
                None => {
                    proof {
                        assert(was =~= before.union(next));
                    }
                },
            }
            i = i + 1;
        }
        proof {
            assert(all.take(n as int) =~= all);
        }
    }

    fn holds(&self, repo: &str, file: &str) -> (r: bool)
        ensures
            r == self.files().contains((repo@, file@)),
    {
        let n: usize = self.dirty_files.len();
        let mut i: usize = 0;
        while i < n
            invariant
                n == self.dirty_files@.len(),
                0 <= i <= n,
                forall|j: int| 0 <= j < i ==> #[trigger] self.files()[j] != (repo@, file@),
            decreases n - i,
        {
            proof {
                assert(self.files()[i as int] == (
                    self.dirty_files@[i as int].0@,
                    self.dirty_files@[i as int].1@,
                ));
            }
            if same(self.dirty_files[i].0.as_str(), repo) && same(
                self.dirty_files[i].1.as_str(),
                file,
            ) {
                return true;
            }
            i = i + 1;
        }
        false
    }

    /// The files that have changed since a previous snapshot, in ascending
    /// order.
    pub fn diff(&self, previous: &GitSnapshot) -> (r: Vec<(String, String)>)
        requires
            self.wf(),
        ensures
            ascending(file_keys(r@)),
            file_keys(r@).to_set() == self.files().to_set().difference(previous.files().to_set()),
    {
        let n: usize = self.dirty_files.len();
        let ghost all = self.files();
        let ghost gone = previous.files();
        let mut out: Vec<(String, String)> = Vec::new();
        let mut i: usize = 0;
        proof {
            assert(file_keys(out@).to_set() =~= all.take(0).to_set().difference(gone.to_set()));
        }
        while i < n
            invariant
                n == self.dirty_files@.len(),
                all == self.files(),
                all == file_keys(self.dirty_files@),
                gone == previous.files(),
                ascending(all),
                0 <= i <= n,
                ascending(file_keys(out@)),
                forall|j: int|
                    0 <= j < out@.len() ==> exists|m: int|
                        0 <= m < i && #[trigger] all[m] == #[trigger] file_keys(out@)[j],
                file_keys(out@).to_set() == all.take(i as int).to_set().difference(gone.to_set()),
            decreases n - i,
        {
            let f = &self.dirty_files[i];
            let ghost x = all[i as int];
            let ghost kept = file_keys(out@);
            let new = !previous.holds(f.0.as_str(), f.1.as_str());
            proof {
                assert(x == (f.0@, f.1@));
                assert(all.take(i + 1) =~= all.take(i as int).push(x));
                assert forall|k: FileKey| all.take(i + 1).to_set().contains(k) == (all.take(
                    i as int,
                ).to_set().contains(k) || k == x) by {
                    let before = all.take(i as int);
                    let after = all.take(i + 1);
                    if before.contains(k) {
                        let m = choose|m: int| 0 <= m < before.len() && before[m] == k;
                        assert(after[m] == k);
                    }
                    if k == x {
                        assert(after[i as int] == k);
                    }
                    if after.contains(k) {
                        let m = choose|m: int| 0 <= m < after.len() && after[m] == k;
                        if m < i {
                            assert(before[m] == k);
                        }
                    }
                }
            }
            if new {
                let one = (f.0.clone(), f.1.clone());
                proof {
                    let grown = kept.push(x);
                    assert(file_keys(out@.push(one)) =~= grown);
                    assert forall|a: int, b: int| 0 <= a < b < grown.len() implies file_less(
                        #[trigger] grown[a],
                        #[trigger] grown[b],
                    ) by {
                        if b == kept.len() {
                            assert(grown[a] == kept[a]);
                            let m = choose|m: int| 0 <= m < i && #[trigger] all[m] == kept[a];
                            assert(file_less(all[m], all[i as int]));
                        }
                    }
                    assert forall|j: int| 0 <= j < grown.len() implies exists|m: int|
                        0 <= m < i + 1 && #[trigger] all[m] == #[trigger] grown[j] by {
                        if j < kept.len() {
                            assert(grown[j] == kept[j]);
                            let m = choose|m: int| 0 <= m < i && #[trigger] all[m] == kept[j];
                            assert(all[m] == grown[j]);
                        } else {
                            assert(all[i as int] == grown[j]);
                        }
                    }
                    assert(grown.to_set() =~= all.take(i + 1).to_set().difference(
                        gone.to_set(),
                    )) by {
                        assert forall|k: FileKey| grown.to_set().contains(k) == all.take(
                            i + 1,
                        ).to_set().difference(gone.to_set()).contains(k) by {
                            if kept.contains(k) {
                                let m = choose|m: int| 0 <= m < kept.len() && kept[m] == k;
                                assert(grown[m] == k);
                            }
                            if k == x {
                                assert(grown[kept.len() as int] == k);
                            }
                            if grown.contains(k) {
                                let m = choose|m: int| 0 <= m < grown.len() && grown[m] == k;
                                if m < kept.len() {
                                    assert(kept[m] == k);
                                }
                            }
                            assert(kept.to_set().contains(k) == kept.contains(k));
                        }
                    }
                }
                out.push(one);
            } else {
                proof {
                    assert(kept.to_set() =~= all.take(i + 1).to_set().difference(gone.to_set()));
                    assert forall|j: int| 0 <= j < kept.len() implies exists|m: int|
                        0 <= m < i + 1 && #[trigger] all[m] == #[trigger] kept[j] by {
                        let m = choose|m: int| 0 <= m < i && #[trigger] all[m] == kept[j];
                        assert(all[m] == kept[j]);
                    }
                }
            }
            i = i + 1;
        }
        proof {
            assert(all.take(n as int) =~= all);
        }
        out
    }
}

/// Nothing has changed since a snapshot itself, and everything has since a
/// snapshot without files; files that were cleaned up do not count.
pub proof fn law_diff(now: GitSnapshot, before: GitSnapshot)
    ensures
        now.files().to_set().difference(now.files().to_set()) == Set::<FileKey>::empty(),
        before.files().len() == 0 ==> now.files().to_set().difference(before.files().to_set())
            == now.files().to_set(),
        forall|f: FileKey|
            before.files().to_set().contains(f) ==> !(#[trigger] now.files().to_set().difference(
                before.files().to_set(),
            ).contains(f)),
{
    assert(now.files().to_set().difference(now.files().to_set()) =~= Set::<FileKey>::empty());
    if before.files().len() == 0 {
        assert(now.files().to_set().difference(before.files().to_set())
            =~= now.files().to_set());
    }
}

/// Watches the repositories of a workspace while the coordinator works.
pub struct GitSafetyHooks {
    pub workspace_root: String,
}

impl GitSafetyHooks {
    /// The files that changed while the coordinator worked.
    pub fn post_turn(&self, before: &GitSnapshot, after: &GitSnapshot) -> (r: Vec<
        (String, String),
    >)
        requires
            after.wf(),
        ensures
            ascending(file_keys(r@)),
            file_keys(r@).to_set() == after.files().to_set().difference(before.files().to_set()),
    {
        after.diff(before)
    }
}

/// A line of a status tells its file behind its three marks, without white
/// space around it; a shorter line tells none.
pub proof fn law_file_stands_behind_the_marks(marks: Seq<char>, path: Seq<char>)
    requires
        marks.len() == 3,
        forall|i: int| 0 <= i < 3 ==> width(#[trigger] marks[i]) == 1,
        path.len() > 0,
    ensures
        file_in_line(marks + path) == Some(trim(path)),
        file_in_line(marks) is None,
        is_status_line(marks + path),
{
    let s = marks + path;
    lemma_byte_len_take(s, 4);
    assert(s.take(3) =~= marks);
    assert(s.take(4).drop_last() =~= marks);
    assert(s.skip(3) =~= path);
    assert(byte_len(marks) == 3) by {
        assert(width(marks[0]) == 1 && width(marks[1]) == 1 && width(marks[2]) == 1);
        reveal_with_fuel(byte_len, 4);
    }
    lemma_fitting_len(s, 3);
    assert(fitting(s, 3) == 3) by {
        reveal_with_fuel(fitting, 5);
        assert(width(marks[0]) == 1 && width(marks[1]) == 1 && width(marks[2]) == 1);
    }
}

/// Files are ordered by repository first, and by path within one.
pub proof fn law_files_are_ordered_by_repository(a: FileKey, b: FileKey)
    ensures
        text_less(a.0, b.0) ==> file_less(a, b),
        a.0 == b.0 && text_less(a.1, b.1) ==> file_less(a, b),
        text_less(b.0, a.0) ==> !file_less(a, b),
        !file_less(a, a),
{
    lemma_text_less_irreflexive(a.0);
    lemma_text_less_irreflexive(a.1);
    lemma_text_less_irreflexive(b.0);
    if text_less(b.0, a.0) {
        if text_less(a.0, b.0) {
            lemma_text_less_transitive(a.0, b.0, a.0);
        }
    }
}

/// The files of a status are those that its lines tell, in its repository.
pub proof fn law_every_line_tells_its_file(repo: Seq<char>, list: Seq<Seq<char>>, k: int, f: FileKey)
    ensures
        0 <= k < list.len() && file_in_line(list[k]) is Some ==> files_in_status(
            repo,
            list,
        ).contains((repo, file_in_line(list[k])->0)),
        files_in_status(repo, list).contains(f) ==> f.0 == repo,
        list.len() == 0 ==> !files_in_status(repo, list).contains(f),
{
}

} // verus!
