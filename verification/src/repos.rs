//! The repositories of a workspace: where a repository lies, and how far its
//! branch is from its upstream.

use crate::text::{
    chars_of, decimal, ends_with, has_prefix, has_suffix, lemma_decimal_reads_back,
    lemma_split_last, number_up_to, opt_text, parse_number, pieces, pieces_of, same, split,
    split_at_char, starts_with, string_between, texts, Gap,
};
use vstd::prelude::*;

verus! {

/// A text without an ending, where it has it.
pub open spec fn without_suffix(s: Seq<char>, suffix: Seq<char>) -> Seq<char> {
    if ends_with(s, suffix) {
        s.take(s.len() - suffix.len())
    } else {
        s
    }
}

/// The owner and name of the repository that an address on GitHub points at.
pub open spec fn slug_of(url: Seq<char>) -> Option<Seq<char>> {
    if starts_with(url, "https://github.com/"@) {
        Some(without_suffix(url.skip(19), ".git"@))
    } else if starts_with(url, "git@github.com:"@) {
        Some(without_suffix(url.skip(15), ".git"@))
    } else {
        None
    }
}

fn strip_git(v: &Vec<char>, from: usize) -> (r: String)
    requires
        from <= v@.len(),
    ensures
        r@ == without_suffix(v@.skip(from as int), ".git"@),
{
    let rest = string_between(v, from, v.len());
    proof {
        assert(v@.skip(from as int) =~= rest@);
        reveal_strlit(".git");
    }
    if has_suffix(rest.as_str(), ".git") {
        let w = chars_of(rest.as_str());
        proof {
            assert(rest@.take(rest@.len() - 4) =~= w@.subrange(0, w@.len() - 4));
        }
        string_between(&w, 0, w.len() - 4)
    } else {
        rest
    }
}

/// The owner and name of the repository that an address on GitHub points at.
pub fn origin_slug(url: &str) -> (r: Option<String>)
    ensures
        opt_text(r) == slug_of(url@),
{
    let v = chars_of(url);
    proof {
        reveal_strlit("https://github.com/");
        reveal_strlit("git@github.com:");
    }
    if has_prefix(url, "https://github.com/") {
        Some(strip_git(&v, 19))
    } else if has_prefix(url, "git@github.com:") {
        Some(strip_git(&v, 15))
    } else {
        None
    }
}

/// What follows the last slash of a repository's name.
pub open spec fn base_name(repo: Seq<char>) -> Seq<char> {
    split(repo, '/').last()
}

/// What follows the last slash of a repository's name.
pub fn repo_base_name(repo: &str) -> (r: String)
    ensures
        r@ == base_name(repo@),
{
    let parts = split_at_char(repo, '/');
    proof {
        lemma_split_not_empty(repo@, '/');
        assert(texts(parts@).len() == parts@.len());
        assert(texts(parts@).last() == parts@.last()@);
    }
    parts[parts.len() - 1].clone()
}

proof fn lemma_split_not_empty(s: Seq<char>, c: char)
    ensures
        split(s, c).len() > 0,
{
}

/// A directory of a workspace that holds a repository, with the address of its
/// origin where it has one.
pub struct RepoDir {
    pub path: String,
    pub origin: Option<String>,
}

/// Whether a directory holds the repository.
pub open spec fn holds_repo(dir: RepoDir, repo: Seq<char>) -> bool {
    match dir.origin {
        Some(url) => slug_of(url@) == Some(repo),
        None => false,
    }
}

/// Where a repository lies.
pub enum RepoPlace {
    /// Under its full name in the workspace.
    Direct,
    /// Under the last part of its name in the workspace.
    ByName,
    /// In this directory of the workspace.
    Dir(String),
    /// Nowhere: the workspace itself stands for it.
    Root,
}

/// Finds where a repository lies: under its full name, under the last part of
/// it, or in the first directory whose origin it is.
pub fn repo_slug_to_local_path(
    repo: &str,
    direct_exists: bool,
    by_name_exists: bool,
    dirs: &Vec<RepoDir>,
) -> (r: RepoPlace)
    ensures
        direct_exists ==> r is Direct,
        !direct_exists && by_name_exists ==> r is ByName,
        !direct_exists && !by_name_exists ==> match r {
            RepoPlace::Dir(path) => exists|i: int|
                {
                    &&& 0 <= i < dirs@.len()
                    &&& holds_repo(#[trigger] dirs@[i], repo@)
                    &&& path@ == dirs@[i].path@
                    &&& forall|j: int| 0 <= j < i ==> !holds_repo(#[trigger] dirs@[j], repo@)
                },
            RepoPlace::Root => forall|i: int|
                0 <= i < dirs@.len() ==> !holds_repo(#[trigger] dirs@[i], repo@),
            _ => false,
        },
{
    if direct_exists {
        return RepoPlace::Direct;
    }
    if by_name_exists {
        return RepoPlace::ByName;
    }
    let n: usize = dirs.len();
    let mut i: usize = 0;
    while i < n
        invariant
            n == dirs@.len(),
            !direct_exists,
            !by_name_exists,
            0 <= i <= n,
            forall|j: int| 0 <= j < i ==> !holds_repo(#[trigger] dirs@[j], repo@),
        decreases n - i,
    {
        if let Some(url) = &dirs[i].origin {
            if let Some(slug) = origin_slug(url.as_str()) {
                if same(slug.as_str(), repo) {
                    proof {
                        assert(holds_repo(dirs@[i as int], repo@));
                    }
                    return RepoPlace::Dir(dirs[i].path.clone());
                }
            }
        }
        i = i + 1;
    }
    RepoPlace::Root
}

/// The number in a list of words, or zero.
pub open spec fn count_at(words: Seq<Seq<char>>, i: int) -> int {
    if 0 <= i < words.len() {
        match number_up_to(words[i], usize::MAX as nat) {
            Some(n) => n as int,
            None => 0,
        }
    } else {
        0
    }
}

fn read_count(words: &Vec<String>, i: usize) -> (r: usize)
    ensures
        r == count_at(texts(words@), i as int),
{
    if i < words.len() {
        proof {
            assert(texts(words@)[i as int] == words@[i as int]@);
        }
        match parse_number(words[i].as_str(), usize::MAX as u64) {
            Some(n) => n as usize,
            None => 0,
        }
    } else {
        0
    }
}

/// How many commits a branch is ahead of its upstream and behind it, out of
/// git's count of both sides, which starts with those behind.
pub fn ahead_behind_counts(output: &Option<String>) -> (r: (usize, usize))
    ensures
        match *output {
            Some(s) => {
                let words = pieces(s@, Gap::White);
                r.0 == count_at(words, 1) && r.1 == count_at(words, 0)
            },
            None => r.0 == 0 && r.1 == 0,
        },
{
    match output {
        Some(s) => {
            let words = pieces_of(s.as_str(), Gap::White);
            let behind = read_count(&words, 0);
            let ahead = read_count(&words, 1);
            (ahead, behind)
        },
        None => (0, 0),
    }
}

/// The name under which a repository is listed: that of its directory, else
/// the last part of its own.
pub fn listed_name(dir_name: &Option<String>, repo: &str) -> (r: String)
    ensures
        r@ == shown_name(*dir_name, repo@),
{
    match dir_name {
        Some(s) => if s.as_str().is_empty() {
            repo_base_name(repo)
        } else {
            s.clone()
        },
        None => repo_base_name(repo),
    }
}

/// The positions of the workers that a repository lists: those whose branch
/// starts with its name.
pub open spec fn workers_listed(branches: Seq<Seq<char>>, name: Seq<char>) -> Seq<int>
    decreases branches.len(),
{
    if branches.len() == 0 {
        seq![]
    } else {
        let rest = workers_listed(branches.drop_last(), name);
        if starts_with(branches.last(), name) {
            rest.push(branches.len() - 1)
        } else {
            rest
        }
    }
}

/// The positions of the workers that a repository lists.
pub fn workers_of_repo(branches: &Vec<String>, name: &str) -> (r: Vec<usize>)
    ensures
        r@.map_values(|i: usize| i as int) == workers_listed(texts(branches@), name@),
{
    let ghost all = texts(branches@);
    let n: usize = branches.len();
    let mut out: Vec<usize> = Vec::new();
    let mut i: usize = 0;
    proof {
        assert(out@.map_values(|i: usize| i as int) =~= workers_listed(all.take(0), name@));
    }
    while i < n
        invariant
            n == branches@.len(),
            all == texts(branches@),
            0 <= i <= n,
            out@.map_values(|i: usize| i as int) == workers_listed(all.take(i as int), name@),
        decreases n - i,
    {
        proof {
            assert(all.take(i + 1).drop_last() =~= all.take(i as int));
            assert(all.take(i + 1).last() == branches@[i as int]@);
        }
        if has_prefix(branches[i].as_str(), name) {
            let ghost before = out@;
            out.push(i);
            proof {
                assert(out@.map_values(|i: usize| i as int) =~= before.map_values(
                    |i: usize| i as int,
                ).push(i as int));
            }
        }
        i = i + 1;
    }
    proof {
        assert(all.take(n as int) =~= all);
    }
    out
}

/// What is known of a repository of a workspace.
pub struct RepoFacts {
    /// Its full name.
    pub repo: String,
    /// Where it lies.
    pub path: String,
    /// The name of the directory there.
    pub dir_name: Option<String>,
    pub has_swarm: bool,
    pub is_clean: bool,
    /// The branch that is checked out; empty where git does not tell.
    pub branch: String,
    pub upstream: Option<String>,
    /// Git's count of the commits on both sides.
    pub counts: Option<String>,
}

/// A repository of a workspace as the web interface lists it. Its workers are
/// given by their positions among those of the workspace.
pub struct RepoListItem {
    pub name: String,
    pub path: String,
    pub has_swarm: bool,
    pub is_clean: bool,
    /// The branch that is checked out; empty where git does not tell.
    pub branch: String,
    pub upstream: Option<String>,
    pub behind_count: usize,
    pub ahead_count: usize,
    pub workers: Vec<usize>,
}

/// The name under which a repository is listed.
pub open spec fn shown_name(dir_name: Option<String>, repo: Seq<char>) -> Seq<char> {
    match dir_name {
        Some(s) => if s@.len() > 0 {
            s@
        } else {
            base_name(repo)
        },
        None => base_name(repo),
    }
}

/// The words in which git counts the commits on both sides of an upstream.
pub open spec fn count_words(facts: RepoFacts) -> Seq<Seq<char>> {
    match (facts.upstream, facts.counts) {
        (Some(_), Some(s)) => pieces(s@, Gap::White),
        _ => seq![],
    }
}

/// Whether `item` lists a repository.
pub open spec fn lists_repo(item: RepoListItem, facts: RepoFacts, branches: Seq<Seq<char>>) -> bool {
    &&& item.name@ == shown_name(facts.dir_name, facts.repo@)
    &&& item.path@ == facts.path@
    &&& item.has_swarm == facts.has_swarm
    &&& item.is_clean == facts.is_clean
    &&& item.branch@ == facts.branch@
    &&& item.upstream == facts.upstream
    &&& item.behind_count == count_at(count_words(facts), 0)
    &&& item.ahead_count == count_at(count_words(facts), 1)
    &&& item.workers@.map_values(|i: usize| i as int) == workers_listed(branches, item.name@)
}

fn repo_list_item(facts: &RepoFacts, branches: &Vec<String>) -> (r: RepoListItem)
    ensures
        lists_repo(r, *facts, texts(branches@)),
{
    let name = listed_name(&facts.dir_name, facts.repo.as_str());
    let (ahead_count, behind_count) = match &facts.upstream {
        Some(_) => ahead_behind_counts(&facts.counts),
        None => (0, 0),
    };
    let workers = workers_of_repo(branches, name.as_str());
    RepoListItem {
        name,
        path: facts.path.clone(),
        has_swarm: facts.has_swarm,
        is_clean: facts.is_clean,
        branch: facts.branch.clone(),
        upstream: facts.upstream.clone(),
        behind_count,
        ahead_count,
        workers,
    }
}

/// The repositories of a workspace, each with the workers whose branch starts
/// with its name.
pub fn build_repo_list_items(repos: &Vec<RepoFacts>, branches: &Vec<String>) -> (r: Vec<
    RepoListItem,
>)
    ensures
        r@.len() == repos@.len(),
        forall|i: int|
            0 <= i < r@.len() ==> lists_repo(#[trigger] r@[i], repos@[i], texts(branches@)),
{
    let mut out: Vec<RepoListItem> = Vec::new();
    let n: usize = repos.len();
    let mut i: usize = 0;
    while i < n
        invariant
            n == repos@.len(),
            0 <= i <= n,
            out@.len() == i,
            forall|j: int|
                0 <= j < i ==> lists_repo(#[trigger] out@[j], repos@[j], texts(branches@)),
        decreases n - i,
    {
        out.push(repo_list_item(&repos[i], branches));
        i = i + 1;
    }
    out
}

/// The slug of a repository on GitHub is what follows the host in the address of
/// its origin, without the ending that git allows; another address has none.
pub proof fn law_slug_is_in_the_address(slug: Seq<char>, url: Seq<char>)
    ensures
        slug_of("https://github.com/"@ + slug + ".git"@) == Some(slug),
        slug_of("git@github.com:"@ + slug + ".git"@) == Some(slug),
        !ends_with(slug, ".git"@) ==> slug_of("https://github.com/"@ + slug) == Some(slug),
        !ends_with(slug, ".git"@) ==> slug_of("git@github.com:"@ + slug) == Some(slug),
        slug_of(url) is Some ==> starts_with(url, "https://github.com/"@) || starts_with(
            url,
            "git@github.com:"@,
        ),
{
    reveal_strlit("https://github.com/");
    reveal_strlit("git@github.com:");
    reveal_strlit(".git");
    let h = "https://github.com/"@;
    let g = "git@github.com:"@;
    let e = ".git"@;
    let a = h + slug + e;
    let b = g + slug + e;
    let c = h + slug;
    let d = g + slug;
    let t = slug + e;
    assert(h[0] == 'h' && g[0] == 'g');
    assert(a.subrange(0, 19) =~= h && c.subrange(0, 19) =~= h);
    assert(b.subrange(0, 15) =~= g && d.subrange(0, 15) =~= g);
    assert(b[0] == 'g' && d[0] == 'g');
    assert(!starts_with(b, h) && !starts_with(d, h)) by {
        if starts_with(b, h) {
            assert(b.subrange(0, 19)[0] == b[0]);
        }
        if starts_with(d, h) {
            assert(d.subrange(0, 19)[0] == d[0]);
        }
    }
    assert(a.skip(19) =~= t && b.skip(15) =~= t);
    assert(c.skip(19) =~= slug && d.skip(15) =~= slug);
    assert(t.subrange(t.len() - e.len(), t.len() as int) =~= e);
    assert(t.take(t.len() - e.len()) =~= slug);
}

/// The name of a repository is what follows the last slash of its slug.
pub proof fn law_name_follows_the_slash(owner: Seq<char>, name: Seq<char>)
    requires
        !name.contains('/'),
    ensures
        base_name(owner + seq!['/'] + name) == name,
        base_name(name) == name,
{
    lemma_split_last(owner, '/', name);
}

/// A repository is listed under its directory's name where that is known and not
/// empty, else under its own.
pub proof fn law_listed_under_its_directory(dir: String, repo: Seq<char>)
    ensures
        dir@.len() > 0 ==> shown_name(Some(dir), repo) == dir@,
        dir@.len() == 0 ==> shown_name(Some(dir), repo) == base_name(repo),
        shown_name(None, repo) == base_name(repo),
{
}

/// A number that was spelled out is read back.
pub proof fn law_counts_are_read(words: Seq<Seq<char>>, i: int, n: nat)
    requires
        n <= usize::MAX,
    ensures
        0 <= i < words.len() && words[i] == decimal(n as int) ==> count_at(words, i) == n,
        i < 0 || i >= words.len() ==> count_at(words, i) == 0,
{
    lemma_decimal_reads_back(n, usize::MAX as nat);
}

/// The workers of a repository are those whose branch starts with its name, in
/// the order in which they stand.
pub proof fn law_workers_go_by_branch(branches: Seq<Seq<char>>, name: Seq<char>, i: int)
    ensures
        workers_listed(branches, name).contains(i) <==> 0 <= i < branches.len() && starts_with(
            branches[i],
            name,
        ),
        forall|a: int, b: int|
            0 <= a < b < workers_listed(branches, name).len() ==> #[trigger] workers_listed(
                branches,
                name,
            )[a] < #[trigger] workers_listed(branches, name)[b],
        forall|a: int|
            0 <= a < workers_listed(branches, name).len() ==> #[trigger] workers_listed(
                branches,
                name,
            )[a] < branches.len(),
    decreases branches.len(),
{
    if branches.len() > 0 {
        let front = branches.drop_last();
        let rest = workers_listed(front, name);
        let all = workers_listed(branches, name);
        law_workers_go_by_branch(front, name, i);
        if starts_with(branches.last(), name) {
            assert(all[rest.len() as int] == branches.len() - 1);
            if rest.contains(i) {
                let k = choose|k: int| 0 <= k < rest.len() && rest[k] == i;
                assert(all[k] == i);
            }
            if all.contains(i) && i != branches.len() - 1 {
                let k = choose|k: int| 0 <= k < all.len() && all[k] == i;
                assert(rest[k] == i);
            }
        }
    }
}

/// A listed repository tells what is known of it, and the first of the two
/// counts is how far it lies behind, the second how far it is ahead.
pub proof fn law_listed_repo(
    item: RepoListItem,
    facts: RepoFacts,
    branches: Seq<Seq<char>>,
    behind: nat,
    ahead: nat,
)
    requires
        lists_repo(item, facts, branches),
        behind <= usize::MAX && ahead <= usize::MAX,
    ensures
        facts.upstream is Some && facts.counts is Some && pieces(facts.counts->0@, Gap::White)
            == seq![decimal(behind as int), decimal(ahead as int)] ==> item.behind_count == behind
            && item.ahead_count == ahead,
        facts.upstream is None || facts.counts is None ==> item.behind_count == 0
            && item.ahead_count == 0,
        item.path@ == facts.path@ && item.branch@ == facts.branch@ && item.upstream
            == facts.upstream && item.has_swarm == facts.has_swarm && item.is_clean
            == facts.is_clean,
        forall|k: int|
            0 <= k < item.workers@.len() ==> 0 <= #[trigger] item.workers@[k] < branches.len()
                && starts_with(branches[item.workers@[k] as int], item.name@),
{
    let words = count_words(facts);
    law_counts_are_read(words, 0, behind);
    law_counts_are_read(words, 1, ahead);
    let listed = item.workers@.map_values(|i: usize| i as int);
    assert forall|k: int| 0 <= k < item.workers@.len() implies 0 <= #[trigger] item.workers@[k]
        < branches.len() && starts_with(branches[item.workers@[k] as int], item.name@) by {
        assert(listed[k] == item.workers@[k] as int);
        law_workers_go_by_branch(branches, item.name@, item.workers@[k] as int);
        assert(listed.contains(item.workers@[k] as int));
    }
}

} // verus!
