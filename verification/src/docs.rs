//! The documents of a workspace: their names, their titles, and the order in
//! which they are listed.

use crate::order::{in_order, is_ranking, law_sorted, lemma_placed_at, placed, sorted};
use crate::text::{
    cat2, chars_of, comes_before, contains, has_part, join, joined, lines, lines_of, opt_text,
    pieces, pieces_of, same, starts_with, string_between, text_less, texts, trim, trimmed, Gap,
};
use vstd::prelude::*;

verus! {

// ---------------------------------------------------------------------------
// Names
// ---------------------------------------------------------------------------

/// Whether a name stays inside the directory of the documents: it is not empty
/// and holds neither a separator of paths nor two dots in a row.
pub open spec fn is_safe_name(name: Seq<char>) -> bool {
    &&& name.len() > 0
    &&& !contains(name, "/"@)
    &&& !contains(name, "\\"@)
    &&& !contains(name, ".."@)
}

/// The name of a document, where it is one that stays inside the directory of
/// the documents.
pub fn sanitize_doc_name(name: &str) -> (r: Option<String>)
    ensures
        r is Some <==> is_safe_name(name@),
        r matches Some(s) ==> s@ == name@,
{
    if name.is_empty() || has_part(name, "/") || has_part(name, "\\") || has_part(name, "..") {
        return None;
    }
    Some(name.to_owned())
}

/// A name that climbs out of the directory of the documents, or into another,
/// is refused.
pub proof fn law_traversal_is_refused(before: Seq<char>, after: Seq<char>)
    ensures
        !is_safe_name(before + "../"@ + after),
        !is_safe_name(before + "/"@ + after),
        !is_safe_name(before + "\\"@ + after),
{
    reveal_strlit("../");
    reveal_strlit("/");
    reveal_strlit("\\");
    reveal_strlit("..");
    let a = before + "../"@ + after;
    assert(a.subrange(before.len() as int, before.len() as int + 2) =~= ".."@);
    assert(crate::text::occurs_at(a, ".."@, before.len() as int));
    let b = before + "/"@ + after;
    assert(b.subrange(before.len() as int, before.len() as int + 1) =~= "/"@);
    assert(crate::text::occurs_at(b, "/"@, before.len() as int));
    let c = before + "\\"@ + after;
    assert(c.subrange(before.len() as int, before.len() as int + 1) =~= "\\"@);
    assert(crate::text::occurs_at(c, "\\"@, before.len() as int));
}

/// The position of the last dot of a name, or -1 where it has none.
pub open spec fn last_dot(name: Seq<char>) -> int
    decreases name.len(),
{
    if name.len() == 0 {
        -1
    } else if name.last() == '.' {
        name.len() - 1
    } else {
        last_dot(name.drop_last())
    }
}

/// A file's name without its extension. A name that starts with its only dot
/// has no extension, and neither has the name of the parent directory.
pub open spec fn stem(name: Seq<char>) -> Seq<char> {
    if last_dot(name) > 0 && name != ".."@ {
        name.take(last_dot(name))
    } else {
        name
    }
}

/// A file's extension.
pub open spec fn extension(name: Seq<char>) -> Option<Seq<char>> {
    if last_dot(name) > 0 && name != ".."@ {
        Some(name.skip(last_dot(name) + 1))
    } else {
        None
    }
}

proof fn lemma_last_dot(name: Seq<char>, k: int)
    requires
        -1 <= k < name.len(),
        forall|i: int| k < i < name.len() ==> name[i] != '.',
        k >= 0 ==> name[k] == '.',
    ensures
        last_dot(name) == k,
    decreases name.len(),
{
    if name.len() > 0 && k < name.len() - 1 {
        lemma_last_dot(name.drop_last(), k);
    }
}

/// The position of the last dot of a name, plus one, or nothing.
fn find_last_dot(v: &Vec<char>) -> (r: usize)
    ensures
        r <= v@.len(),
        r - 1 == last_dot(v@),
{
    let mut k: usize = v.len();
    while k > 0 && v[k - 1] != '.'
        invariant
            0 <= k <= v@.len(),
            forall|i: int| k <= i < v@.len() ==> v@[i] != '.',
        decreases k,
    {
        k = k - 1;
    }
    proof {
        lemma_last_dot(v@, k - 1);
    }
    k
}

/// A file's name without its extension.
pub fn file_stem(name: &str) -> (r: String)
    ensures
        r@ == stem(name@),
{
    let v = chars_of(name);
    let k = find_last_dot(&v);
    if k > 1 && !same(name, "..") {
        proof {
            assert(v@.take(k - 1) =~= v@.subrange(0, k - 1));
        }
        string_between(&v, 0, k - 1)
    } else {
        name.to_owned()
    }
}

/// Whether a file is a document: its extension is that of Markdown.
pub fn is_markdown(name: &str) -> (r: bool)
    ensures
        r == (extension(name@) == Some("md"@)),
{
    let v = chars_of(name);
    let k = find_last_dot(&v);
    if k > 1 && !same(name, "..") {
        let ext = string_between(&v, k, v.len());
        proof {
            assert(v@.skip(k as int) =~= ext@);
        }
        same(ext.as_str(), "md")
    } else {
        false
    }
}

// ---------------------------------------------------------------------------
// Titles
// ---------------------------------------------------------------------------

/// What `char::to_uppercase` of std makes of a character.
pub uninterp spec fn uppercase_of(c: char) -> Seq<char>;

/// `char::to_uppercase` of std: a character in upper case by Unicode's tables,
/// which may be more than one, a function of the character alone.
#[verifier::external_body]
fn uppercase(c: char) -> (r: String)
    ensures
        r@ == uppercase_of(c),
{
    c.to_uppercase().collect()
}

/// A word with its first character in upper case.
pub open spec fn capitalized(word: Seq<char>) -> Seq<char> {
    if word.len() == 0 {
        word
    } else {
        uppercase_of(word[0]) + word.skip(1)
    }
}

/// The title that a file's name gives: its words, each with its first
/// character in upper case.
pub open spec fn title_from_name(name: Seq<char>) -> Seq<char> {
    join(pieces(stem(name), Gap::Dash).map_values(|w: Seq<char>| capitalized(w)), " "@)
}

/// A word with another start in place of its first character.
pub fn with_start(word: &str, start: &str) -> (r: String)
    requires
        word@.len() > 0,
    ensures
        r@ == start@ + word@.skip(1),
{
    let v = chars_of(word);
    let rest = string_between(&v, 1, v.len());
    proof {
        assert(word@.skip(1) =~= rest@);
    }
    cat2(start, rest.as_str())
}

fn capitalize(word: &str) -> (r: String)
    ensures
        r@ == capitalized(word@),
{
    let v = chars_of(word);
    if v.len() == 0 {
        return word.to_owned();
    }
    let start = uppercase(v[0]);
    with_start(word, start.as_str())
}

/// The title that a file's name gives. The name is that of a file in a
/// directory, without the directory.
pub fn doc_title_from_filename(name: &str) -> (r: String)
    requires
        !contains(name@, "/"@),
    ensures
        r@ == title_from_name(name@),
{
    let base = file_stem(name);
    let words = pieces_of(base.as_str(), Gap::Dash);
    let ghost all = pieces(stem(name@), Gap::Dash);
    let n: usize = words.len();
    let mut out: Vec<String> = Vec::new();
    let mut i: usize = 0;
    proof {
        assert(texts(words@).len() == words@.len());
    }
    while i < n
        invariant
            n == words@.len(),
            all == texts(words@),
            0 <= i <= n,
            out@.len() == i,
            forall|j: int| 0 <= j < i ==> (#[trigger] out@[j])@ == capitalized(all[j]),
        decreases n - i,
    {
        let word = capitalize(words[i].as_str());
        proof {
            assert(all[i as int] == words@[i as int]@);
        }
        out.push(word);
        i = i + 1;
    }
    proof {
        assert(texts(out@) =~= all.map_values(|w: Seq<char>| capitalized(w)));
    }
    joined(&out, " ")
}

/// The heading of a line, where it is one of the first level.
pub open spec fn heading_in(line: Seq<char>) -> Option<Seq<char>> {
    if starts_with(line, "# "@) {
        Some(trim(line.skip(2)))
    } else {
        None
    }
}

/// The first heading in a list of lines.
pub open spec fn first_heading(list: Seq<Seq<char>>) -> Option<Seq<char>>
    decreases list.len(),
{
    if list.len() == 0 {
        None
    } else {
        match heading_in(list[0]) {
            Some(h) => Some(h),
            None => first_heading(list.drop_first()),
        }
    }
}

/// The title of a document: its first heading where that is not empty, else
/// what its name gives.
pub open spec fn title_of(name: Seq<char>, content: Seq<char>) -> Seq<char> {
    match first_heading(lines(content)) {
        Some(h) => if h.len() > 0 {
            h
        } else {
            title_from_name(name)
        },
        None => title_from_name(name),
    }
}

fn find_heading(content: &str) -> (r: Option<String>)
    ensures
        opt_text(r) == first_heading(lines(content@)),
{
    let list = lines_of(content);
    let ghost all = texts(list@);
    let n: usize = list.len();
    let mut i: usize = 0;
    proof {
        assert(all.skip(0) =~= all);
    }
    while i < n
        invariant
            n == list@.len(),
            all == texts(list@),
            all == lines(content@),
            0 <= i <= n,
            first_heading(all) == first_heading(all.skip(i as int)),
        decreases n - i,
    {
        proof {
            assert(all.skip(i as int)[0] == list@[i as int]@);
            assert(all.skip(i as int).drop_first() =~= all.skip(i + 1));
        }
        if crate::text::has_prefix(list[i].as_str(), "# ") {
            let v = chars_of(list[i].as_str());
            proof {
                reveal_strlit("# ");
                assert(v@.skip(2) =~= v@.subrange(2, v@.len() as int));
            }
            let rest = string_between(&v, 2, v.len());
            return Some(trimmed(rest.as_str()));
        }
        i = i + 1;
    }
    None
}

/// The title of a document.
pub fn doc_title_from_content(name: &str, content: &str) -> (r: String)
    requires
        !contains(name@, "/"@),
    ensures
        r@ == title_of(name@, content@),
{
    match find_heading(content) {
        Some(h) => if h.as_str().is_empty() {
            doc_title_from_filename(name)
        } else {
            h
        },
        None => doc_title_from_filename(name),
    }
}

// ---------------------------------------------------------------------------
// Listing
// ---------------------------------------------------------------------------

/// A file that was found among the documents, in the order of the search.
pub struct FoundFile {
    pub name: String,
    /// What it holds, where it could be read.
    pub content: Option<String>,
    pub updated_at: String,
}

/// A document as the web interface shows it.
pub struct DocView {
    pub name: String,
    pub title: String,
    pub content: Option<String>,
    pub updated_at: String,
}

/// What is shown of a document.
pub struct Doc {
    pub name: Seq<char>,
    pub title: Seq<char>,
    pub content: Option<Seq<char>>,
    pub updated_at: Seq<char>,
}

impl View for DocView {
    type V = Doc;

    open spec fn view(&self) -> Doc {
        Doc {
            name: self.name@,
            title: self.title@,
            content: opt_text(self.content),
            updated_at: self.updated_at@,
        }
    }
}

/// What is shown of documents.
pub open spec fn docs_view(list: Seq<DocView>) -> Seq<Doc> {
    list.map_values(|d: DocView| d@)
}

/// Whether one of the files is a document of the name.
pub open spec fn name_taken(files: Seq<FoundFile>, name: Seq<char>) -> bool {
    exists|i: int|
        0 <= i < files.len() && (#[trigger] files[i]).name@ == name && extension(files[i].name@)
            == Some("md"@)
}

/// The documents among the files, in the order of the search: of a name only
/// the first, and only those that can be read.
pub open spec fn docs_found(files: Seq<FoundFile>) -> Seq<Doc>
    decreases files.len(),
{
    if files.len() == 0 {
        seq![]
    } else {
        let f = files.last();
        let rest = docs_found(files.drop_last());
        if extension(f.name@) == Some("md"@) && !name_taken(files.drop_last(), f.name@)
            && f.content is Some {
            rest.push(
                Doc {
                    name: f.name@,
                    title: title_of(f.name@, f.content->0@),
                    content: None,
                    updated_at: f.updated_at@,
                },
            )
        } else {
            rest
        }
    }
}

/// Whether a document comes before another in the list.
pub open spec fn doc_before() -> spec_fn(Doc, Doc) -> bool {
    |a: Doc, b: Doc| text_less(a.name, b.name)
}

fn is_taken(files: &Vec<FoundFile>, upto: usize, name: &str) -> (r: bool)
    requires
        upto <= files@.len(),
    ensures
        r == name_taken(files@.take(upto as int), name@),
{
    let mut i: usize = 0;
    while i < upto
        invariant
            upto <= files@.len(),
            0 <= i <= upto,
            forall|j: int|
                0 <= j < i ==> !((#[trigger] files@.take(upto as int)[j]).name@ == name@
                    && extension(files@.take(upto as int)[j].name@) == Some("md"@)),
        decreases upto - i,
    {
        proof {
            assert(files@.take(upto as int)[i as int] == files@[i as int]);
        }
        if same(files[i].name.as_str(), name) && is_markdown(files[i].name.as_str()) {
            return true;
        }
        i = i + 1;
    }
    false
}

/// Lists the documents of a workspace by name. The files come directory by
/// directory, those that take precedence first.
pub fn list_docs(files: &Vec<FoundFile>) -> (r: Vec<DocView>)
    requires
        forall|i: int| 0 <= i < files@.len() ==> !contains((#[trigger] files@[i]).name@, "/"@),
    ensures
        docs_view(r@) == sorted(docs_found(files@), doc_before()),
{
    let n: usize = files.len();
    let mut out: Vec<DocView> = Vec::new();
    let mut i: usize = 0;
    let ghost less = doc_before();
    proof {
        assert(docs_view(out@) =~= sorted(docs_found(files@.take(0)), less));
    }
    while i < n
        invariant
            n == files@.len(),
            0 <= i <= n,
            less == doc_before(),
            forall|i: int| 0 <= i < files@.len() ==> !contains((#[trigger] files@[i]).name@, "/"@),
            docs_view(out@) == sorted(docs_found(files@.take(i as int)), less),
        decreases n - i,
    {
        let f = &files[i];
        let ghost found = docs_found(files@.take(i as int));
        proof {
            assert(files@.take(i + 1).drop_last() =~= files@.take(i as int));
            assert(files@.take(i + 1).last() == *f);
        }
        if is_markdown(f.name.as_str()) && !is_taken(files, i, f.name.as_str()) {
            if let Some(content) = &f.content {
                let doc = DocView {
                    name: f.name.clone(),
                    title: doc_title_from_content(f.name.as_str(), content.as_str()),
                    content: None,
                    updated_at: f.updated_at.clone(),
                };
                let ghost order = docs_view(out@);
                let mut k: usize = out.len();
                while k > 0 && comes_before(doc.name.as_str(), out[k - 1].name.as_str())
                    invariant
                        0 <= k <= out@.len(),
                        order == docs_view(out@),
                        less == doc_before(),
                        forall|j: int| k <= j < order.len() ==> less(doc@, #[trigger] order[j]),
                    decreases k,
                {
                    k = k - 1;
                }
                proof {
                    lemma_placed_at(order, doc@, less, k as int);
                    assert(docs_view(out@.insert(k as int, doc)) =~= order.insert(k as int, doc@));
                    let grown = found.push(doc@);
                    assert(docs_found(files@.take(i + 1)) == grown);
                    assert(grown.drop_last() =~= found);
                    assert(sorted(grown, less) == placed(sorted(found, less), doc@, less));
                }
                out.insert(k, doc);
            }
        }
        i = i + 1;
    }
    proof {
        assert(files@.take(n as int) =~= files@);
    }
    out
}

/// The list of documents is in the order of their names.
pub proof fn law_docs_are_listed_by_name(files: Seq<FoundFile>)
    ensures
        in_order(sorted(docs_found(files), doc_before()), doc_before()),
        sorted(docs_found(files), doc_before()).len() == docs_found(files).len(),
{
    let less = doc_before();
    assert(is_ranking(less)) by {
        assert forall|a: Doc, b: Doc| #[trigger] less(a, b) implies !less(b, a) by {
            if less(b, a) {
                crate::text::lemma_text_less_transitive(a.name, b.name, a.name);
                crate::text::lemma_text_less_irreflexive(a.name);
            }
        }
        assert forall|a: Doc, b: Doc, c: Doc|
            !(#[trigger] less(a, b)) && !(#[trigger] less(b, c)) implies !less(a, c) by {
            crate::text::lemma_text_less_total(a.name, b.name);
            crate::text::lemma_text_less_total(b.name, c.name);
            if less(a, c) {
                if text_less(c.name, b.name) {
                    crate::text::lemma_text_less_transitive(a.name, c.name, b.name);
                } else if text_less(b.name, a.name) {
                    crate::text::lemma_text_less_transitive(b.name, a.name, c.name);
                }
            }
        }
    }
    law_sorted(docs_found(files), less);
}

/// Where documents are kept: in the directory of the workspace's own where it
/// exists, else in the general one where that exists, else in the first.
pub fn docs_dir(own_exists: bool, general_exists: bool) -> (r: &'static str)
    ensures
        r@ == if !own_exists && general_exists {
            "docs"@
        } else {
            ".apiari/docs"@
        },
{
    if !own_exists && general_exists {
        "docs"
    } else {
        ".apiari/docs"
    }
}

/// Where a document is read from: the first directory that has it, else where
/// documents are kept.
pub fn doc_dir(
    own_has_it: bool,
    general_has_it: bool,
    own_exists: bool,
    general_exists: bool,
) -> (r: &'static str)
    ensures
        own_has_it ==> r@ == ".apiari/docs"@,
        !own_has_it && general_has_it ==> r@ == "docs"@,
        !own_has_it && !general_has_it ==> r@ == (if !own_exists && general_exists {
            "docs"@
        } else {
            ".apiari/docs"@
        }),
{
    if own_has_it {
        ".apiari/docs"
    } else if general_has_it {
        "docs"
    } else {
        docs_dir(own_exists, general_exists)
    }
}

// ---------------------------------------------------------------------------
// Laws
// ---------------------------------------------------------------------------

proof fn lemma_last_dot_is(name: Seq<char>)
    ensures
        -1 <= last_dot(name) < name.len(),
        last_dot(name) >= 0 ==> name[last_dot(name)] == '.',
        forall|i: int| last_dot(name) < i < name.len() ==> name[i] != '.',
    decreases name.len(),
{
    if name.len() > 0 && name.last() != '.' {
        let front = name.drop_last();
        lemma_last_dot_is(front);
        assert forall|i: int| last_dot(name) < i < name.len() implies name[i] != '.' by {
            if i < front.len() {
                assert(front[i] == name[i]);
            }
        }
    }
}

/// A file is a document exactly where its name goes on with `.md` behind
/// something; its stem is what stands in front of the last dot.
pub proof fn law_documents_end_in_md(start: Seq<char>, end: Seq<char>, plain: Seq<char>)
    requires
        start.len() > 0,
        !end.contains('.'),
        end.len() > 0,
        !plain.contains('.'),
    ensures
        stem(start + seq!['.'] + end) == start,
        extension(start + seq!['.'] + end) == Some(end),
        stem(plain) == plain,
        extension(plain) is None,
{
    let name = start + seq!['.'] + end;
    let k = start.len() as int;
    lemma_last_dot_is(name);
    lemma_last_dot_is(plain);
    assert(name[k] == '.');
    if last_dot(name) > k {
        let d = last_dot(name);
        assert(end[d - k - 1] == name[d]);
        assert(end.contains('.'));
    }
    assert(last_dot(name) == k);
    reveal_strlit("..");
    assert(name != ".."@) by {
        if name == ".."@ {
            assert(end[0] == name[k + 1]);
            assert(name.len() == 2);
        }
    }
    assert(name.take(k) =~= start);
    assert(name.skip(k + 1) =~= end);
    if last_dot(plain) >= 0 {
        assert(plain.contains('.'));
    }
}

/// A document is titled by its first heading of the top level where that says
/// anything, else by its name: the words of the name, each with its first
/// letter in upper case.
pub proof fn law_heading_gives_the_title(
    name: Seq<char>,
    before: Seq<Seq<char>>,
    heading: Seq<char>,
    after: Seq<Seq<char>>,
)
    requires
        forall|i: int| 0 <= i < before.len() ==> !starts_with(#[trigger] before[i], "# "@),
    ensures
        first_heading(before + seq!["# "@ + heading] + after) == Some(trim(heading)),
        first_heading(before) is None,
    decreases before.len(),
{
    reveal_strlit("# ");
    let line = "# "@ + heading;
    let all = before + seq![line] + after;
    if before.len() == 0 {
        assert(all[0] == line);
        assert(line.subrange(0, 2) =~= "# "@);
        assert(line.skip(2) =~= heading);
    } else {
        let t = before.drop_first();
        assert(all[0] == before[0]);
        assert(all.drop_first() =~= t + seq![line] + after);
        assert forall|i: int| 0 <= i < t.len() implies !starts_with(#[trigger] t[i], "# "@) by {
            assert(t[i] == before[i + 1]);
        }
        law_heading_gives_the_title(name, t, heading, after);
    }
}

/// The title of a document follows from its contents, else from its name.
pub proof fn law_title_falls_back_to_the_name(name: Seq<char>, content: Seq<char>)
    ensures
        first_heading(lines(content)) matches Some(h) && h.len() > 0 ==> title_of(name, content)
            == first_heading(lines(content))->0,
        first_heading(lines(content)) is None ==> title_of(name, content) == title_from_name(name),
        first_heading(lines(content)) matches Some(h) && h.len() == 0 ==> title_of(name, content)
            == title_from_name(name),
        title_from_name(name) == join(
            pieces(stem(name), Gap::Dash).map_values(
                |w: Seq<char>|
                    if w.len() > 0 {
                        uppercase_of(w[0]) + w.skip(1)
                    } else {
                        w
                    },
            ),
            " "@,
        ),
{
    let a = pieces(stem(name), Gap::Dash).map_values(|w: Seq<char>| capitalized(w));
    let b = pieces(stem(name), Gap::Dash).map_values(
        |w: Seq<char>|
            if w.len() > 0 {
                uppercase_of(w[0]) + w.skip(1)
            } else {
                w
            },
    );
    assert(a =~= b);
}

/// A Markdown file that can be read is listed under its name and title, unless
/// an earlier file has its name.
pub proof fn law_document_is_listed(files: Seq<FoundFile>, i: int)
    requires
        0 <= i < files.len(),
        extension(files[i].name@) == Some("md"@),
        files[i].content is Some,
        forall|j: int| 0 <= j < i ==> (#[trigger] files[j]).name@ != files[i].name@,
    ensures
        docs_found(files).contains(
            Doc {
                name: files[i].name@,
                title: title_of(files[i].name@, files[i].content->0@),
                content: None,
                updated_at: files[i].updated_at@,
            },
        ),
    decreases files.len(),
{
    let d = Doc {
        name: files[i].name@,
        title: title_of(files[i].name@, files[i].content->0@),
        content: None,
        updated_at: files[i].updated_at@,
    };
    let front = files.drop_last();
    let rest = docs_found(front);
    let all = docs_found(files);
    if i < front.len() {
        assert(front[i] == files[i]);
        assert forall|j: int| 0 <= j < i implies (#[trigger] front[j]).name@ != front[i].name@ by {
            assert(front[j] == files[j]);
        }
        law_document_is_listed(front, i);
        let k = choose|k: int| 0 <= k < rest.len() && rest[k] == d;
        assert(all[k] == d);
    } else {
        if name_taken(front, files[i].name@) {
            let j = choose|j: int|
                0 <= j < front.len() && (#[trigger] front[j]).name@ == files[i].name@ && extension(
                    front[j].name@,
                ) == Some("md"@);
            assert(front[j] == files[j]);
        }
        assert(all[all.len() - 1] == d);
    }
}

/// What is listed is a Markdown file that can be read, with none of its
/// contents.
pub proof fn law_only_documents_are_listed(files: Seq<FoundFile>, k: int) -> (i: int)
    requires
        0 <= k < docs_found(files).len(),
    ensures
        0 <= i < files.len(),
        files[i].content is Some,
        extension(files[i].name@) == Some("md"@),
        docs_found(files)[k].name == files[i].name@,
        docs_found(files)[k].updated_at == files[i].updated_at@,
        docs_found(files)[k].content is None,
    decreases files.len(),
{
    let front = files.drop_last();
    let rest = docs_found(front);
    if files.len() > 0 && k < rest.len() {
        let i = law_only_documents_are_listed(front, k);
        assert(files[i] == front[i]);
        assert(docs_found(files)[k] == rest[k]);
        i
    } else {
        files.len() - 1
    }
}

/// No name is listed twice.
pub proof fn law_each_document_is_listed_once(files: Seq<FoundFile>, k: int, m: int)
    requires
        0 <= k < m < docs_found(files).len(),
    ensures
        docs_found(files)[k].name != docs_found(files)[m].name,
    decreases files.len(),
{
    let front = files.drop_last();
    let rest = docs_found(front);
    let all = docs_found(files);
    if files.len() > 0 {
        assert(all[k] == rest[k]);
        if m < rest.len() {
            assert(all[m] == rest[m]);
            law_each_document_is_listed_once(front, k, m);
        } else {
            let i = law_only_documents_are_listed(front, k);
            assert(!name_taken(front, files.last().name@));
            assert(front[i].name@ != files.last().name@);
        }
    }
}

/// A name is safe exactly where it is not empty and holds no slash, no
/// backslash and no two dots in a row.
pub proof fn law_plain_names_are_safe(name: Seq<char>)
    requires
        name.len() > 0,
        !name.contains('/'),
        !name.contains('\\'),
        forall|i: int| 0 <= i < name.len() - 1 ==> !(name[i] == '.' && #[trigger] name[i + 1] == '.'),
    ensures
        is_safe_name(name),
        !is_safe_name(Seq::<char>::empty()),
{
    reveal_strlit("/");
    reveal_strlit("\\");
    reveal_strlit("..");
    if contains(name, "/"@) {
        let i = choose|i: int| crate::text::occurs_at(name, "/"@, i);
        assert(name.subrange(i, i + 1)[0] == name[i]);
        assert(name.contains('/'));
    }
    if contains(name, "\\"@) {
        let i = choose|i: int| crate::text::occurs_at(name, "\\"@, i);
        assert(name.subrange(i, i + 1)[0] == name[i]);
        assert(name.contains('\\'));
    }
    if contains(name, ".."@) {
        let i = choose|i: int| crate::text::occurs_at(name, ".."@, i);
        assert(name.subrange(i, i + 2)[0] == name[i]);
        assert(name.subrange(i, i + 2)[1] == name[i + 1]);
    }
}

} // verus!
