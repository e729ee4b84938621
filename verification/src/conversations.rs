//! Conversations with bots: the history over several scopes, and what of it
//! has not been seen.

use crate::order::{in_order, is_ranking, law_sorted, lemma_placed_at, sorted};
use crate::text::{comes_before, number_up_to, parse_number, same, text_less};
use vstd::prelude::*;

verus! {

/// A stored message.
pub struct MessageRow {
    pub id: i64,
    pub role: String,
    pub content: String,
    pub attachments: Option<String>,
    pub created_at: String,
}

/// A message as the web interface shows it.
pub struct ConversationMessageView {
    pub id: i64,
    pub workspace: String,
    pub bot: String,
    pub role: String,
    pub content: String,
    pub attachments: Option<String>,
    pub created_at: String,
}

/// The rows of all scopes, one scope after the other.
pub open spec fn all_rows(scopes: Seq<Vec<MessageRow>>) -> Seq<MessageRow>
    decreases scopes.len(),
{
    if scopes.len() == 0 {
        seq![]
    } else {
        all_rows(scopes.drop_last()) + scopes.last()@
    }
}

/// Whether one of the rows has the number.
pub open spec fn has_id(rows: Seq<MessageRow>, id: i64) -> bool {
    exists|i: int| 0 <= i < rows.len() && (#[trigger] rows[i]).id == id
}

/// The rows of a list, of those with the same number only the first.
pub open spec fn each_once(rows: Seq<MessageRow>) -> Seq<MessageRow>
    decreases rows.len(),
{
    if rows.len() == 0 {
        seq![]
    } else {
        let rest = each_once(rows.drop_last());
        if has_id(rest, rows.last().id) {
            rest
        } else {
            rest.push(rows.last())
        }
    }
}

/// Whether a message comes before another: by its time, then by its number.
pub open spec fn row_before() -> spec_fn(MessageRow, MessageRow) -> bool {
    |a: MessageRow, b: MessageRow|
        text_less(a.created_at@, b.created_at@) || (a.created_at@ == b.created_at@ && a.id < b.id)
}

/// The last `limit` items of a list.
pub open spec fn last_of<T>(list: Seq<T>, limit: int) -> Seq<T> {
    if list.len() > limit {
        list.skip(list.len() - limit)
    } else {
        list
    }
}

/// The history over several scopes: every message once, in the order of time,
/// and of those the last `limit`.
pub open spec fn history(scopes: Seq<Vec<MessageRow>>, limit: int) -> Seq<MessageRow> {
    last_of(sorted(each_once(all_rows(scopes)), row_before()), limit)
}

/// Whether `view` shows `row`.
pub open spec fn shows_row(
    view: ConversationMessageView,
    row: MessageRow,
    workspace: Seq<char>,
    bot: Seq<char>,
) -> bool {
    &&& view.id == row.id
    &&& view.workspace@ == workspace
    &&& view.bot@ == bot
    &&& view.role == row.role
    &&& view.content == row.content
    &&& view.attachments == row.attachments
    &&& view.created_at == row.created_at
}

fn holds_id(rows: &Vec<MessageRow>, id: i64) -> (r: bool)
    ensures
        r == has_id(rows@, id),
{
    let n: usize = rows.len();
    let mut i: usize = 0;
    while i < n
        invariant
            n == rows@.len(),
            0 <= i <= n,
            forall|j: int| 0 <= j < i ==> (#[trigger] rows@[j]).id != id,
        decreases n - i,
    {
        if rows[i].id == id {
            return true;
        }
        i = i + 1;
    }
    false
}

fn row_comes_before(a: &MessageRow, b: &MessageRow) -> (r: bool)
    ensures
        r == row_before()(*a, *b),
{
    comes_before(a.created_at.as_str(), b.created_at.as_str()) || (same(
        a.created_at.as_str(),
        b.created_at.as_str(),
    ) && a.id < b.id)
}

fn gather(scopes: Vec<Vec<MessageRow>>) -> (r: Vec<MessageRow>)
    ensures
        r@ == each_once(all_rows(scopes@)),
{
    let ghost all = scopes@;
    let mut left = scopes;
    let mut out: Vec<MessageRow> = Vec::new();
    let ghost mut k: int = 0;
    proof {
        assert(all.skip(0) =~= all);
        assert(out@ =~= each_once(all_rows(all.take(0))));
    }
    while left.len() > 0
        invariant
            0 <= k <= all.len(),
            left@ == all.skip(k),
            out@ == each_once(all_rows(all.take(k))),
        decreases left@.len(),
    {
        proof {
            assert(k < all.len());
            assert(left@[0] == all[k]);
        }
        let scope = left.remove(0);
        proof {
            assert(left@ =~= all.skip(k + 1));
            assert(all.take(k + 1).drop_last() =~= all.take(k));
            assert(all.take(k + 1).last() == scope);
        }
        let ghost before = all_rows(all.take(k));
        let ghost rows = scope@;
        let mut rest = scope;
        let ghost mut m: int = 0;
        proof {
            assert(rows.skip(0) =~= rows);
            assert(before + rows.take(0) =~= before);
        }
        while rest.len() > 0
            invariant
                0 <= m <= rows.len(),
                rest@ == rows.skip(m),
                out@ == each_once(before + rows.take(m)),
            decreases rest@.len(),
        {
            proof {
                assert(m < rows.len());
                assert(rest@[0] == rows[m]);
            }
            let row = rest.remove(0);
            proof {
                assert(rest@ =~= rows.skip(m + 1));
                let grown = before + rows.take(m + 1);
                assert(grown.drop_last() =~= before + rows.take(m));
                assert(grown.last() == row);
                m = m + 1;
            }
            if !holds_id(&out, row.id) {
                out.push(row);
            }
        }
        proof {
            assert(rows.take(m) =~= rows);
            k = k + 1;
        }
    }
    proof {
        assert(all.take(k) =~= all);
    }
    out
}

fn sort_rows(rows: Vec<MessageRow>) -> (r: Vec<MessageRow>)
    ensures
        r@ == sorted(rows@, row_before()),
{
    let ghost all = rows@;
    let ghost less = row_before();
    let mut rest = rows;
    let mut out: Vec<MessageRow> = Vec::new();
    let ghost mut m: int = 0;
    proof {
        assert(all.skip(0) =~= all);
        assert(out@ =~= sorted(all.take(0), less));
    }
    while rest.len() > 0
        invariant
            0 <= m <= all.len(),
            less == row_before(),
            rest@ == all.skip(m),
            out@ == sorted(all.take(m), less),
        decreases rest@.len(),
    {
        proof {
            assert(m < all.len());
            assert(rest@[0] == all[m]);
        }
        let row = rest.remove(0);
        let mut k: usize = out.len();
        while k > 0 && row_comes_before(&row, &out[k - 1])
            invariant
                0 <= k <= out@.len(),
                less == row_before(),
                forall|j: int| k <= j < out@.len() ==> less(row, #[trigger] out@[j]),
            decreases k,
        {
            k = k - 1;
        }
        proof {
            assert(rest@ =~= all.skip(m + 1));
            lemma_placed_at(out@, row, less, k as int);
            assert(all.take(m + 1).drop_last() =~= all.take(m));
            assert(all.take(m + 1).last() == row);
            m = m + 1;
        }
        out.insert(k, row);
    }
    proof {
        assert(all.take(m) =~= all);
    }
    out
}

/// The history of the conversations with a bot. `scopes` holds what each scope
/// of the bot has kept.
pub fn merge_history(
    scopes: Vec<Vec<MessageRow>>,
    limit: usize,
    workspace: &str,
    bot: &str,
) -> (r: Vec<ConversationMessageView>)
    ensures
        r@.len() == history(scopes@, limit as int).len(),
        forall|i: int|
            0 <= i < r@.len() ==> shows_row(
                #[trigger] r@[i],
                history(scopes@, limit as int)[i],
                workspace@,
                bot@,
            ),
{
    let ghost all = scopes@;
    let rows = sort_rows(gather(scopes));
    let n: usize = rows.len();
    let start: usize = if n > limit {
        n - limit
    } else {
        0
    };
    let ghost shown = history(all, limit as int);
    proof {
        assert(shown =~= rows@.skip(start as int));
    }
    let mut out: Vec<ConversationMessageView> = Vec::new();
    let mut i: usize = start;
    while i < n
        invariant
            n == rows@.len(),
            start <= i <= n,
            shown == rows@.skip(start as int),
            out@.len() == i - start,
            forall|j: int|
                0 <= j < i - start ==> shows_row(
                    #[trigger] out@[j],
                    shown[j],
                    workspace@,
                    bot@,
                ),
        decreases n - i,
    {
        let row = &rows[i];
        proof {
            assert(shown[i - start] == *row);
        }
        out.push(
            ConversationMessageView {
                id: row.id,
                workspace: workspace.to_owned(),
                bot: bot.to_owned(),
                role: row.role.clone(),
                content: row.content.clone(),
                attachments: row.attachments.clone(),
                created_at: row.created_at.clone(),
            },
        );
        i = i + 1;
    }
    out
}

/// How many messages of a history are shown: thirty unless the request says
/// otherwise in a number.
pub fn history_limit(asked: &Option<String>) -> (r: usize)
    ensures
        r == match *asked {
            Some(s) => match number_up_to(s@, usize::MAX as nat) {
                Some(n) => n as int,
                None => 30,
            },
            None => 30,
        },
{
    match asked {
        Some(s) => match parse_number(s.as_str(), usize::MAX as u64) {
            Some(n) => n as usize,
            None => 30,
        },
        None => 30,
    }
}

proof fn lemma_row_ranking()
    ensures
        is_ranking(row_before()),
{
    let less = row_before();
    assert forall|a: MessageRow, b: MessageRow| #[trigger] less(a, b) implies !less(b, a) by {
        let (x, y) = (a.created_at@, b.created_at@);
        if text_less(x, y) && text_less(y, x) {
            crate::text::lemma_text_less_transitive(x, y, x);
        }
        crate::text::lemma_text_less_irreflexive(x);
    }
    assert forall|a: MessageRow, b: MessageRow, c: MessageRow|
        !(#[trigger] less(a, b)) && !(#[trigger] less(b, c)) implies !less(a, c) by {
        let (x, y, z) = (a.created_at@, b.created_at@, c.created_at@);
        crate::text::lemma_text_less_total(x, y);
        crate::text::lemma_text_less_total(y, z);
        crate::text::lemma_text_less_irreflexive(x);
        if text_less(y, x) && text_less(z, y) {
            crate::text::lemma_text_less_transitive(z, y, x);
        }
        if text_less(x, z) {
            if text_less(z, y) {
                crate::text::lemma_text_less_transitive(x, z, y);
            }
            if text_less(y, x) {
                crate::text::lemma_text_less_transitive(y, x, z);
            }
            if text_less(z, x) {
                crate::text::lemma_text_less_transitive(x, z, x);
            }
        }
    }
}

/// A history is in the order of time and holds no more messages than were
/// asked for; sorting has neither lost nor invented one.
pub proof fn law_history_is_ordered(scopes: Seq<Vec<MessageRow>>, limit: int)
    requires
        0 <= limit,
    ensures
        in_order(history(scopes, limit), row_before()),
        history(scopes, limit).len() <= limit,
        sorted(each_once(all_rows(scopes)), row_before()).to_multiset() =~= each_once(
            all_rows(scopes),
        ).to_multiset(),
{
    lemma_row_ranking();
    let rows = each_once(all_rows(scopes));
    law_sorted(rows, row_before());
    let whole = sorted(rows, row_before());
    let shown = history(scopes, limit);
    if whole.len() > limit {
        let k = whole.len() - limit;
        assert forall|i: int, j: int| 0 <= i < j < shown.len() implies !row_before()(
            #[trigger] shown[j],
            #[trigger] shown[i],
        ) by {
            assert(shown[j] == whole[j + k]);
            assert(shown[i] == whole[i + k]);
        }
    }
}

/// No message is shown twice, and every message of a scope is among those that
/// are shown, as far as the limit allows.
pub proof fn law_each_once(rows: Seq<MessageRow>)
    ensures
        forall|i: int, j: int|
            0 <= i < j < each_once(rows).len() ==> (#[trigger] each_once(rows)[i]).id != (
            #[trigger] each_once(rows)[j]).id,
        forall|i: int| 0 <= i < rows.len() ==> has_id(each_once(rows), (#[trigger] rows[i]).id),
        forall|i: int| 0 <= i < each_once(rows).len() ==> rows.contains(
            #[trigger] each_once(rows)[i],
        ),
    decreases rows.len(),
{
    if rows.len() > 0 {
        let front = rows.drop_last();
        let x = rows.last();
        let rest = each_once(front);
        let new = each_once(rows);
        law_each_once(front);
        assert forall|i: int, j: int| 0 <= i < j < new.len() implies (#[trigger] new[i]).id != (
        #[trigger] new[j]).id by {
            assert(new[i] == rest[i]);
            if j < rest.len() {
                assert(new[j] == rest[j]);
            }
        }
        assert forall|i: int| 0 <= i < rows.len() implies has_id(new, (#[trigger] rows[i]).id) by {
            if i < front.len() {
                assert(front[i] == rows[i]);
                assert(has_id(rest, front[i].id));
                let m = choose|m: int| 0 <= m < rest.len() && (#[trigger] rest[m]).id == front[i].id;
                assert(new[m] == rest[m]);
            } else if !has_id(rest, x.id) {
                assert(new[rest.len() as int] == x);
            }
        }
        assert forall|i: int| 0 <= i < new.len() implies rows.contains(#[trigger] new[i]) by {
            if i < rest.len() {
                assert(front.contains(rest[i]));
                let m = choose|m: int| 0 <= m < front.len() && front[m] == rest[i];
                assert(rows[m] == new[i]);
            } else {
                assert(rows[rows.len() - 1] == new[i]);
            }
        }
    }
}

// ---------------------------------------------------------------------------
// What has been seen
// ---------------------------------------------------------------------------

/// A stored message, as far as counting goes.
#[derive(Clone, Copy, PartialEq, Eq, Structural)]
pub struct MessageMark {
    pub id: i64,
    pub from_assistant: bool,
}

/// The numbers of the messages of the assistant after the one that was seen
/// last.
pub open spec fn unseen_ids(marks: Seq<MessageMark>, seen_id: i64) -> Set<i64> {
    Set::new(
        |id: i64|
            id > seen_id && exists|i: int|
                0 <= i < marks.len() && (#[trigger] marks[i]).id == id && marks[i].from_assistant,
    )
}

/// The greatest number of a message.
pub open spec fn greatest_id(marks: Seq<MessageMark>) -> Option<i64>
    decreases marks.len(),
{
    if marks.len() == 0 {
        None
    } else {
        let x = marks.last().id;
        match greatest_id(marks.drop_last()) {
            Some(best) => if x > best {
                Some(x)
            } else {
                Some(best)
            },
            None => Some(x),
        }
    }
}

/// The number of the latest message over several scopes.
pub fn latest_message_id(marks: &Vec<MessageMark>) -> (r: Option<i64>)
    ensures
        r == greatest_id(marks@),
{
    let n: usize = marks.len();
    let mut best: Option<i64> = None;
    let mut i: usize = 0;
    while i < n
        invariant
            n == marks@.len(),
            0 <= i <= n,
            best == greatest_id(marks@.take(i as int)),
        decreases n - i,
    {
        let x: i64 = marks[i].id;
        proof {
            assert(marks@.take(i + 1).drop_last() =~= marks@.take(i as int));
            assert(marks@.take(i + 1).last() == marks@[i as int]);
        }
        match best {
            Some(b) => {
                if x > b {
                    best = Some(x);
                }
            },
            None => {
                best = Some(x);
            },
        }
        i = i + 1;
    }
    proof {
        assert(marks@.take(n as int) =~= marks@);
    }
    best
}

/// How many messages of the assistant have not been seen: each counts once,
/// though it may be kept in several scopes.
pub fn unread_assistant_count(marks: &Vec<MessageMark>, seen_id: i64) -> (r: usize)
    ensures
        unseen_ids(marks@, seen_id).finite(),
        r == unseen_ids(marks@, seen_id).len(),
{
    let n: usize = marks.len();
    let mut ids: Vec<i64> = Vec::new();
    let mut i: usize = 0;
    proof {
        assert(ids@.to_set() =~= unseen_ids(marks@.take(0), seen_id));
    }
    while i < n
        invariant
            n == marks@.len(),
            0 <= i <= n,
            ids@.no_duplicates(),
            ids@.to_set() == unseen_ids(marks@.take(i as int), seen_id),
        decreases n - i,
    {
        let m: MessageMark = marks[i];
        let ghost done = marks@.take(i as int);
        let ghost next = marks@.take(i + 1);
        proof {
            assert(next.last() == m);
            assert forall|id: i64| unseen_ids(next, seen_id).contains(id) == (unseen_ids(
                done,
                seen_id,
            ).contains(id) || (id == m.id && m.from_assistant && id > seen_id)) by {
                if unseen_ids(done, seen_id).contains(id) {
                    let k = choose|k: int|
                        0 <= k < done.len() && (#[trigger] done[k]).id == id
                            && done[k].from_assistant;
                    assert(next[k] == done[k]);
                }
                if id == m.id && m.from_assistant && id > seen_id {
                    assert(next[i as int] == m);
                }
                if unseen_ids(next, seen_id).contains(id) {
                    let k = choose|k: int|
                        0 <= k < next.len() && (#[trigger] next[k]).id == id
                            && next[k].from_assistant;
                    if k < i {
                        assert(done[k] == next[k]);
                    }
                }
            }
        }
        if m.from_assistant && m.id > seen_id {
            let known = holds_number(&ids, m.id);
            if !known {
                let ghost old_ids = ids@;
                ids.push(m.id);
                proof {
                    assert(ids@.to_set() =~= unseen_ids(next, seen_id)) by {
                        assert forall|id: i64| ids@.to_set().contains(id) == unseen_ids(
                            next,
                            seen_id,
                        ).contains(id) by {
                            if old_ids.contains(id) {
                                let k = choose|k: int| 0 <= k < old_ids.len() && old_ids[k] == id;
                                assert(ids@[k] == id);
                            }
                            if id == m.id {
                                assert(ids@[old_ids.len() as int] == id);
                            }
                            if ids@.contains(id) {
                                let k = choose|k: int| 0 <= k < ids@.len() && ids@[k] == id;
                                if k < old_ids.len() {
                                    assert(old_ids[k] == id);
                                }
                            }
                            assert(old_ids.to_set().contains(id) == old_ids.contains(id));
                        }
                    }
                }
            } else {
                proof {
                    assert(ids@.to_set().contains(m.id));
                    assert(ids@.to_set() =~= unseen_ids(next, seen_id));
                }
            }
        } else {
            proof {
                assert(ids@.to_set() =~= unseen_ids(next, seen_id));
            }
        }
        i = i + 1;
    }
    proof {
        assert(marks@.take(n as int) =~= marks@);
        ids@.unique_seq_to_set();
    }
    ids.len()
}

fn holds_number(ids: &Vec<i64>, id: i64) -> (r: bool)
    ensures
        r == ids@.contains(id),
{
    let n: usize = ids.len();
    let mut i: usize = 0;
    while i < n
        invariant
            n == ids@.len(),
            0 <= i <= n,
            forall|j: int| 0 <= j < i ==> ids@[j] != id,
        decreases n - i,
    {
        if ids[i] == id {
            return true;
        }
        i = i + 1;
    }
    false
}

/// Once everything has been marked as seen, nothing is unread; a message of
/// the assistant that comes later is.
pub proof fn law_seen_clears_unread(marks: Seq<MessageMark>, later: MessageMark)
    requires
        later.from_assistant,
        match greatest_id(marks) {
            Some(latest) => later.id > latest,
            None => later.id > 0,
        },
    ensures
        ({
            let seen = match greatest_id(marks) {
                Some(latest) => latest,
                None => 0i64,
            };
            &&& unseen_ids(marks, seen) == Set::<i64>::empty()
            &&& unseen_ids(marks.push(later), seen) == Set::<i64>::empty().insert(later.id)
        }),
{
    let seen = match greatest_id(marks) {
        Some(latest) => latest,
        None => 0i64,
    };
    assert forall|id: i64| !unseen_ids(marks, seen).contains(id) by {
        if unseen_ids(marks, seen).contains(id) {
            let k = choose|k: int| 0 <= k < marks.len() && (#[trigger] marks[k]).id == id;
            lemma_greatest(marks, k);
        }
    }
    assert(unseen_ids(marks, seen) =~= Set::<i64>::empty());
    let more = marks.push(later);
    assert forall|id: i64| unseen_ids(more, seen).contains(id) == (id == later.id) by {
        if id == later.id {
            assert(more[marks.len() as int] == later);
        }
        if unseen_ids(more, seen).contains(id) {
            let k = choose|k: int|
                0 <= k < more.len() && (#[trigger] more[k]).id == id && more[k].from_assistant;
            if k < marks.len() {
                assert(marks[k] == more[k]);
                assert(unseen_ids(marks, seen).contains(id));
            }
        }
    }
    assert(unseen_ids(more, seen) =~= Set::<i64>::empty().insert(later.id));
}

proof fn lemma_greatest(marks: Seq<MessageMark>, k: int)
    requires
        0 <= k < marks.len(),
    ensures
        greatest_id(marks) is Some,
        marks[k].id <= greatest_id(marks)->0,
    decreases marks.len(),
{
    if k < marks.len() - 1 {
        lemma_greatest(marks.drop_last(), k);
    }
}

/// The bots with unread messages and how many.
pub open spec fn counts_shown(counts: Seq<(String, usize)>) -> Seq<(Seq<char>, usize)>
    decreases counts.len(),
{
    if counts.len() == 0 {
        seq![]
    } else {
        let rest = counts_shown(counts.drop_last());
        if counts.last().1 > 0 {
            rest.push((counts.last().0@, counts.last().1))
        } else {
            rest
        }
    }
}

/// The bots with unread messages and how many: those without are left out.
pub fn unread_by_bot(counts: &Vec<(String, usize)>) -> (r: Vec<(String, usize)>)
    ensures
        r@.map_values(|c: (String, usize)| (c.0@, c.1)) == counts_shown(counts@),
{
    let n: usize = counts.len();
    let mut out: Vec<(String, usize)> = Vec::new();
    let mut i: usize = 0;
    proof {
        assert(out@.map_values(|c: (String, usize)| (c.0@, c.1)) =~= counts_shown(
            counts@.take(0),
        ));
    }
    while i < n
        invariant
            n == counts@.len(),
            0 <= i <= n,
            out@.map_values(|c: (String, usize)| (c.0@, c.1)) == counts_shown(
                counts@.take(i as int),
            ),
        decreases n - i,
    {
        proof {
            assert(counts@.take(i + 1).drop_last() =~= counts@.take(i as int));
            assert(counts@.take(i + 1).last() == counts@[i as int]);
        }
        let count: usize = counts[i].1;
        if count > 0 {
            let name = counts[i].0.clone();
            let ghost before = out@;
            out.push((name, count));
            proof {
                assert(out@.map_values(|c: (String, usize)| (c.0@, c.1)) =~= before.map_values(
                    |c: (String, usize)| (c.0@, c.1),
                ).push((name@, count)));
            }
        }
        i = i + 1;
    }
    proof {
        assert(counts@.take(n as int) =~= counts@);
    }
    out
}

// ---------------------------------------------------------------------------
// Laws on what is shown and counted
// ---------------------------------------------------------------------------

/// Of a history that is longer than asked for the latest messages are shown:
/// none that is left out was written after one that is shown.
pub proof fn law_latest_messages_are_shown(scopes: Seq<Vec<MessageRow>>, limit: int)
    requires
        0 <= limit,
    ensures
        ({
            let all = sorted(each_once(all_rows(scopes)), row_before());
            let shown = history(scopes, limit);
            let left = all.len() - shown.len();
            &&& shown.len() == if all.len() <= limit {
                all.len() as int
            } else {
                limit
            }
            &&& forall|i: int| 0 <= i < shown.len() ==> #[trigger] shown[i] == all[left + i]
            &&& forall|i: int, k: int|
                0 <= i < left && 0 <= k < shown.len() ==> !text_less(
                    (#[trigger] shown[k]).created_at@,
                    (#[trigger] all[i]).created_at@,
                )
            &&& forall|i: int, k: int|
                0 <= i < k < shown.len() ==> !text_less(
                    (#[trigger] shown[k]).created_at@,
                    (#[trigger] shown[i]).created_at@,
                )
        }),
{
    law_history_is_ordered(scopes, limit);
    lemma_row_ranking();
    let rows = each_once(all_rows(scopes));
    law_sorted(rows, row_before());
    let all = sorted(rows, row_before());
    let shown = history(scopes, limit);
    let left = all.len() - shown.len();
    assert forall|i: int, k: int| 0 <= i < left && 0 <= k < shown.len() implies !text_less(
        (#[trigger] shown[k]).created_at@,
        (#[trigger] all[i]).created_at@,
    ) by {
        assert(shown[k] == all[left + k]);
        assert(!row_before()(all[left + k], all[i]));
    }
    assert forall|i: int, k: int| 0 <= i < k < shown.len() implies !text_less(
        (#[trigger] shown[k]).created_at@,
        (#[trigger] shown[i]).created_at@,
    ) by {
        assert(shown[k] == all[left + k]);
        assert(shown[i] == all[left + i]);
        assert(!row_before()(all[left + k], all[left + i]));
    }
}

/// The messages of all scopes are gathered, scope by scope.
pub proof fn law_no_scope_is_left_out(scopes: Seq<Vec<MessageRow>>, s: int, i: int)
    requires
        0 <= s < scopes.len(),
        0 <= i < scopes[s]@.len(),
    ensures
        all_rows(scopes).contains(scopes[s]@[i]),
    decreases scopes.len(),
{
    let front = scopes.drop_last();
    let all = all_rows(scopes);
    if s < front.len() {
        law_no_scope_is_left_out(front, s, i);
        assert(front[s] == scopes[s]);
        let x = scopes[s]@[i];
        let k = choose|k: int| 0 <= k < all_rows(front).len() && all_rows(front)[k] == x;
        assert(all[k] == x);
    } else {
        assert(all[all_rows(front).len() + i] == scopes[s]@[i]);
    }
}

/// The latest message is one that is there and that no other is later than.
pub proof fn law_latest_message_is_the_greatest(marks: Seq<MessageMark>)
    ensures
        match greatest_id(marks) {
            Some(best) => {
                &&& exists|i: int| 0 <= i < marks.len() && (#[trigger] marks[i]).id == best
                &&& forall|i: int| 0 <= i < marks.len() ==> (#[trigger] marks[i]).id <= best
            },
            None => marks.len() == 0,
        },
    decreases marks.len(),
{
    if marks.len() > 0 {
        let front = marks.drop_last();
        law_latest_message_is_the_greatest(front);
        let last = marks.len() - 1;
        assert(marks[last] == marks.last());
        if greatest_id(front) is Some {
            let i = choose|i: int|
                0 <= i < front.len() && (#[trigger] front[i]).id == greatest_id(front)->0;
            assert(marks[i] == front[i]);
        }
        assert forall|i: int| 0 <= i < marks.len() implies (#[trigger] marks[i]).id <= greatest_id(
            marks,
        )->0 by {
            if i < front.len() {
                assert(front[i] == marks[i]);
            }
        }
    }
}

/// A message counts as unread exactly where the assistant wrote it and it is
/// later than what was seen.
pub proof fn law_unread_is_what_came_later(marks: Seq<MessageMark>, seen_id: i64, i: int)
    requires
        0 <= i < marks.len(),
    ensures
        marks[i].from_assistant && marks[i].id > seen_id ==> unseen_ids(marks, seen_id).contains(
            marks[i].id,
        ),
        marks[i].id <= seen_id ==> !unseen_ids(marks, seen_id).contains(marks[i].id),
        (forall|j: int|
            0 <= j < marks.len() && (#[trigger] marks[j]).id == marks[i].id
                ==> !marks[j].from_assistant) ==> !unseen_ids(marks, seen_id).contains(marks[i].id),
{
}

/// A message of the history is shown as it was stored, under the workspace and
/// the bot that were asked for.
pub proof fn law_shown_message(
    view: ConversationMessageView,
    row: MessageRow,
    workspace: Seq<char>,
    bot: Seq<char>,
)
    requires
        shows_row(view, row, workspace, bot),
    ensures
        view.id == row.id,
        view.role@ == row.role@,
        view.content@ == row.content@,
        view.created_at@ == row.created_at@,
        view.workspace@ == workspace,
        view.bot@ == bot,
{
}

/// A count is shown exactly where it is not zero, under its name.
pub proof fn law_zero_counts_are_left_out(counts: Seq<(String, usize)>, k: int)
    ensures
        0 <= k < counts.len() && counts[k].1 > 0 ==> counts_shown(counts).contains(
            (counts[k].0@, counts[k].1),
        ),
        forall|i: int|
            0 <= i < counts_shown(counts).len() ==> (#[trigger] counts_shown(counts)[i]).1 > 0,
        counts_shown(counts).len() <= counts.len(),
    decreases counts.len(),
{
    if counts.len() > 0 {
        let front = counts.drop_last();
        let rest = counts_shown(front);
        let all = counts_shown(counts);
        law_zero_counts_are_left_out(front, k);
        if 0 <= k < counts.len() && counts[k].1 > 0 {
            let x = (counts[k].0@, counts[k].1);
            if k < front.len() {
                assert(front[k] == counts[k]);
                let i = choose|i: int| 0 <= i < rest.len() && rest[i] == x;
                assert(all[i] == x);
            } else {
                assert(all[rest.len() as int] == x);
            }
        }
    }
}

} // verus!
