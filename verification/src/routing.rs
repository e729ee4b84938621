//! Which workspace a message belongs to, and which listeners and connections
//! the workspaces need.

use crate::action::ChatTarget;
use crate::text::{same, texts};
use vstd::prelude::*;

verus! {

/// Whether the slot at `i` is the last of those whose chat is `key`.
pub open spec fn is_last_slot(slots: Seq<Option<ChatTarget>>, key: ChatTarget, i: int) -> bool {
    &&& 0 <= i < slots.len()
    &&& slots[i] == Some(key)
    &&& forall|j: int| i < j < slots.len() ==> slots[j] != Some(key)
}

/// Whether a slot's chat is `key`.
pub open spec fn has_slot(slots: Seq<Option<ChatTarget>>, key: ChatTarget) -> bool {
    exists|i: int| 0 <= i < slots.len() && slots[i] == Some(key)
}

/// The chat itself, without a topic.
pub open spec fn whole_chat(key: ChatTarget) -> ChatTarget {
    ChatTarget { chat_id: key.chat_id, topic_id: None }
}

/// The last slot whose chat is `key`. Each slot has the chat and the topic
/// that its workspace is configured with.
pub fn find_slot(slots: &Vec<Option<ChatTarget>>, key: ChatTarget) -> (r: Option<usize>)
    ensures
        r is Some <==> has_slot(slots@, key),
        r matches Some(i) ==> is_last_slot(slots@, key, i as int),
{
    let mut i: usize = slots.len();
    while i > 0
        invariant
            0 <= i <= slots@.len(),
            forall|j: int| i <= j < slots@.len() ==> slots@[j] != Some(key),
        decreases i,
    {
        i = i - 1;
        if let Some(target) = slots[i] {
            if target == key {
                return Some(i);
            }
        }
    }
    None
}

/// The slot that a message in a chat belongs to: the one configured with the
/// chat's topic, else the one configured with the chat as a whole.
pub fn route(slots: &Vec<Option<ChatTarget>>, key: ChatTarget) -> (r: Option<usize>)
    ensures
        has_slot(slots@, key) ==> (r matches Some(i) && is_last_slot(slots@, key, i as int)),
        !has_slot(slots@, key) && has_slot(slots@, whole_chat(key)) ==> (r matches Some(i)
            && is_last_slot(slots@, whole_chat(key), i as int)),
        !has_slot(slots@, key) && !has_slot(slots@, whole_chat(key)) ==> r is None,
{
    match find_slot(slots, key) {
        Some(i) => Some(i),
        None => find_slot(slots, ChatTarget { chat_id: key.chat_id, topic_id: None }),
    }
}

/// A message never reaches a workspace that is configured with another chat,
/// nor one that is configured with another topic of the same chat.
pub proof fn law_routes_stay_in_the_chat(slots: Seq<Option<ChatTarget>>, key: ChatTarget, i: int)
    requires
        is_last_slot(slots, key, i) || is_last_slot(slots, whole_chat(key), i),
    ensures
        slots[i] is Some,
        slots[i]->0.chat_id == key.chat_id,
        slots[i]->0.topic_id == key.topic_id || slots[i]->0.topic_id is None,
{
}

/// The last workspace of a name.
pub fn find_workspace(names: &Vec<String>, name: &str) -> (r: Option<usize>)
    ensures
        r is Some <==> texts(names@).contains(name@),
        r matches Some(i) ==> i < names@.len() && names@[i as int]@ == name@ && forall|j: int|
            i < j < names@.len() ==> (#[trigger] names@[j])@ != name@,
{
    let mut i: usize = names.len();
    while i > 0
        invariant
            0 <= i <= names@.len(),
            forall|j: int| i <= j < names@.len() ==> (#[trigger] names@[j])@ != name@,
        decreases i,
    {
        i = i - 1;
        if same(names[i].as_str(), name) {
            proof {
                assert(texts(names@)[i as int] == name@);
            }
            return Some(i);
        }
    }
    proof {
        if texts(names@).contains(name@) {
            let k = choose|k: int| 0 <= k < texts(names@).len() && texts(names@)[k] == name@;
            assert(names@[k]@ == name@);
        }
    }
    None
}

/// The port and the address that a workspace wants terminal clients to be
/// served at over TCP.
pub struct TcpConfig {
    pub port: Option<u16>,
    pub bind: Option<String>,
}

/// Where terminal clients are served over TCP: at the first port that a
/// workspace asks for, on the loopback interface unless it names another.
pub fn tcp_listener(configs: &Vec<TcpConfig>) -> (r: Option<(u16, String)>)
    ensures
        match r {
            Some((port, bind)) => exists|i: int|
                {
                    &&& 0 <= i < configs@.len()
                    &&& (#[trigger] configs@[i]).port == Some(port)
                    &&& bind@ == match configs@[i].bind {
                        Some(b) => b@,
                        None => "127.0.0.1"@,
                    }
                    &&& forall|j: int| 0 <= j < i ==> (#[trigger] configs@[j]).port is None
                },
            None => forall|i: int| 0 <= i < configs@.len() ==> (#[trigger] configs@[i]).port is None,
        },
{
    let n: usize = configs.len();
    let mut i: usize = 0;
    while i < n
        invariant
            n == configs@.len(),
            0 <= i <= n,
            forall|j: int| 0 <= j < i ==> (#[trigger] configs@[j]).port is None,
        decreases n - i,
    {
        if let Some(port) = configs[i].port {
            let bind = match &configs[i].bind {
                Some(b) => b.clone(),
                None => "127.0.0.1".to_owned(),
            };
            proof {
                assert(configs@[i as int].port == Some(port));
            }
            return Some((port, bind));
        }
        i = i + 1;
    }
    None
}

/// The least number of a list, or sixty where the list is empty.
pub open spec fn least_interval(intervals: Seq<u64>) -> u64
    decreases intervals.len(),
{
    if intervals.len() == 0 {
        60
    } else if intervals.len() == 1 {
        intervals[0]
    } else {
        let rest = least_interval(intervals.drop_last());
        if intervals.last() < rest {
            intervals.last()
        } else {
            rest
        }
    }
}

/// How many seconds lie between two polls: the shortest interval that a
/// workspace needs, or a minute.
pub fn poll_interval(intervals: &Vec<u64>) -> (r: u64)
    ensures
        r == least_interval(intervals@),
{
    let n: usize = intervals.len();
    if n == 0 {
        return 60;
    }
    let mut best: u64 = intervals[0];
    let mut i: usize = 1;
    proof {
        assert(intervals@.take(1)[0] == intervals@[0]);
    }
    while i < n
        invariant
            n == intervals@.len(),
            1 <= i <= n,
            best == least_interval(intervals@.take(i as int)),
        decreases n - i,
    {
        proof {
            assert(intervals@.take(i + 1).drop_last() =~= intervals@.take(i as int));
        }
        if intervals[i] < best {
            best = intervals[i];
        }
        i = i + 1;
    }
    proof {
        assert(intervals@.take(n as int) =~= intervals@);
    }
    best
}

/// Every workspace is polled at least as often as it needs.
pub proof fn law_interval_suits_all(intervals: Seq<u64>, i: int)
    requires
        0 <= i < intervals.len(),
    ensures
        least_interval(intervals) <= intervals[i],
    decreases intervals.len(),
{
    if intervals.len() > 1 && i < intervals.len() - 1 {
        law_interval_suits_all(intervals.drop_last(), i);
    }
}

/// The texts of a list without those that occur earlier in it.
pub open spec fn first_occurrences(list: Seq<Seq<char>>) -> Seq<Seq<char>>
    decreases list.len(),
{
    if list.len() == 0 {
        seq![]
    } else {
        let rest = first_occurrences(list.drop_last());
        if rest.contains(list.last()) {
            rest
        } else {
            rest.push(list.last())
        }
    }
}

/// The tokens of the bots to connect to: each of them once.
pub fn bot_tokens(tokens: &Vec<String>) -> (r: Vec<String>)
    ensures
        texts(r@) == first_occurrences(texts(tokens@)),
{
    let mut out: Vec<String> = Vec::new();
    let ghost all = texts(tokens@);
    let n: usize = tokens.len();
    let mut i: usize = 0;
    proof {
        assert(texts(out@) =~= first_occurrences(all.take(0)));
    }
    while i < n
        invariant
            n == tokens@.len(),
            0 <= i <= n,
            all == texts(tokens@),
            texts(out@) == first_occurrences(all.take(i as int)),
        decreases n - i,
    {
        let found = find_workspace(&out, tokens[i].as_str());
        proof {
            assert(all.take(i + 1).drop_last() =~= all.take(i as int));
            assert(all.take(i + 1).last() == tokens@[i as int]@);
        }
        if found.is_none() {
            let one = tokens[i].clone();
            proof {
                assert(texts(out@.push(one)) =~= texts(out@).push(one@));
            }
            out.push(one);
        }
        i = i + 1;
    }
    proof {
        assert(all.take(n as int) =~= all);
    }
    out
}

/// Every token is connected to, and none twice.
pub proof fn law_first_occurrences(list: Seq<Seq<char>>)
    ensures
        first_occurrences(list).no_duplicates(),
        forall|i: int| 0 <= i < list.len() ==> first_occurrences(list).contains(#[trigger] list[i]),
        forall|i: int|
            0 <= i < first_occurrences(list).len() ==> list.contains(
                #[trigger] first_occurrences(list)[i],
            ),
    decreases list.len(),
{
    if list.len() > 0 {
        let front = list.drop_last();
        law_first_occurrences(front);
        let rest = first_occurrences(front);
        let new = first_occurrences(list);
        assert forall|i: int| 0 <= i < list.len() implies new.contains(#[trigger] list[i]) by {
            if i < front.len() {
                assert(front[i] == list[i]);
                assert(rest.contains(front[i]));
                let k = choose|k: int| 0 <= k < rest.len() && rest[k] == list[i];
                assert(new[k] == list[i]);
            } else if !rest.contains(list.last()) {
                assert(new[rest.len() as int] == list[i]);
            }
        }
        assert forall|i: int| 0 <= i < new.len() implies list.contains(#[trigger] new[i]) by {
            if i < rest.len() {
                assert(front.contains(rest[i]));
                let k = choose|k: int| 0 <= k < front.len() && front[k] == rest[i];
                assert(list[k] == new[i]);
            } else {
                assert(list[list.len() - 1] == new[i]);
            }
        }
    }
}

/// The daemon polls as often as the most frequent workspace asks for, and every
/// minute where none asks.
pub proof fn law_interval_is_asked_for(intervals: Seq<u64>)
    ensures
        intervals.len() == 0 ==> least_interval(intervals) == 60,
        intervals.len() > 0 ==> intervals.contains(least_interval(intervals)),
    decreases intervals.len(),
{
    if intervals.len() == 1 {
        assert(intervals[0] == least_interval(intervals));
    } else if intervals.len() > 1 {
        let front = intervals.drop_last();
        law_interval_is_asked_for(front);
        let i = choose|i: int| 0 <= i < front.len() && front[i] == least_interval(front);
        assert(intervals[i] == front[i]);
        assert(intervals[intervals.len() - 1] == intervals.last());
    }
}

/// Dropping what occurred before keeps the order: what is kept of a start of the
/// list is a start of what is kept of the list.
pub proof fn law_first_occurrences_keep_the_order(list: Seq<Seq<char>>, k: int)
    requires
        0 <= k <= list.len(),
    ensures
        first_occurrences(list.take(k)).len() <= first_occurrences(list).len(),
        first_occurrences(list.take(k)) == first_occurrences(list).take(
            first_occurrences(list.take(k)).len() as int,
        ),
    decreases list.len(),
{
    if k == list.len() {
        assert(list.take(k) =~= list);
        assert(first_occurrences(list).take(first_occurrences(list).len() as int)
            =~= first_occurrences(list));
    } else {
        let front = list.drop_last();
        law_first_occurrences_keep_the_order(front, k);
        assert(front.take(k) =~= list.take(k));
        let n = first_occurrences(list.take(k)).len() as int;
        assert(first_occurrences(list).take(n) =~= first_occurrences(front).take(n));
    }
}

} // verus!
