//! Messages to the coordinator about signals.

use crate::text::{
    cat2, cat3, contains, ends_with, join, joined, lemma_replace_absent, occurs_at, replace, replaced,
    starts_with, texts,
};
use vstd::prelude::*;

verus! {

/// Each event on a line of its own, with a dash in front.
pub open spec fn bullet_lines(events: Seq<Seq<char>>) -> Seq<char>
    decreases events.len(),
{
    if events.len() == 0 {
        seq![]
    } else {
        bullet_lines(events.drop_last()) + ("- "@ + events.last() + "\n"@)
    }
}

/// Each event with a dash in front.
pub open spec fn bullets(events: Seq<Seq<char>>) -> Seq<Seq<char>> {
    events.map_values(|e: Seq<char>| "- "@ + e)
}

/// The message that tells the coordinator about events of a source.
pub open spec fn system_notification(source: Seq<char>, events: Seq<Seq<char>>) -> Seq<char> {
    "[System notification — "@ + source
        + " activity]\nThe following events just occurred:\n"@ + bullet_lines(events)
        + "\nIf any of these are relevant to your recent conversations, provide a brief contextual update. Otherwise respond with just \"ack\"."@
}

/// The message that a hook's template makes of events of a source: the source
/// and the events in place of their placeholders, or the system's own message
/// where nothing is left.
pub open spec fn hook_notification(
    source: Seq<char>,
    events: Seq<Seq<char>>,
    template: Seq<char>,
) -> Seq<char> {
    let filled = replace(
        replace(template, "{source}"@, source),
        "{events}"@,
        join(bullets(events), "\n"@),
    );
    if filled.len() == 0 {
        system_notification(source, events)
    } else {
        filled
    }
}

/// The message for a follow-through: the hook's own where it has a template.
pub open spec fn follow_through_message(
    source: Seq<char>,
    events: Seq<Seq<char>>,
    template: Option<Seq<char>>,
) -> Seq<char> {
    match template {
        Some(t) => hook_notification(source, events, t),
        None => system_notification(source, events),
    }
}

/// Formats signal events into a system notification for the coordinator.
pub fn format_system_notification(source: &str, events: &Vec<String>) -> (r: String)
    ensures
        r@ == system_notification(source@, texts(events@)),
{
    let mut msg = cat3(
        "[System notification — ",
        source,
        " activity]\nThe following events just occurred:\n",
    );
    let ghost head = msg@;
    let ghost all = texts(events@);
    let n: usize = events.len();
    let mut i: usize = 0;
    proof {
        assert(head + bullet_lines(all.take(0)) =~= head);
    }
    while i < n
        invariant
            n == events@.len(),
            0 <= i <= n,
            all == texts(events@),
            msg@ == head + bullet_lines(all.take(i as int)),
        decreases n - i,
    {
        let line = cat3("- ", events[i].as_str(), "\n");
        proof {
            assert(all.take(i + 1).drop_last() =~= all.take(i as int));
            assert(all.take(i + 1).last() == events@[i as int]@);
            assert(head + bullet_lines(all.take(i as int)) + line@ =~= head + (bullet_lines(
                all.take(i as int),
            ) + line@));
        }
        msg.push_str(line.as_str());
        i = i + 1;
    }
    proof {
        assert(all.take(n as int) =~= all);
    }
    msg.push_str(
        "\nIf any of these are relevant to your recent conversations, provide a brief contextual update. Otherwise respond with just \"ack\".",
    );
    msg
}

/// Formats a hook notification using a custom prompt template, with the
/// placeholders `{source}` and `{events}`.
pub fn format_hook_notification(source: &str, events: &Vec<String>, template: &str) -> (r: String)
    ensures
        r@ == hook_notification(source@, texts(events@), template@),
{
    let mut list: Vec<String> = Vec::new();
    let ghost all = texts(events@);
    let n: usize = events.len();
    let mut i: usize = 0;
    proof {
        assert(texts(list@) =~= bullets(all.take(0)));
    }
    while i < n
        invariant
            n == events@.len(),
            0 <= i <= n,
            all == texts(events@),
            texts(list@) == bullets(all.take(i as int)),
        decreases n - i,
    {
        let line = cat2("- ", events[i].as_str());
        proof {
            assert(bullets(all.take(i + 1)) =~= bullets(all.take(i as int)).push(line@));
            assert(texts(list@.push(line)) =~= texts(list@).push(line@));
        }
        list.push(line);
        i = i + 1;
    }
    proof {
        assert(all.take(n as int) =~= all);
        reveal_strlit("{source}");
        reveal_strlit("{events}");
    }
    let event_list = joined(&list, "\n");
    let with_source = replaced(template, "{source}", source);
    let result = replaced(with_source.as_str(), "{events}", event_list.as_str());
    if result.as_str().is_empty() {
        format_system_notification(source, events)
    } else {
        result
    }
}

/// The message for a follow-through: the hook's own where it has a template.
pub fn follow_through(source: &str, events: &Vec<String>, template: &Option<String>) -> (r: String)
    ensures
        r@ == follow_through_message(
            source@,
            texts(events@),
            crate::text::opt_text(*template),
        ),
{
    match template {
        Some(t) => format_hook_notification(source, events, t.as_str()),
        None => format_system_notification(source, events),
    }
}

// ---------------------------------------------------------------------------
// Laws
// ---------------------------------------------------------------------------

proof fn lemma_bullet_line(events: Seq<Seq<char>>, k: int)
    requires
        0 <= k < events.len(),
    ensures
        contains(bullet_lines(events), "- "@ + events[k] + "\n"@),
    decreases events.len(),
{
    let line = "- "@ + events[k] + "\n"@;
    let front = events.drop_last();
    let all = bullet_lines(events);
    if k < events.len() - 1 {
        lemma_bullet_line(front, k);
        assert(front[k] == events[k]);
        let i = choose|i: int| occurs_at(bullet_lines(front), line, i);
        assert(all.subrange(i, i + line.len()) =~= bullet_lines(front).subrange(
            i,
            i + line.len(),
        ));
        assert(occurs_at(all, line, i));
    } else {
        let i = bullet_lines(front).len() as int;
        assert(all.subrange(i, i + line.len()) =~= line);
        assert(occurs_at(all, line, i));
    }
}

/// The coordinator is told the source of the events and every one of them, and
/// that it may acknowledge them where they do not matter.
pub proof fn law_notification_tells_every_event(source: Seq<char>, events: Seq<Seq<char>>, k: int)
    requires
        0 <= k < events.len(),
    ensures
        starts_with(
            system_notification(source, events),
            "[System notification — "@ + source + " activity]\n"@,
        ),
        contains(system_notification(source, events), "- "@ + events[k] + "\n"@),
        ends_with(system_notification(source, events), "respond with just \"ack\"."@),
        follow_through_message(source, events, None) == system_notification(source, events),
{
    reveal_strlit("[System notification — ");
    reveal_strlit(" activity]\n");
    reveal_strlit(" activity]\nThe following events just occurred:\n");
    reveal_strlit("respond with just \"ack\".");
    reveal_strlit(
        "\nIf any of these are relevant to your recent conversations, provide a brief contextual update. Otherwise respond with just \"ack\".",
    );
    let line = "- "@ + events[k] + "\n"@;
    let all = system_notification(source, events);
    let head = "[System notification — "@ + source
        + " activity]\nThe following events just occurred:\n"@;
    let list = bullet_lines(events);
    lemma_bullet_line(events, k);
    let i = choose|i: int| occurs_at(list, line, i);
    assert(all.subrange(head.len() + i, head.len() + i + line.len()) =~= list.subrange(
        i,
        i + line.len(),
    ));
    assert(occurs_at(all, line, head.len() + i));
    let start = "[System notification — "@ + source + " activity]\n"@;
    assert(all.subrange(0, start.len() as int) =~= start);
    let end = "respond with just \"ack\"."@;
    assert(all.subrange(all.len() - end.len(), all.len() as int) =~= end);
}

/// A hook's own words are what the coordinator is told where they have no
/// placeholder in them.
pub proof fn law_plain_template_is_the_message(
    source: Seq<char>,
    events: Seq<Seq<char>>,
    template: Seq<char>,
)
    requires
        template.len() > 0,
        !contains(template, "{source}"@),
        !contains(template, "{events}"@),
    ensures
        follow_through_message(source, events, Some(template)) == template,
{
    lemma_replace_absent(template, "{source}"@, source);
    lemma_replace_absent(template, "{events}"@, join(bullets(events), "\n"@));
}

} // verus!
