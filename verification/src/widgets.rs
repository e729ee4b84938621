//! Widgets of the dashboard, and sessions of the context bot as they are kept.

use crate::json::{
    compact, field, lemma_set_keeps_others, lemma_set_then_get, object, parse, parsed, render,
    set_field, stored, text, trees, Json, Tree,
};
use vstd::prelude::*;

verus! {

/// A stored widget: its slot, its value as text, and when it was updated.
pub struct WidgetRow {
    pub slot: String,
    pub value: String,
    pub updated_at: String,
}

/// A value as an object: nothing becomes one without members.
pub open spec fn as_object(value: Tree) -> Tree {
    match value {
        Tree::Null => Tree::Object(seq![]),
        other => other,
    }
}

/// A widget with its slot in it.
pub open spec fn slotted(value: Tree, slot: Seq<char>) -> Tree {
    set_field(as_object(value), "slot"@, Tree::Text(slot))
}

/// Whether a value can be a widget: it is an object, or nothing.
pub open spec fn is_widget(value: Tree) -> bool {
    value is Object || value is Null
}

/// A widget with its slot in it.
pub fn with_slot(value: Json, slot: &str) -> (r: Json)
    requires
        is_widget(value.tree()),
    ensures
        r.tree() == slotted(value.tree(), slot@),
{
    let base = match value {
        Json::Null => object(),
        other => other,
    };
    base.set("slot", text(slot))
}

/// A widget as the dashboard shows it.
pub open spec fn shown_widget(value: Tree, slot: Seq<char>, updated_at: Seq<char>) -> Tree {
    set_field(slotted(value, slot), "updated_at"@, Tree::Text(updated_at))
}

/// The widgets that are shown: those whose values are JSON.
pub open spec fn widgets_shown(rows: Seq<WidgetRow>) -> Seq<Tree>
    decreases rows.len(),
{
    if rows.len() == 0 {
        seq![]
    } else {
        let row = rows.last();
        let rest = widgets_shown(rows.drop_last());
        match parsed(row.value@) {
            Some(v) => rest.push(shown_widget(v, row.slot@, row.updated_at@)),
            None => rest,
        }
    }
}

/// Whether all values that are JSON can be widgets.
pub open spec fn all_widgets(rows: Seq<WidgetRow>) -> bool {
    forall|i: int|
        0 <= i < rows.len() && parsed((#[trigger] rows[i]).value@) is Some ==> is_widget(
            parsed(rows[i].value@)->0,
        )
}

/// The widgets of a dashboard. Nothing where one of them is a value that no
/// widget can be.
pub fn list_widgets(rows: &Vec<WidgetRow>) -> (r: Option<Vec<Json>>)
    ensures
        r is Some <==> all_widgets(rows@),
        r matches Some(list) ==> trees(list@) == widgets_shown(rows@),
{
    let n: usize = rows.len();
    let mut out: Vec<Json> = Vec::new();
    let mut i: usize = 0;
    proof {
        assert(trees(out@) =~= widgets_shown(rows@.take(0)));
    }
    while i < n
        invariant
            n == rows@.len(),
            0 <= i <= n,
            trees(out@) == widgets_shown(rows@.take(i as int)),
            forall|j: int|
                0 <= j < i && parsed((#[trigger] rows@[j]).value@) is Some ==> is_widget(
                    parsed(rows@[j].value@)->0,
                ),
        decreases n - i,
    {
        let row = &rows[i];
        proof {
            assert(rows@.take(i + 1).drop_last() =~= rows@.take(i as int));
            assert(rows@.take(i + 1).last() == *row);
        }
        if let Some(value) = parse(row.value.as_str()) {
            let fits = match &value {
                Json::Object(_) => true,
                Json::Null => true,
                _ => false,
            };
            if !fits {
                return None;
            }
            let shown = with_slot(value, row.slot.as_str()).set(
                "updated_at",
                text(row.updated_at.as_str()),
            );
            proof {
                assert(trees(out@.push(shown)) =~= trees(out@).push(shown.tree()));
            }
            out.push(shown);
        }
        i = i + 1;
    }
    proof {
        assert(rows@.take(n as int) =~= rows@);
    }
    Some(out)
}

/// The text that a widget is stored as.
pub fn widget_text(value: Json, slot: &str) -> (r: String)
    requires
        is_widget(value.tree()),
    ensures
        r@ == compact(stored(slotted(value.tree(), slot@))),
{
    render(&with_slot(value, slot))
}

/// The messages of a session as they are read: no messages where what is
/// stored is not JSON.
pub fn session_messages(raw: &str) -> (r: Json)
    ensures
        r.tree() == match parsed(raw@) {
            Some(v) => v,
            None => Tree::Array(seq![]),
        },
{
    match parse(raw) {
        Some(v) => v,
        None => crate::json::array(),
    }
}

/// A widget is shown under its slot and with the time of its last change, and
/// every other field is the one that was stored.
pub proof fn law_widget_keeps_its_fields(
    value: Tree,
    slot: Seq<char>,
    updated_at: Seq<char>,
    key: Seq<char>,
)
    requires
        is_widget(value),
    ensures
        field(slotted(value, slot), "slot"@) == Some(Tree::Text(slot)),
        field(shown_widget(value, slot, updated_at), "slot"@) == Some(Tree::Text(slot)),
        field(shown_widget(value, slot, updated_at), "updated_at"@) == Some(
            Tree::Text(updated_at),
        ),
        key != "slot"@ ==> field(slotted(value, slot), key) == field(value, key),
        key != "slot"@ && key != "updated_at"@ ==> field(
            shown_widget(value, slot, updated_at),
            key,
        ) == field(value, key),
{
    reveal_strlit("slot");
    reveal_strlit("updated_at");
    assert("slot"@[0] == 's' && "updated_at"@[0] == 'u');
    let o = as_object(value);
    let a = slotted(value, slot);
    lemma_set_then_get(o, "slot"@, Tree::Text(slot));
    lemma_set_then_get(a, "updated_at"@, Tree::Text(updated_at));
    lemma_set_keeps_others(a, "updated_at"@, Tree::Text(updated_at), "slot"@);
    if key != "slot"@ {
        lemma_set_keeps_others(o, "slot"@, Tree::Text(slot), key);
    }
    if key != "updated_at"@ {
        lemma_set_keeps_others(a, "updated_at"@, Tree::Text(updated_at), key);
    }
}

/// Every widget whose text can be read is shown, in order, and no other is.
pub proof fn law_readable_widgets_are_shown(rows: Seq<WidgetRow>, k: int)
    ensures
        0 <= k < rows.len() && parsed(rows[k].value@) is Some ==> widgets_shown(rows).contains(
            shown_widget(parsed(rows[k].value@)->0, rows[k].slot@, rows[k].updated_at@),
        ),
        widgets_shown(rows).len() <= rows.len(),
        (forall|i: int| 0 <= i < rows.len() ==> parsed((#[trigger] rows[i]).value@) is None)
            ==> widgets_shown(rows).len() == 0,
        (forall|i: int| 0 <= i < rows.len() ==> parsed((#[trigger] rows[i]).value@) is Some)
            ==> widgets_shown(rows).len() == rows.len() && (0 <= k < rows.len() ==> widgets_shown(
            rows,
        )[k] == shown_widget(parsed(rows[k].value@)->0, rows[k].slot@, rows[k].updated_at@)),
    decreases rows.len(),
{
    if rows.len() > 0 {
        let front = rows.drop_last();
        let rest = widgets_shown(front);
        let all = widgets_shown(rows);
        law_readable_widgets_are_shown(front, k);
        assert forall|i: int| 0 <= i < front.len() implies #[trigger] front[i] == rows[i] by {}
        if 0 <= k < rows.len() && parsed(rows[k].value@) is Some {
            let x = shown_widget(parsed(rows[k].value@)->0, rows[k].slot@, rows[k].updated_at@);
            if k < front.len() {
                let i = choose|i: int| 0 <= i < rest.len() && rest[i] == x;
                assert(all[i] == x);
            } else {
                assert(all[rest.len() as int] == x);
            }
        }
        if forall|i: int| 0 <= i < rows.len() ==> parsed((#[trigger] rows[i]).value@) is None {
            assert forall|i: int| 0 <= i < front.len() implies parsed(
                (#[trigger] front[i]).value@,
            ) is None by {
                assert(front[i] == rows[i]);
            }
            assert(parsed(rows[rows.len() - 1].value@) is None);
        }
        if forall|i: int| 0 <= i < rows.len() ==> parsed((#[trigger] rows[i]).value@) is Some {
            assert forall|i: int| 0 <= i < front.len() implies parsed(
                (#[trigger] front[i]).value@,
            ) is Some by {
                assert(front[i] == rows[i]);
            }
            assert(parsed(rows[rows.len() - 1].value@) is Some);
        }
    }
}

} // verus!
