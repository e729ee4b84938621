//! JSON values as the rest of the crate reads them. Parsing and printing are
//! `serde_json`'s; everything that looks inside a value is here.

use crate::text::{opt_text, same, text_less};
use vstd::prelude::*;
use vstd::utf8::{decode_utf8, valid_utf8};

verus! {

/// A JSON value.
pub enum Json {
    Null,
    Bool(bool),
    /// A number without a fraction.
    Number(i128),
    /// A number with a fraction or an exponent, as `serde_json` read it.
    Decimal(serde_json::Number),
    Text(String),
    Array(Vec<Json>),
    /// The members of an object with their names.
    Object(Vec<(String, Json)>),
}

/// What a JSON value is: the value without its storage. A number with a
/// fraction is there in `serde_json`'s notation.
pub enum Tree {
    Null,
    Bool(bool),
    Number(int),
    Decimal(Seq<char>),
    Text(Seq<char>),
    Array(Seq<Tree>),
    Object(Seq<(Seq<char>, Tree)>),
}

impl Json {
    /// The tree of a value.
    pub open spec fn tree(self) -> Tree
        decreases self,
    {
        match self {
            Json::Null => Tree::Null,
            Json::Bool(b) => Tree::Bool(b),
            Json::Number(n) => Tree::Number(n as int),
            Json::Decimal(n) => Tree::Decimal(notation(n)),
            Json::Text(s) => Tree::Text(s@),
            Json::Array(items) => Tree::Array(
                Seq::new(
                    items@.len(),
                    |i: int|
                        if 0 <= i < items@.len() {
                            items@[i].tree()
                        } else {
                            Tree::Null
                        },
                ),
            ),
            Json::Object(members) => Tree::Object(
                Seq::new(
                    members@.len(),
                    |i: int|
                        if 0 <= i < members@.len() {
                            (members@[i].0@, members@[i].1.tree())
                        } else {
                            (Seq::empty(), Tree::Null)
                        },
                ),
            ),
        }
    }
}

/// The position of the first member called `key`, or the number of members
/// where there is none.
pub open spec fn member_at(members: Seq<(Seq<char>, Tree)>, key: Seq<char>) -> int
    decreases members.len(),
{
    if members.len() == 0 || members[0].0 == key {
        0
    } else {
        1 + member_at(members.drop_first(), key)
    }
}

/// The member of an object called `key`.
pub open spec fn field(t: Tree, key: Seq<char>) -> Option<Tree> {
    match t {
        Tree::Object(members) => {
            let k = member_at(members, key);
            if 0 <= k < members.len() {
                Some(members[k].1)
            } else {
                None
            }
        },
        _ => None,
    }
}

/// The characters of a text.
pub open spec fn text_of(t: Tree) -> Option<Seq<char>> {
    match t {
        Tree::Text(s) => Some(s),
        _ => None,
    }
}

/// The text under `key` in an object.
pub open spec fn text_field(t: Tree, key: Seq<char>) -> Option<Seq<char>> {
    match field(t, key) {
        Some(v) => text_of(v),
        None => None,
    }
}

/// The truth value under `key` in an object.
pub open spec fn bool_field(t: Tree, key: Seq<char>) -> Option<bool> {
    match field(t, key) {
        Some(Tree::Bool(b)) => Some(b),
        _ => None,
    }
}

/// The items under `key` in an object.
pub open spec fn array_field(t: Tree, key: Seq<char>) -> Option<Seq<Tree>> {
    match field(t, key) {
        Some(Tree::Array(items)) => Some(items),
        _ => None,
    }
}

/// The members of an object with the member `key` set to `value`: in its old
/// place, or at the end where there was none.
pub open spec fn with_member(
    members: Seq<(Seq<char>, Tree)>,
    key: Seq<char>,
    value: Tree,
) -> Seq<(Seq<char>, Tree)> {
    let k = member_at(members, key);
    if 0 <= k < members.len() {
        members.update(k, (key, value))
    } else {
        members.push((key, value))
    }
}

/// An object with the member `key` set to `value`.
pub open spec fn set_field(t: Tree, key: Seq<char>, value: Tree) -> Tree {
    match t {
        Tree::Object(members) => Tree::Object(with_member(members, key, value)),
        _ => t,
    }
}

/// The trees of a list of values.
pub open spec fn trees(list: Seq<Json>) -> Seq<Tree> {
    Seq::new(list.len(), |i: int| list[i].tree())
}

/// The names and trees of a list of members.
pub open spec fn member_trees(list: Seq<(String, Json)>) -> Seq<(Seq<char>, Tree)> {
    Seq::new(list.len(), |i: int| (list[i].0@, list[i].1.tree()))
}

/// The tree of an optional value.
pub open spec fn opt_tree(value: Option<Json>) -> Option<Tree> {
    match value {
        Some(v) => Some(v.tree()),
        None => None,
    }
}

/// The tree of an array is the trees of its items.
pub proof fn lemma_array_tree(items: Vec<Json>)
    ensures
        Json::Array(items).tree() == Tree::Array(trees(items@)),
{
    let got = Json::Array(items).tree()->Array_0;
    assert(got =~= trees(items@));
}

/// The tree of an object is the names and trees of its members.
pub proof fn lemma_object_tree(members: Vec<(String, Json)>)
    ensures
        Json::Object(members).tree() == Tree::Object(member_trees(members@)),
{
    let got = Json::Object(members).tree()->Object_0;
    assert(got =~= member_trees(members@));
}

/// `member_at` is the first position of the name.
pub proof fn lemma_member_at(members: Seq<(Seq<char>, Tree)>, key: Seq<char>)
    ensures
        0 <= member_at(members, key) <= members.len(),
        forall|i: int| 0 <= i < member_at(members, key) ==> members[i].0 != key,
        member_at(members, key) < members.len() ==> members[member_at(members, key)].0 == key,
    decreases members.len(),
{
    if members.len() > 0 && members[0].0 != key {
        let t = members.drop_first();
        lemma_member_at(t, key);
        assert forall|i: int| 0 <= i < member_at(members, key) implies members[i].0 != key by {
            if i > 0 {
                assert(members[i] == t[i - 1]);
            }
        }
        if member_at(members, key) < members.len() {
            assert(members[member_at(members, key)] == t[member_at(t, key)]);
        }
    }
}

/// Setting a member of an object makes it the member of that name.
pub proof fn lemma_set_then_get(t: Tree, key: Seq<char>, value: Tree)
    requires
        t is Object,
    ensures
        field(set_field(t, key, value), key) == Some(value),
{
    let members = t->Object_0;
    lemma_member_at(members, key);
    lemma_member_at(with_member(members, key, value), key);
    let k = member_at(members, key);
    let new = with_member(members, key, value);
    let n = member_at(new, key);
    assert(new[k].0 == key);
    if n < k {
        assert(new[n] == members[n]);
    }
}

/// Setting a member of an object leaves the members of other names alone.
pub proof fn lemma_set_keeps_others(t: Tree, key: Seq<char>, value: Tree, other: Seq<char>)
    requires
        other != key,
    ensures
        field(set_field(t, key, value), other) == field(t, other),
{
    if t is Object {
        let members = t->Object_0;
        let new = with_member(members, key, value);
        lemma_member_at(members, key);
        lemma_member_at(members, other);
        lemma_member_at(new, other);
        let o = member_at(members, other);
        let n = member_at(new, other);
        if n < o && n < members.len() {
            assert(new[n].0 == other);
            assert(members[n].0 != other);
            assert(n == member_at(members, key));
        }
        if o < n {
            assert(new[o].0 != other);
            if o < members.len() {
                assert(members[o].0 == other);
            }
        }
    }
}

// ---------------------------------------------------------------------------
// Printing and reading back
// ---------------------------------------------------------------------------

/// How deep arrays and objects may lie inside one another for `serde_json` to
/// read them.
pub const NESTING: u32 = 127;

/// The name that marks an object as text to be read once more, for
/// `serde_json` with its feature `raw_value`: where it is the first name of an
/// object, the object is read as the value that the text under it spells.
pub const RAW_TOKEN: &'static str = "$serde_json::private::RawValue";

/// Whether `RAW_TOKEN` is the first name of an object once `serde_json::Map`
/// has put the names in order.
pub open spec fn is_marked(members: Seq<(Seq<char>, Tree)>) -> bool {
    &&& exists|i: int| 0 <= i < members.len() && (#[trigger] members[i]).0 == RAW_TOKEN@
    &&& forall|j: int|
        0 <= j < members.len() ==> !text_less((#[trigger] members[j]).0, RAW_TOKEN@)
}

/// Whether reading the text of a value gives the value back: its numbers have
/// no fraction and 64 bits, no object has two members of one name, in none
/// `RAW_TOKEN` is the first name, and arrays and objects lie at most `room`
/// deep inside one another.
pub open spec fn readable(t: Tree, room: nat) -> bool
    decreases room,
{
    match t {
        Tree::Number(n) => i64::MIN <= n <= u64::MAX,
        Tree::Decimal(s) => false,
        Tree::Array(items) => room > 0 && forall|i: int|
            0 <= i < items.len() ==> readable(#[trigger] items[i], (room - 1) as nat),
        Tree::Object(members) => {
            &&& room > 0
            &&& forall|i: int, j: int|
                0 <= i < j < members.len() ==> (#[trigger] members[i]).0 != (
                #[trigger] members[j]).0
            &&& !is_marked(members)
            &&& forall|i: int|
                0 <= i < members.len() ==> readable((#[trigger] members[i]).1, (room - 1) as nat)
        },
        _ => true,
    }
}

/// Whether two values are the same but for the order of the members of
/// objects, at most `room` deep.
pub open spec fn alike(a: Tree, b: Tree, room: nat) -> bool
    decreases room,
{
    match (a, b) {
        (Tree::Array(x), Tree::Array(y)) => {
            &&& room > 0
            &&& x.len() == y.len()
            &&& forall|i: int|
                0 <= i < x.len() ==> alike(#[trigger] x[i], y[i], (room - 1) as nat)
        },
        (Tree::Object(x), Tree::Object(y)) => room > 0 && forall|key: Seq<char>|
            match (#[trigger] field(a, key), field(b, key)) {
                (Some(v), Some(w)) => alike(v, w, (room - 1) as nat),
                (None, None) => true,
                _ => false,
            },
        _ => a == b,
    }
}

/// Whether a text is read back as the value, where that can be expected.
pub open spec fn reads_back(text: Seq<char>, t: Tree) -> bool {
    readable(t, NESTING as nat) ==> {
        &&& parsed(text) is Some
        &&& readable(parsed(text)->0, NESTING as nat)
        &&& alike(parsed(text)->0, t, NESTING as nat)
    }
}

/// Names of another length than `RAW_TOKEN` are other names.
pub proof fn lemma_raw_token()
    ensures
        RAW_TOKEN@.len() == 30,
{
    reveal_strlit("$serde_json::private::RawValue");
}

/// Setting a member of an object to a value that can be read back leaves an
/// object that can be read back.
pub proof fn lemma_set_stays_readable(t: Tree, key: Seq<char>, value: Tree, room: nat)
    requires
        t is Object,
        room > 0,
        key != RAW_TOKEN@,
        readable(t, room),
        readable(value, (room - 1) as nat),
    ensures
        readable(set_field(t, key, value), room),
{
    let members = t->Object_0;
    let new = with_member(members, key, value);
    lemma_member_at(members, key);
    assert forall|i: int, j: int| 0 <= i < j < new.len() implies (#[trigger] new[i]).0 != (
    #[trigger] new[j]).0 by {
        if j < members.len() {
            assert(members[i].0 != members[j].0);
        }
    }
    if is_marked(new) {
        let i = choose|i: int| 0 <= i < new.len() && (#[trigger] new[i]).0 == RAW_TOKEN@;
        assert(members[i].0 == RAW_TOKEN@);
        let j = choose|j: int|
            0 <= j < members.len() && text_less((#[trigger] members[j]).0, RAW_TOKEN@);
        assert(new[j].0 == members[j].0);
        assert(false);
    }
    assert forall|i: int| 0 <= i < new.len() implies readable(
        (#[trigger] new[i]).1,
        (room - 1) as nat,
    ) by {
        if new[i].1 != value {
            assert(new[i] == members[i]);
        }
    }
}

/// Values that are alike have the same texts under their names.
pub proof fn lemma_alike_texts(a: Tree, b: Tree, key: Seq<char>, room: nat)
    requires
        alike(a, b, room),
    ensures
        text_field(a, key) == text_field(b, key),
{
    if a is Object && b is Object {
        assert(match (field(a, key), field(b, key)) {
            (Some(v), Some(w)) => alike(v, w, (room - 1) as nat),
            (None, None) => true,
            _ => false,
        });
    }
}

/// Values that are alike have lists of values that are alike under their
/// names.
pub proof fn lemma_alike_items(a: Tree, b: Tree, key: Seq<char>, room: nat)
    requires
        alike(a, b, room),
        array_field(b, key) is Some,
    ensures
        room >= 2,
        array_field(a, key) is Some,
        array_field(a, key)->0.len() == array_field(b, key)->0.len(),
        forall|i: int|
            0 <= i < array_field(b, key)->0.len() ==> alike(
                #[trigger] array_field(a, key)->0[i],
                array_field(b, key)->0[i],
                (room - 2) as nat,
            ),
{
    assert(match (field(a, key), field(b, key)) {
        (Some(v), Some(w)) => alike(v, w, (room - 1) as nat),
        (None, None) => true,
        _ => false,
    });
    let v = field(a, key)->0;
    let w = field(b, key)->0;
    assert(alike(v, w, (room - 1) as nat));
}

// ---------------------------------------------------------------------------
// serde_json
// ---------------------------------------------------------------------------

/// `serde_json::Value`.
#[verifier::external_type_specification]
#[verifier::external_body]
pub struct ExValue(serde_json::Value);

/// What a `serde_json::Value` holds.
pub uninterp spec fn held(value: serde_json::Value) -> Tree;

/// `serde_json::Number`.
#[verifier::external_type_specification]
#[verifier::external_body]
pub struct ExNumber(serde_json::Number);

/// The text that `serde_json` writes for a number.
pub uninterp spec fn notation(number: serde_json::Number) -> Seq<char>;

/// `serde_json::Number::clone`: the same number, so written alike.
#[verifier::external_body]
fn copy_number(number: &serde_json::Number) -> (r: serde_json::Number)
    ensures
        notation(r) == notation(*number),
{
    number.clone()
}

/// What `serde_json::from_str` makes of a text: a value, or what is wrong with
/// the text.
pub uninterp spec fn read(text: Seq<char>) -> Result<Tree, Seq<char>>;

/// What `serde_json::from_slice` makes of bytes: a value, or what is wrong
/// with the bytes.
pub uninterp spec fn read_slice(bytes: Seq<u8>) -> Result<Tree, Seq<char>>;

/// The value that a text spells: nothing where it is not JSON.
pub open spec fn parsed(text: Seq<char>) -> Option<Tree> {
    match read(text) {
        Ok(t) => Some(t),
        Err(e) => None,
    }
}

/// What a `serde_json::Value` built from a tree holds: the tree with the
/// members of each object in the order that `serde_json::Map` gives them.
pub uninterp spec fn stored(tree: Tree) -> Tree;

/// The text that `serde_json::to_string` writes for what a value holds.
pub uninterp spec fn compact(tree: Tree) -> Seq<char>;

/// The indented text that `serde_json::to_string_pretty` writes for what a
/// value holds.
pub uninterp spec fn pretty(tree: Tree) -> Seq<char>;

/// `serde_json::from_str::<serde_json::Value>`: what it returns is a function
/// of the text alone. Of the error its text is kept.
#[verifier::external_body]
fn parse_value(text: &str) -> (r: Result<serde_json::Value, String>)
    ensures
        match r {
            Ok(value) => read(text@) == Ok::<Tree, Seq<char>>(held(value)),
            Err(e) => read(text@) == Err::<Tree, Seq<char>>(e@),
        },
{
    serde_json::from_str::<serde_json::Value>(text).map_err(|e| e.to_string())
}

/// `serde_json::from_slice::<serde_json::Value>`: what it returns is a
/// function of the bytes alone. Of bytes that encode a text it reads what
/// `serde_json::from_str` reads of the text.
#[verifier::external_body]
fn parse_bytes(bytes: &Vec<u8>) -> (r: Result<serde_json::Value, String>)
    ensures
        match r {
            Ok(value) => {
                &&& read_slice(bytes@) == Ok::<Tree, Seq<char>>(held(value))
                &&& valid_utf8(bytes@) ==> parsed(decode_utf8(bytes@)) == Some(held(value))
            },
            Err(e) => {
                &&& read_slice(bytes@) == Err::<Tree, Seq<char>>(e@)
                &&& valid_utf8(bytes@) ==> parsed(decode_utf8(bytes@)) is None
            },
        },
{
    serde_json::from_slice::<serde_json::Value>(bytes).map_err(|e| e.to_string())
}

/// Reads a `serde_json::Value` variant by variant, down to its leaves: the
/// result has the tree that the value holds.
#[verifier::external_body]
fn from_value(value: serde_json::Value) -> (r: Json)
    ensures
        r.tree() == held(value),
{
    match value {
        serde_json::Value::Null => Json::Null,
        serde_json::Value::Bool(b) => Json::Bool(b),
        serde_json::Value::Number(n) => match n.as_i128() {
            Some(whole) => Json::Number(whole),
            None => Json::Decimal(n),
        },
        serde_json::Value::String(s) => Json::Text(s),
        serde_json::Value::Array(items) => Json::Array(items.into_iter().map(from_value).collect()),
        serde_json::Value::Object(m) => Json::Object(
            m.into_iter().map(|(k, v)| (k, from_value(v))).collect(),
        ),
    }
}

/// Builds the `serde_json::Value` of a value: `serde_json::Map` decides in
/// which order the members of an object stand, that of their names, and keeps
/// one of each name.
/// Whole numbers of more than 64 bits become null; the rest stays the same.
#[verifier::external_body]
fn to_value(json: &Json) -> (r: serde_json::Value)
    ensures
        held(r) == stored(json.tree()),
        readable(json.tree(), NESTING as nat) ==> {
            &&& readable(held(r), NESTING as nat)
            &&& alike(held(r), json.tree(), NESTING as nat)
        },
{
    match json {
        Json::Null => serde_json::Value::Null,
        Json::Bool(b) => serde_json::Value::Bool(*b),
        Json::Number(n) => serde_json::to_value(n).unwrap_or_default(),
        Json::Decimal(n) => serde_json::Value::Number(n.clone()),
        Json::Text(s) => serde_json::Value::String(s.clone()),
        Json::Array(items) => serde_json::Value::Array(items.iter().map(to_value).collect()),
        Json::Object(m) => serde_json::Value::Object(
            m.iter().map(|(k, v)| (k.clone(), to_value(v))).collect(),
        ),
    }
}

/// `serde_json::Value`'s `Display`, which writes what `serde_json::to_string`
/// writes: a function of what the value holds. `serde_json::from_str` reads it
/// back, unless it lies too deep, has an object that starts with `RAW_TOKEN`,
/// or holds a number with a fraction, which is read with a rounding of its own.
#[verifier::external_body]
fn value_text(value: &serde_json::Value) -> (r: String)
    ensures
        r@ == compact(held(*value)),
        readable(held(*value), NESTING as nat) ==> parsed(r@) == Some(held(*value)),
{
    value.to_string()
}

/// `serde_json::Value`'s alternate `Display`, which writes what
/// `serde_json::to_string_pretty` writes: a function of what the value holds.
#[verifier::external_body]
fn value_pretty(value: &serde_json::Value) -> (r: String)
    ensures
        r@ == pretty(held(*value)),
{
    format!("{value:#}")
}

/// The value that a text spells, where it is JSON.
pub fn parse(text: &str) -> (r: Option<Json>)
    ensures
        opt_tree(r) == parsed(text@),
{
    match parse_value(text) {
        Ok(value) => Some(from_value(value)),
        Err(_) => None,
    }
}

/// The value that a text spells, or what is wrong with the text.
pub fn parse_or_problem(text: &str) -> (r: Result<Json, String>)
    ensures
        match r {
            Ok(v) => read(text@) == Ok::<Tree, Seq<char>>(v.tree()),
            Err(e) => read(text@) == Err::<Tree, Seq<char>>(e@),
        },
{
    match parse_value(text) {
        Ok(value) => Ok(from_value(value)),
        Err(e) => Err(e),
    }
}

/// The value that bytes spell, or what is wrong with them.
pub fn parse_slice(bytes: &Vec<u8>) -> (r: Result<Json, String>)
    ensures
        match r {
            Ok(v) => read_slice(bytes@) == Ok::<Tree, Seq<char>>(v.tree()),
            Err(e) => read_slice(bytes@) == Err::<Tree, Seq<char>>(e@),
        },
        valid_utf8(bytes@) ==> (match r {
            Ok(v) => Some(v.tree()),
            Err(e) => None,
        }) == parsed(decode_utf8(bytes@)),
{
    match parse_bytes(bytes) {
        Ok(value) => Ok(from_value(value)),
        Err(e) => Err(e),
    }
}

/// The one-line text of a value.
pub fn render(json: &Json) -> (r: String)
    ensures
        r@ == compact(stored(json.tree())),
        reads_back(r@, json.tree()),
{
    value_text(&to_value(json))
}

/// The indented text of a value.
pub fn render_pretty(json: &Json) -> (r: String)
    ensures
        r@ == pretty(stored(json.tree())),
{
    value_pretty(&to_value(json))
}

// ---------------------------------------------------------------------------
// Reading and changing values
// ---------------------------------------------------------------------------

impl Json {
    /// The member of an object called `key`.
    pub fn get(&self, key: &str) -> (r: Option<&Json>)
        ensures
            match r {
                Some(v) => field(self.tree(), key@) == Some(v.tree()),
                None => field(self.tree(), key@) is None,
            },
    {
        match self {
            Json::Object(members) => {
                proof {
                    lemma_object_tree(*members);
                    lemma_member_at(member_trees(members@), key@);
                }
                let n: usize = members.len();
                let mut i: usize = 0;
                while i < n
                    invariant
                        n == members@.len(),
                        0 <= i <= n,
                        *self == Json::Object(*members),
                        forall|j: int| 0 <= j < i ==> member_trees(members@)[j].0 != key@,
                    decreases n - i,
                {
                    if same(members[i].0.as_str(), key) {
                        proof {
                            let list = member_trees(members@);
                            let k = member_at(list, key@);
                            lemma_member_at(list, key@);
                            assert(list[i as int].0 == key@);
                            assert(k == i);
                            lemma_object_tree(*members);
                        }
                        return Some(&members[i].1);
                    }
                    i = i + 1;
                }
                proof {
                    lemma_member_at(member_trees(members@), key@);
                }
                None
            },
            _ => None,
        }
    }

    /// The characters of a text.
    pub fn as_text(&self) -> (r: Option<&String>)
        ensures
            match r {
                Some(s) => text_of(self.tree()) == Some(s@),
                None => text_of(self.tree()) is None,
            },
    {
        match self {
            Json::Text(s) => Some(s),
            _ => None,
        }
    }

    /// The text under `key` in an object.
    pub fn text_field(&self, key: &str) -> (r: Option<String>)
        ensures
            opt_text(r) == text_field(self.tree(), key@),
    {
        match self.get(key) {
            Some(v) => match v.as_text() {
                Some(s) => Some(s.clone()),
                None => None,
            },
            None => None,
        }
    }

    /// The truth value under `key` in an object.
    pub fn bool_field(&self, key: &str) -> (r: Option<bool>)
        ensures
            r == bool_field(self.tree(), key@),
    {
        match self.get(key) {
            Some(Json::Bool(b)) => Some(*b),
            Some(_) => None,
            None => None,
        }
    }

    /// The items under `key` in an object.
    pub fn array_field(&self, key: &str) -> (r: Option<&Vec<Json>>)
        ensures
            match r {
                Some(items) => array_field(self.tree(), key@) == Some(trees(items@)),
                None => array_field(self.tree(), key@) is None,
            },
    {
        match self.get(key) {
            Some(v) => match v {
                Json::Array(items) => {
                    proof {
                        lemma_array_tree(*items);
                    }
                    Some(items)
                },
                _ => None,
            },
            None => None,
        }
    }

    /// A copy of a value.
    pub fn copy(&self) -> (r: Json)
        ensures
            r.tree() == self.tree(),
        decreases self,
    {
        match self {
            Json::Null => Json::Null,
            Json::Bool(b) => Json::Bool(*b),
            Json::Number(n) => Json::Number(*n),
            Json::Decimal(n) => Json::Decimal(copy_number(n)),
            Json::Text(s) => Json::Text(s.clone()),
            Json::Array(items) => {
                let mut out: Vec<Json> = Vec::new();
                let n: usize = items.len();
                let mut i: usize = 0;
                while i < n
                    invariant
                        n == items@.len(),
                        0 <= i <= n,
                        *self == Json::Array(*items),
                        trees(out@) =~= trees(items@).take(i as int),
                    decreases n - i,
                {
                    proof {
                        assert(decreases_to!(*self => self->Array_0));
                        assert(decreases_to!(self->Array_0 => self->Array_0@[i as int]));
                    }
                    let item = items[i].copy();
                    proof {
                        assert(trees(out@.push(item)) =~= trees(out@).push(item.tree()));
                        assert(trees(items@).take(i + 1) =~= trees(items@).take(i as int).push(
                            items@[i as int].tree(),
                        ));
                    }
                    out.push(item);
                    i = i + 1;
                }
                proof {
                    assert(trees(out@) =~= trees(items@));
                    lemma_array_tree(*items);
                    lemma_array_tree(out);
                }
                Json::Array(out)
            },
            Json::Object(members) => {
                let mut out: Vec<(String, Json)> = Vec::new();
                let n: usize = members.len();
                let mut i: usize = 0;
                while i < n
                    invariant
                        n == members@.len(),
                        0 <= i <= n,
                        *self == Json::Object(*members),
                        member_trees(out@) =~= member_trees(members@).take(i as int),
                    decreases n - i,
                {
                    proof {
                        assert(decreases_to!(*self => self->Object_0));
                        assert(decreases_to!(self->Object_0 => self->Object_0@[i as int]));
                        assert(decreases_to!(self->Object_0@[i as int] => self->Object_0@[i as int].1));
                    }
                    let name = members[i].0.clone();
                    let value = members[i].1.copy();
                    let pair = (name, value);
                    proof {
                        assert(member_trees(out@.push(pair)) =~= member_trees(out@).push(
                            (pair.0@, pair.1.tree()),
                        ));
                        assert(member_trees(members@).take(i + 1) =~= member_trees(members@).take(
                            i as int,
                        ).push((members@[i as int].0@, members@[i as int].1.tree())));
                    }
                    out.push(pair);
                    i = i + 1;
                }
                proof {
                    assert(member_trees(out@) =~= member_trees(members@));
                    lemma_object_tree(*members);
                    lemma_object_tree(out);
                }
                Json::Object(out)
            },
        }
    }

    /// Sets the member `key` of an object to `value`; anything else stays as
    /// it is.
    pub fn set(self, key: &str, value: Json) -> (r: Json)
        ensures
            r.tree() == set_field(self.tree(), key@, value.tree()),
    {
        match self {
            Json::Object(old_members) => {
                let mut members = old_members;
                proof {
                    lemma_object_tree(members);
                }
                let ghost list = member_trees(members@);
                let n: usize = members.len();
                let mut i: usize = 0;
                while i < n && !same(members[i].0.as_str(), key)
                    invariant
                        n == members@.len(),
                        0 <= i <= n,
                        list == member_trees(members@),
                        forall|j: int| 0 <= j < i ==> list[j].0 != key@,
                    decreases n - i,
                {
                    i = i + 1;
                }
                proof {
                    lemma_member_at(list, key@);
                    if i < n {
                        assert(list[i as int].0 == key@);
                    }
                    assert(member_at(list, key@) == i);
                }
                if i < n {
                    members[i] = (key.to_owned(), value);
                } else {
                    members.push((key.to_owned(), value));
                }
                proof {
                    lemma_object_tree(members);
                    assert(member_trees(members@) =~= with_member(list, key@, value.tree()));
                }
                Json::Object(members)
            },
            other => other,
        }
    }
}

/// The members of an object, or none for anything else.
pub open spec fn members_of(t: Tree) -> Seq<(Seq<char>, Tree)> {
    match t {
        Tree::Object(members) => members,
        _ => seq![],
    }
}

/// An object without members.
pub fn object() -> (r: Json)
    ensures
        r.tree() == Tree::Object(seq![]),
{
    let members: Vec<(String, Json)> = Vec::new();
    proof {
        lemma_object_tree(members);
        assert(member_trees(members@) =~= seq![]);
    }
    Json::Object(members)
}

/// An array without items.
pub fn array() -> (r: Json)
    ensures
        r.tree() == Tree::Array(seq![]),
{
    let items: Vec<Json> = Vec::new();
    proof {
        lemma_array_tree(items);
        assert(trees(items@) =~= seq![]);
    }
    Json::Array(items)
}

/// The value of a text.
pub fn text(s: &str) -> (r: Json)
    ensures
        r.tree() == Tree::Text(s@),
{
    Json::Text(s.to_owned())
}

/// The tree of an optional text: null where there is none.
pub open spec fn text_or_null(s: Option<Seq<char>>) -> Tree {
    match s {
        Some(t) => Tree::Text(t),
        None => Tree::Null,
    }
}

/// The value of an optional text: null where there is none.
pub fn optional_text(s: &Option<String>) -> (r: Json)
    ensures
        r.tree() == text_or_null(opt_text(*s)),
{
    match s {
        Some(t) => Json::Text(t.clone()),
        None => Json::Null,
    }
}

impl Json {
    /// An object with one more member at the end.
    pub fn with(self, key: &str, value: Json) -> (r: Json)
        requires
            self is Object,
        ensures
            r is Object,
            r.tree() == Tree::Object(members_of(self.tree()).push((key@, value.tree()))),
    {
        match self {
            Json::Object(list) => {
                let mut members = list;
                proof {
                    lemma_object_tree(members);
                }
                let ghost before = member_trees(members@);
                members.push((key.to_owned(), value));
                proof {
                    lemma_object_tree(members);
                    assert(member_trees(members@) =~= before.push((key@, value.tree())));
                }
                Json::Object(members)
            },
            other => other,
        }
    }
}

/// The first member of a name is the one that counts.
pub proof fn lemma_field_is(t: Tree, key: Seq<char>, k: int)
    requires
        t is Object,
        0 <= k < t->Object_0.len(),
        t->Object_0[k].0 == key,
        forall|i: int| 0 <= i < k ==> (#[trigger] t->Object_0[i]).0 != key,
    ensures
        field(t, key) == Some(t->Object_0[k].1),
{
    let members = t->Object_0;
    lemma_member_at(members, key);
    let m = member_at(members, key);
    if m < k {
        assert(members[m].0 != key);
    }
    if k < m {
        assert(members[k].0 != key);
    }
}

} // verus!
