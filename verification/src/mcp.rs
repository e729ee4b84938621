//! A server of the Model Context Protocol for managing workers: messages with
//! a header for their length, and the tools that it offers.

use crate::json::{
    alike, array_field, compact, field, lemma_array_tree, lemma_field_is, lemma_member_at,
    member_at, members_of, object, optional_text, parse_slice, parsed, pretty, read_slice,
    readable, reads_back, render, render_pretty, stored, text, text_field, text_or_null, trees,
    Json, NESTING, Tree,
};
use crate::text::{
    byte_count, byte_len, cat2, cat5, chars_of, decimal, has_prefix, is_digit, is_white,
    lemma_decimal_reads_back, lemma_digits_spell, lemma_trim_end, lemma_trim_start, lowercase,
    lowered, number, number_up_to, opt_text, parse_number, same, starts_with, string_between, trim,
    trim_start, trimmed,
};
use vstd::prelude::*;
use vstd::utf8::{
    decode_utf8, encode_utf8, encode_utf8_decode_utf8, encode_utf8_valid_utf8, is_ascii_chars,
    is_ascii_chars_encode_utf8, valid_utf8,
};

verus! {

// ---------------------------------------------------------------------------
// Messages
// ---------------------------------------------------------------------------

/// The header of a message, as far as it has been read.
pub struct FrameHeader {
    pub content_length: Option<usize>,
}

/// The length that a header gives after one more line: the line's own where it
/// is about the length, even where it gives none that can be read.
pub open spec fn length_after(known: Option<nat>, line: Seq<char>) -> Option<nat> {
    let t = trim(line);
    if starts_with(t, "Content-Length:"@) {
        number_up_to(trim(t.skip(15)), usize::MAX as nat)
    } else {
        known
    }
}

/// The length as a natural number.
pub open spec fn as_nat(n: Option<usize>) -> Option<nat> {
    match n {
        Some(v) => Some(v as nat),
        None => None,
    }
}

impl FrameHeader {
    /// A header of which nothing has been read.
    pub fn new() -> (r: FrameHeader)
        ensures
            r.content_length is None,
    {
        FrameHeader { content_length: None }
    }

    /// Takes in a line of the header. Returns whether it was the last: a blank
    /// one.
    pub fn take_line(&mut self, line: &str) -> (r: bool)
        ensures
            r == (trim(line@).len() == 0),
            as_nat(final(self).content_length) == if trim(line@).len() == 0 {
                as_nat(old(self).content_length)
            } else {
                length_after(as_nat(old(self).content_length), line@)
            },
    {
        let t = trimmed(line);
        if t.as_str().is_empty() {
            return true;
        }
        if has_prefix(t.as_str(), "Content-Length:") {
            let v = chars_of(t.as_str());
            proof {
                reveal_strlit("Content-Length:");
                assert(t@.skip(15) =~= v@.subrange(15, v@.len() as int));
            }
            let rest = string_between(&v, 15, v.len());
            let value = trimmed(rest.as_str());
            self.content_length = match parse_number(value.as_str(), usize::MAX as u64) {
                Some(n) => Some(n as usize),
                None => None,
            };
        }
        false
    }

    /// The length of the message, once the header has been read.
    pub fn length(&self) -> (r: Result<usize, String>)
        ensures
            match self.content_length {
                Some(n) => r is Ok && r->Ok_0 == n,
                None => r is Err && r->Err_0@ == "missing Content-Length header"@,
            },
    {
        match self.content_length {
            Some(n) => Ok(n),
            None => Err("missing Content-Length header".to_owned()),
        }
    }
}

/// The line that gives the length of a message.
pub open spec fn length_line(body: Seq<char>) -> Seq<char> {
    "Content-Length: "@ + decimal(byte_len(body)) + "\r\n"@
}

/// A message with its header.
pub open spec fn framed(body: Seq<char>) -> Seq<char> {
    length_line(body) + "\r\n"@ + body
}

/// A message with its header.
pub fn frame_message(body: &str) -> (r: String)
    ensures
        r@ == framed(body@),
{
    let n = number(byte_count(body) as u64);
    let mut out = cat2("Content-Length: ", n.as_str());
    out.push_str("\r\n");
    out.push_str("\r\n");
    out.push_str(body);
    out
}

proof fn lemma_trim_is(s: Seq<char>, from: int, to: int)
    requires
        0 <= from < to <= s.len(),
        forall|i: int| 0 <= i < from ==> is_white(s[i]),
        !is_white(s[from]),
        forall|i: int| to <= i < s.len() ==> is_white(s[i]),
        !is_white(s[to - 1]),
    ensures
        trim(s) == s.subrange(from, to),
{
    lemma_trim_start(s, from);
    let t = s.skip(from);
    assert(trim_start(s) == t);
    assert forall|i: int| to - from <= i < t.len() implies is_white(t[i]) by {
        assert(t[i] == s[i + from]);
    }
    assert(t[to - from - 1] == s[to - 1]);
    lemma_trim_end(t, to - from);
    assert(t.take(to - from) =~= s.subrange(from, to));
}

/// What reads a header gets the length of the message that was written with
/// it, and then the end of the header.
#[verifier::spinoff_prover]
pub proof fn law_header_reads_back(body: Seq<char>, known: Option<nat>)
    requires
        byte_len(body) <= usize::MAX,
    ensures
        length_after(known, length_line(body)) == Some(byte_len(body) as nat),
        trim(length_line(body)).len() > 0,
        trim("\r\n"@).len() == 0,
        starts_with(framed(body), length_line(body) + "\r\n"@),
        framed(body).skip(length_line(body).len() as int + 2) == body,
{
    reveal_strlit("Content-Length: ");
    reveal_strlit("Content-Length:");
    reveal_strlit("\r\n");
    crate::text::lemma_byte_len_is_encoding(body);
    let n = byte_len(body) as nat;
    lemma_decimal_reads_back(n, usize::MAX as nat);
    lemma_digits_spell(n);
    let d = decimal(n as int);
    let line = length_line(body);
    assert(line.len() == 16 + d.len() + 2);
    assert forall|i: int| 16 + d.len() <= i < line.len() implies is_white(line[i]) by {}
    assert(line[15 + d.len() as int] == d[d.len() - 1]);
    assert(!is_white(line[0]));
    lemma_trim_is(line, 0, 16 + d.len() as int);
    let t = trim(line);
    assert(t.subrange(0, 15) =~= "Content-Length:"@);
    let rest = t.skip(15);
    assert(rest =~= seq![' '] + d);
    assert(rest[1] == d[0]);
    assert(rest[rest.len() - 1] == d[d.len() - 1]);
    lemma_trim_is(rest, 1, rest.len() as int);
    assert(rest.subrange(1, rest.len() as int) =~= d);
    let end = "\r\n"@;
    lemma_trim_start(end, 2);
    assert(end.skip(2) =~= Seq::<char>::empty());
    lemma_trim_end(end.skip(2), 0);
    let whole = framed(body);
    assert(whole.subrange(0, (line + end).len() as int) =~= line + end);
    assert(whole.skip(line.len() as int + 2) =~= body);
}

/// `String::from_utf8`: the text that bytes encode, where they are UTF-8.
#[verifier::external_body]
fn decoded(bytes: Vec<u8>) -> (r: Option<String>)
    ensures
        match r {
            Some(s) => valid_utf8(bytes@) && s@ == decode_utf8(bytes@),
            None => !valid_utf8(bytes@),
        },
{
    String::from_utf8(bytes).ok()
}

/// What one more line means for the header of a message.
pub enum HeaderStep {
    /// There are more lines.
    More,
    /// The line was the last.
    Done,
    /// The line is not text.
    Failed(String),
}

impl FrameHeader {
    /// Takes in the bytes of a line of the header, with its end.
    pub fn take_bytes(&mut self, line: Vec<u8>) -> (r: HeaderStep)
        ensures
            match r {
                HeaderStep::Failed(e) => {
                    &&& !valid_utf8(line@)
                    &&& e@ == "header read: stream did not contain valid UTF-8"@
                },
                HeaderStep::Done => {
                    &&& valid_utf8(line@)
                    &&& trim(decode_utf8(line@)).len() == 0
                },
                HeaderStep::More => {
                    &&& valid_utf8(line@)
                    &&& trim(decode_utf8(line@)).len() > 0
                },
            },
            as_nat(final(self).content_length) == if r is More {
                length_after(as_nat(old(self).content_length), decode_utf8(line@))
            } else {
                as_nat(old(self).content_length)
            },
    {
        match decoded(line) {
            None => HeaderStep::Failed(
                "header read: stream did not contain valid UTF-8".to_owned(),
            ),
            Some(text) => if self.take_line(text.as_str()) {
                HeaderStep::Done
            } else {
                HeaderStep::More
            },
        }
    }
}

/// What bytes spell as JSON: for UTF-8, what their text spells.
pub open spec fn spelled(bytes: Seq<u8>) -> Option<Tree> {
    if valid_utf8(bytes) {
        parsed(decode_utf8(bytes))
    } else {
        match read_slice(bytes) {
            Ok(t) => Some(t),
            Err(e) => None,
        }
    }
}

/// The message that the bytes after a header spell, or what is wrong with
/// them.
pub fn message_of(body: &Vec<u8>) -> (r: Result<Json, String>)
    ensures
        match spelled(body@) {
            Some(t) => r is Ok && r->Ok_0.tree() == t,
            None => {
                &&& r is Err
                &&& read_slice(body@) is Err
                &&& r->Err_0@ == "json parse: "@ + read_slice(body@)->Err_0
            },
        },
{
    match parse_slice(body) {
        Ok(v) => Ok(v),
        Err(e) => Err(cat2("json parse: ", e.as_str())),
    }
}

/// What reading a message comes to.
pub ghost enum Frame {
    /// A message, and where the next one starts.
    Message(Tree, int),
    /// The input ended before the end of a header.
    End,
    /// What is wrong with the input.
    Failed(Seq<char>),
}

/// Where the line that starts at a place ends: behind its line feed, or with
/// the input.
pub open spec fn line_end(input: Seq<u8>, at: int) -> int
    decreases input.len() - at,
{
    if at >= input.len() {
        input.len() as int
    } else if input[at] == 10 {
        at + 1
    } else {
        line_end(input, at + 1)
    }
}

/// What reading a message comes to, once its header has been read.
pub open spec fn body_at(input: Seq<u8>, at: int, length: Option<nat>) -> Frame {
    match length {
        None => Frame::Failed("missing Content-Length header"@),
        Some(n) => if at + n > input.len() {
            Frame::Failed("body read: failed to fill whole buffer"@)
        } else {
            let body = input.subrange(at, at + n);
            match spelled(body) {
                Some(t) => Frame::Message(t, at + n),
                None => Frame::Failed("json parse: "@ + read_slice(body)->Err_0),
            }
        },
    }
}

/// A line that starts before the end of the input is not empty.
pub proof fn lemma_line_end_moves(input: Seq<u8>, at: int)
    requires
        0 <= at < input.len(),
    ensures
        at < line_end(input, at) <= input.len(),
    decreases input.len() - at,
{
    if at + 1 < input.len() {
        lemma_line_end_moves(input, at + 1);
    } else {
        assert(line_end(input, at + 1) == input.len());
    }
}

/// What reading a message comes to, from a line of its header on.
pub open spec fn message_at(input: Seq<u8>, at: int, known: Option<nat>) -> Frame
    decreases input.len() - at,
{
    if at < 0 || at >= input.len() {
        Frame::End
    } else {
        proof {
            lemma_line_end_moves(input, at);
        }
        let end = line_end(input, at);
        let line = input.subrange(at, end);
        if !valid_utf8(line) {
            Frame::Failed("header read: stream did not contain valid UTF-8"@)
        } else if trim(decode_utf8(line)).len() == 0 {
            body_at(input, end, known)
        } else {
            message_at(input, end, length_after(known, decode_utf8(line)))
        }
    }
}

fn end_of_line(input: &Vec<u8>, at: usize) -> (r: usize)
    requires
        at < input@.len(),
    ensures
        at < r <= input@.len(),
        r == line_end(input@, at as int),
{
    let mut i: usize = at;
    while i < input.len() && input[i] != 10
        invariant
            at <= i <= input@.len(),
            line_end(input@, at as int) == line_end(input@, i as int),
        decreases input@.len() - i,
    {
        i = i + 1;
    }
    proof {
        lemma_line_end_moves(input@, at as int);
    }
    if i < input.len() {
        i + 1
    } else {
        i
    }
}

fn bytes_between(input: &Vec<u8>, from: usize, to: usize) -> (r: Vec<u8>)
    requires
        from <= to <= input@.len(),
    ensures
        r@ == input@.subrange(from as int, to as int),
{
    let mut out: Vec<u8> = Vec::new();
    let mut i: usize = from;
    while i < to
        invariant
            from <= i <= to <= input@.len(),
            out@ == input@.subrange(from as int, i as int),
        decreases to - i,
    {
        out.push(input[i]);
        i = i + 1;
        proof {
            assert(out@ =~= input@.subrange(from as int, i as int));
        }
    }
    out
}

/// Reads the message that starts at a place: the message and where the next
/// one starts, nothing at the end of the input, or what is wrong.
pub fn read_message(input: &Vec<u8>, at: usize) -> (r: Result<Option<(Json, usize)>, String>)
    ensures
        match message_at(input@, at as int, None) {
            Frame::End => r == Ok::<Option<(Json, usize)>, String>(None),
            Frame::Failed(problem) => r is Err && r->Err_0@ == problem,
            Frame::Message(tree, next) => {
                &&& r matches Ok(Some(read))
                &&& read.0.tree() == tree
                &&& read.1 == next
            },
        },
{
    let mut header = FrameHeader::new();
    let mut i: usize = at;
    while i < input.len()
        invariant
            message_at(input@, at as int, None) == message_at(
                input@,
                i as int,
                as_nat(header.content_length),
            ),
        decreases input@.len() - i,
    {
        let end = end_of_line(input, i);
        match header.take_bytes(bytes_between(input, i, end)) {
            HeaderStep::Failed(e) => {
                return Err(e);
            },
            HeaderStep::Done => {
                let n: usize = match header.length() {
                    Ok(n) => n,
                    Err(e) => {
                        return Err(e);
                    },
                };
                if n > input.len() - end {
                    return Err("body read: failed to fill whole buffer".to_owned());
                }
                let body = bytes_between(input, end, end + n);
                return match message_of(&body) {
                    Ok(v) => Ok(Some((v, end + n))),
                    Err(e) => Err(e),
                };
            },
            HeaderStep::More => {
                i = end;
            },
        }
    }
    Ok(None)
}

/// The bytes of messages sent one after another, each with its header.
pub open spec fn sent(bodies: Seq<Seq<char>>) -> Seq<u8>
    decreases bodies.len(),
{
    if bodies.len() == 0 {
        Seq::empty()
    } else {
        sent(bodies.drop_last()) + encode_utf8(framed(bodies.last()))
    }
}

proof fn lemma_encode_concat(a: Seq<char>, b: Seq<char>)
    ensures
        encode_utf8(a + b) == encode_utf8(a) + encode_utf8(b),
    decreases a.len(),
{
    if a.len() == 0 {
        assert(a + b =~= b);
        assert(encode_utf8(a) + encode_utf8(b) =~= encode_utf8(b));
    } else {
        lemma_encode_concat(a.drop_first(), b);
        assert((a + b).drop_first() =~= a.drop_first() + b);
        assert(encode_utf8(a + b) =~= encode_utf8(a) + encode_utf8(b));
    }
}

proof fn lemma_line_end(input: Seq<u8>, at: int, last: int)
    requires
        0 <= at <= last < input.len(),
        input[last] == 10,
        forall|i: int| at <= i < last ==> input[i] != 10,
    ensures
        line_end(input, at) == last + 1,
    decreases last - at,
{
    if at < last {
        lemma_line_end(input, at + 1, last);
    }
}

proof fn lemma_length_line(body: Seq<char>)
    ensures
        is_ascii_chars(length_line(body)),
        length_line(body).len() > 0,
        length_line(body).last() == '\n',
        forall|i: int|
            0 <= i < length_line(body).len() - 1 ==> #[trigger] length_line(body)[i] != '\n',
{
    reveal_strlit("Content-Length: ");
    reveal_strlit("\r\n");
    crate::text::lemma_byte_len_is_encoding(body);
    let n = byte_len(body) as nat;
    lemma_digits_spell(n);
    let d = decimal(n as int);
    let line = length_line(body);
    assert forall|i: int| 0 <= i < line.len() implies '\0' <= #[trigger] line[i] <= '\u{7f}' && (i
        < line.len() - 1 ==> line[i] != '\n') by {
        if 16 <= i < 16 + d.len() {
            assert(line[i] == d[i - 16]);
            assert(is_digit(d[i - 16]));
        }
    }
}

proof fn lemma_frame_reads_back(before: Seq<u8>, body: Seq<char>, after: Seq<u8>)
    requires
        byte_len(body) <= usize::MAX,
        parsed(body) is Some,
    ensures
        message_at(
            before + encode_utf8(framed(body)) + after,
            before.len() as int,
            None,
        ) == Frame::Message(
            parsed(body)->Some_0,
            before.len() as int + encode_utf8(framed(body)).len(),
        ),
{
    let line = length_line(body);
    let blank = "\r\n"@;
    reveal_strlit("\r\n");
    law_header_reads_back(body, None);
    lemma_length_line(body);
    crate::text::lemma_byte_len_is_encoding(body);
    lemma_encode_concat(line + blank, body);
    lemma_encode_concat(line, blank);
    is_ascii_chars_encode_utf8(line);
    assert(is_ascii_chars(blank));
    is_ascii_chars_encode_utf8(blank);
    encode_utf8_valid_utf8(line);
    encode_utf8_decode_utf8(line);
    encode_utf8_valid_utf8(blank);
    encode_utf8_decode_utf8(blank);
    encode_utf8_valid_utf8(body);
    encode_utf8_decode_utf8(body);
    let input = before + encode_utf8(framed(body)) + after;
    let one = before.len() as int;
    let two = one + line.len();
    let three = two + 2;
    let n = encode_utf8(body).len();
    assert forall|i: int| one <= i < two implies #[trigger] input[i] == encode_utf8(line)[i
        - one] by {}
    assert(encode_utf8(line)[line.len() - 1] == line[line.len() - 1] as u8);
    assert(input[two - 1] == 10);
    assert forall|i: int| one <= i < two - 1 implies #[trigger] input[i] != 10 by {
        assert(line[i - one] as u8 == encode_utf8(line)[i - one]);
    }
    lemma_line_end(input, one, two - 1);
    assert(input.subrange(one, two) =~= encode_utf8(line));
    assert(input[two] == encode_utf8(blank)[0]);
    assert(input[two + 1] == encode_utf8(blank)[1]);
    assert(blank[0] as u8 == 13 && blank[1] as u8 == 10);
    lemma_line_end(input, two, two + 1);
    assert(input.subrange(two, three) =~= encode_utf8(blank));
    assert(input.subrange(three, three + n) =~= encode_utf8(body));
    assert(body_at(input, three, Some(n)) == Frame::Message(parsed(body)->Some_0, three + n));
    assert(message_at(input, two, Some(n)) == body_at(input, three, Some(n)));
}

proof fn lemma_sent_after(bodies: Seq<Seq<char>>, k: int) -> (after: Seq<u8>)
    requires
        0 <= k <= bodies.len(),
    ensures
        sent(bodies) == sent(bodies.take(k)) + after,
    decreases bodies.len(),
{
    if k == bodies.len() {
        assert(bodies.take(k) =~= bodies);
        assert(sent(bodies) =~= sent(bodies) + Seq::<u8>::empty());
        Seq::empty()
    } else {
        let rest = lemma_sent_after(bodies.drop_last(), k);
        assert(bodies.drop_last().take(k) =~= bodies.take(k));
        let last = encode_utf8(framed(bodies.last()));
        assert(sent(bodies.take(k)) + rest + last =~= sent(bodies.take(k)) + (rest + last));
        rest + last
    }
}

/// Writes a message with its header behind what has been written.
pub fn write_message(output: &mut Vec<u8>, msg: &Json)
    ensures
        final(output)@ == old(output)@ + encode_utf8(framed(compact(stored(msg.tree())))),
        reads_back(compact(stored(msg.tree())), msg.tree()),
        forall|bodies: Seq<Seq<char>>|
            old(output)@ == #[trigger] sent(bodies) ==> final(output)@ == sent(
                bodies.push(compact(stored(msg.tree()))),
            ),
{
    let body = render(msg);
    let whole = frame_message(body.as_str());
    let bytes = whole.as_str().as_bytes();
    let ghost before = output@;
    let n: usize = bytes.len();
    let mut i: usize = 0;
    while i < n
        invariant
            n == bytes@.len(),
            0 <= i <= n,
            output@ == before + bytes@.take(i as int),
        decreases n - i,
    {
        output.push(bytes[i]);
        i = i + 1;
        proof {
            assert(output@ =~= before + bytes@.take(i as int));
        }
    }
    proof {
        assert(bytes@.take(n as int) =~= encode_utf8(framed(body@)));
        assert forall|bodies: Seq<Seq<char>>| before == #[trigger] sent(bodies) implies output@
            == sent(bodies.push(body@)) by {
            assert(bodies.push(body@).drop_last() =~= bodies);
        }
    }
}

/// Messages written one after another are read back in order: reading from
/// where one starts gives it, but for the order of the members of objects, and
/// where the next one starts; behind the last one comes the end of the input.
pub proof fn law_messages_read_back(values: Seq<Tree>, bodies: Seq<Seq<char>>, k: int)
    requires
        0 <= k <= bodies.len(),
        values.len() == bodies.len(),
        forall|i: int|
            0 <= i < bodies.len() ==> {
                &&& readable(#[trigger] values[i], NESTING as nat)
                &&& reads_back(bodies[i], values[i])
                &&& byte_len(bodies[i]) <= usize::MAX
            },
    ensures
        match message_at(sent(bodies), sent(bodies.take(k)).len() as int, None) {
            Frame::Message(tree, next) => {
                &&& k < bodies.len()
                &&& alike(tree, values[k], NESTING as nat)
                &&& next == sent(bodies.take(k + 1)).len()
            },
            Frame::End => k == bodies.len(),
            Frame::Failed(problem) => false,
        },
{
    if k < bodies.len() {
        let after = lemma_sent_after(bodies, k + 1);
        let body = bodies[k];
        assert(bodies.take(k + 1).drop_last() =~= bodies.take(k));
        assert(bodies.take(k + 1).last() == body);
        assert(readable(values[k], NESTING as nat));
        lemma_frame_reads_back(sent(bodies.take(k)), body, after);
    } else {
        assert(bodies.take(k) =~= bodies);
    }
}

// ---------------------------------------------------------------------------
// Answers
// ---------------------------------------------------------------------------

/// The answer to a request.
pub open spec fn answer(id: Tree, result: Tree) -> Tree {
    Tree::Object(seq![("jsonrpc"@, Tree::Text("2.0"@)), ("id"@, id), ("result"@, result)])
}

/// The answer to a request that failed.
pub open spec fn answer_error(id: Tree, error: Tree) -> Tree {
    Tree::Object(seq![("jsonrpc"@, Tree::Text("2.0"@)), ("id"@, id), ("error"@, error)])
}

/// What went wrong with a request.
pub open spec fn rpc_error(code: int, message: Seq<char>) -> Tree {
    Tree::Object(seq![("code"@, Tree::Number(code)), ("message"@, Tree::Text(message))])
}

/// A piece of text in the result of a tool.
pub open spec fn content_item(s: Seq<char>) -> Tree {
    Tree::Object(seq![("type"@, Tree::Text("text"@)), ("text"@, Tree::Text(s))])
}

/// The result of a tool.
pub open spec fn ok_result(s: Seq<char>) -> Tree {
    Tree::Object(seq![("content"@, Tree::Array(seq![content_item(s)]))])
}

/// The result of a tool that failed.
pub open spec fn error_result(s: Seq<char>) -> Tree {
    Tree::Object(
        seq![
            ("content"@, Tree::Array(seq![content_item(s)])),
            ("isError"@, Tree::Bool(true)),
        ],
    )
}

fn answer_with(id: &Json, key: &str, value: Json) -> (r: Json)
    ensures
        r.tree() == Tree::Object(
            seq![("jsonrpc"@, Tree::Text("2.0"@)), ("id"@, id.tree()), (key@, value.tree())],
        ),
{
    let r = object().with("jsonrpc", text("2.0")).with("id", id.copy()).with(key, value);
    proof {
        assert(members_of(r.tree()) =~= seq![
            ("jsonrpc"@, Tree::Text("2.0"@)),
            ("id"@, id.tree()),
            (key@, value.tree()),
        ]);
    }
    r
}

/// The answer to a request.
pub fn answer_ok(id: &Json, result: Json) -> (r: Json)
    ensures
        r.tree() == answer(id.tree(), result.tree()),
{
    answer_with(id, "result", result)
}

fn answer_failed(id: &Json, code: i128, message: &str) -> (r: Json)
    ensures
        r.tree() == answer_error(id.tree(), rpc_error(code as int, message@)),
{
    let error = object().with("code", Json::Number(code)).with("message", text(message));
    proof {
        assert(members_of(error.tree()) =~= rpc_error(code as int, message@)->Object_0);
    }
    answer_with(id, "error", error)
}

fn one_item(item: Json) -> (r: Json)
    ensures
        r.tree() == Tree::Array(seq![item.tree()]),
{
    let mut items: Vec<Json> = Vec::new();
    items.push(item);
    proof {
        lemma_array_tree(items);
        assert(trees(items@) =~= seq![item.tree()]);
    }
    Json::Array(items)
}

fn text_item(s: &str) -> (r: Json)
    ensures
        r.tree() == content_item(s@),
{
    let r = object().with("type", text("text")).with("text", text(s));
    proof {
        assert(members_of(r.tree()) =~= content_item(s@)->Object_0);
    }
    r
}

/// The result of a tool.
pub fn tool_ok(s: &str) -> (r: Json)
    ensures
        r.tree() == ok_result(s@),
{
    let r = object().with("content", one_item(text_item(s)));
    proof {
        assert(members_of(r.tree()) =~= ok_result(s@)->Object_0);
    }
    r
}

/// The result of a tool that failed.
pub fn tool_error(s: &str) -> (r: Json)
    ensures
        r.tree() == error_result(s@),
{
    let r = object().with("content", one_item(text_item(s))).with("isError", Json::Bool(true));
    proof {
        assert(members_of(r.tree()) =~= error_result(s@)->Object_0);
    }
    r
}

// ---------------------------------------------------------------------------
// What the server offers
// ---------------------------------------------------------------------------

/// What the server says about itself.
pub open spec fn server_info(version: Seq<char>) -> Tree {
    Tree::Object(
        seq![
            ("protocolVersion"@, Tree::Text("2024-11-05"@)),
            ("capabilities"@, Tree::Object(seq![("tools"@, Tree::Object(seq![]))])),
            (
                "serverInfo"@,
                Tree::Object(
                    seq![
                        ("name"@, Tree::Text("apiari-swarm"@)),
                        ("version"@, Tree::Text(version)),
                    ],
                ),
            ),
        ],
    )
}

/// What the server says about itself.
pub fn handle_initialize(version: &str) -> (r: Json)
    ensures
        r.tree() == server_info(version@),
{
    let tools = object().with("tools", object());
    let info = object().with("name", text("apiari-swarm")).with("version", text(version));
    let r = object().with("protocolVersion", text("2024-11-05")).with("capabilities", tools).with(
        "serverInfo",
        info,
    );
    proof {
        let expected = server_info(version@)->Object_0;
        assert(members_of(tools.tree()) =~= expected[1].1->Object_0);
        assert(members_of(info.tree()) =~= expected[2].1->Object_0);
        assert(members_of(r.tree()) =~= expected);
    }
    r
}

/// A text among the arguments of a tool.
pub open spec fn text_argument(description: Seq<char>) -> Tree {
    Tree::Object(
        seq![("type"@, Tree::Text("string"@)), ("description"@, Tree::Text(description))],
    )
}

/// The arguments of a tool.
pub open spec fn schema(properties: Seq<(Seq<char>, Tree)>, required: Seq<Seq<char>>) -> Tree {
    let base = seq![("type"@, Tree::Text("object"@)), ("properties"@, Tree::Object(properties))];
    Tree::Object(
        if required.len() == 0 {
            base
        } else {
            base.push(
                (
                    "required"@,
                    Tree::Array(required.map_values(|s: Seq<char>| Tree::Text(s))),
                ),
            )
        },
    )
}

/// A tool that the server offers.
pub open spec fn tool_entry(name: Seq<char>, description: Seq<char>, input: Tree) -> Tree {
    Tree::Object(
        seq![
            ("name"@, Tree::Text(name)),
            ("description"@, Tree::Text(description)),
            ("inputSchema"@, input),
        ],
    )
}

/// The argument that chooses the agent. `agent` is the one that works where
/// none is chosen.
pub open spec fn agent_argument(agent: Seq<char>) -> Tree {
    Tree::Object(
        seq![
            ("type"@, Tree::Text("string"@)),
            (
                "description"@,
                Tree::Text(
                    "Agent to use: "@ + agent + ", codex, gemini, "@ + agent
                        + "-tui, codex-tui, gemini-tui"@,
                ),
            ),
            ("default"@, Tree::Text(agent)),
        ],
    )
}

/// The tool that creates a worker.
pub open spec fn create_entry(agent: Seq<char>) -> Tree {
    tool_entry(
        "swarm_create_worker"@,
        "Dispatch a new swarm worker to implement a task. The worker runs in its own git worktree with an LLM agent that writes code, commits, and opens a PR."@,
        schema(
            seq![
                (
                    "prompt"@,
                    text_argument(
                        "The task prompt for the worker. Be detailed and self-contained."@,
                    ),
                ),
                ("agent"@, agent_argument(agent)),
                (
                    "repo"@,
                    text_argument(
                        "Repository name to work in (the short name, e.g. 'myrepo')"@,
                    ),
                ),
            ],
            seq!["prompt"@],
        ),
    )
}

/// The tool that sends a message to a worker.
pub open spec fn send_entry() -> Tree {
    tool_entry(
        "swarm_send_message"@,
        "Send a message to a waiting swarm worker. Use this when a worker is in the 'waiting' phase and needs input."@,
        schema(
            seq![
                (
                    "worktree_id"@,
                    text_argument("The worktree ID of the worker (e.g. 'hive-1a2b')"@),
                ),
                ("message"@, text_argument("The message to send to the worker"@)),
            ],
            seq!["worktree_id"@, "message"@],
        ),
    )
}

/// The tool that closes a worker.
pub open spec fn close_entry() -> Tree {
    tool_entry(
        "swarm_close_worker"@,
        "Close and clean up a swarm worker. Terminates the agent and removes the worktree."@,
        schema(
            seq![("worktree_id"@, text_argument("The worktree ID of the worker to close"@))],
            seq!["worktree_id"@],
        ),
    )
}

/// The tool that lists workers.
pub open spec fn list_entry() -> Tree {
    tool_entry(
        "swarm_list_workers"@,
        "List all swarm workers in this workspace with their current status, phase, and PR info."@,
        schema(seq![], seq![]),
    )
}

/// The tools that the server offers.
pub open spec fn tools_offered(agent: Seq<char>) -> Tree {
    Tree::Object(
        seq![
            ("tools"@, Tree::Array(seq![create_entry(agent), send_entry(), close_entry(), list_entry()])),
        ],
    )
}

fn make_text_argument(description: &str) -> (r: Json)
    ensures
        r.tree() == text_argument(description@),
{
    let r = object().with("type", text("string")).with("description", text(description));
    proof {
        assert(members_of(r.tree()) =~= text_argument(description@)->Object_0);
    }
    r
}

fn make_schema(properties: Json, required: Vec<&str>) -> (r: Json)
    requires
        properties is Object,
    ensures
        r.tree() == schema(
            members_of(properties.tree()),
            required@.map_values(|s: &str| s@),
        ),
{
    let ghost wanted = required@.map_values(|s: &str| s@);
    let base = object().with("type", text("object")).with("properties", properties);
    let n: usize = required.len();
    proof {
        crate::json::lemma_object_tree(properties->Object_0);
        assert(properties.tree() == Tree::Object(members_of(properties.tree())));
        assert(members_of(base.tree()) =~= seq![
            ("type"@, Tree::Text("object"@)),
            ("properties"@, Tree::Object(members_of(properties.tree()))),
        ]);
    }
    if n == 0 {
        return base;
    }
    let mut items: Vec<Json> = Vec::new();
    let mut i: usize = 0;
    while i < n
        invariant
            n == required@.len(),
            0 <= i <= n,
            items@.len() == i,
            forall|j: int| 0 <= j < i ==> (#[trigger] items@[j]).tree() == Tree::Text(
                required@[j]@,
            ),
        decreases n - i,
    {
        items.push(text(required[i]));
        i = i + 1;
    }
    proof {
        lemma_array_tree(items);
        assert(trees(items@) =~= wanted.map_values(|s: Seq<char>| Tree::Text(s)));
    }
    base.with("required", Json::Array(items))
}

fn make_entry(name: &str, description: &str, input: Json) -> (r: Json)
    ensures
        r.tree() == tool_entry(name@, description@, input.tree()),
{
    let r = object().with("name", text(name)).with("description", text(description)).with(
        "inputSchema",
        input,
    );
    proof {
        assert(members_of(r.tree()) =~= tool_entry(name@, description@, input.tree())->Object_0);
    }
    r
}

fn make_create_entry(default_agent: &str) -> (r: Json)
    ensures
        r.tree() == create_entry(default_agent@),
{
    let choices = cat5(
        "Agent to use: ",
        default_agent,
        ", codex, gemini, ",
        default_agent,
        "-tui, codex-tui, gemini-tui",
    );
    let agent = object().with("type", text("string")).with("description", Json::Text(choices)).with(
        "default",
        text(default_agent),
    );
    proof {
        assert(members_of(agent.tree()) =~= agent_argument(default_agent@)->Object_0);
    }
    let properties = object().with(
        "prompt",
        make_text_argument("The task prompt for the worker. Be detailed and self-contained."),
    ).with("agent", agent).with(
        "repo",
        make_text_argument("Repository name to work in (the short name, e.g. 'myrepo')"),
    );
    let required = vec!["prompt"];
    proof {
        assert(required@.map_values(|s: &str| s@) =~= seq!["prompt"@]);
        assert(members_of(properties.tree()) =~= seq![
            (
                "prompt"@,
                text_argument("The task prompt for the worker. Be detailed and self-contained."@),
            ),
            ("agent"@, agent_argument(default_agent@)),
            (
                "repo"@,
                text_argument("Repository name to work in (the short name, e.g. 'myrepo')"@),
            ),
        ]);
    }
    make_entry(
        "swarm_create_worker",
        "Dispatch a new swarm worker to implement a task. The worker runs in its own git worktree with an LLM agent that writes code, commits, and opens a PR.",
        make_schema(properties, required),
    )
}

fn make_send_entry() -> (r: Json)
    ensures
        r.tree() == send_entry(),
{
    let properties = object().with(
        "worktree_id",
        make_text_argument("The worktree ID of the worker (e.g. 'hive-1a2b')"),
    ).with("message", make_text_argument("The message to send to the worker"));
    let required = vec!["worktree_id", "message"];
    proof {
        assert(required@.map_values(|s: &str| s@) =~= seq!["worktree_id"@, "message"@]);
        assert(members_of(properties.tree()) =~= seq![
            ("worktree_id"@, text_argument("The worktree ID of the worker (e.g. 'hive-1a2b')"@)),
            ("message"@, text_argument("The message to send to the worker"@)),
        ]);
    }
    make_entry(
        "swarm_send_message",
        "Send a message to a waiting swarm worker. Use this when a worker is in the 'waiting' phase and needs input.",
        make_schema(properties, required),
    )
}

fn make_close_entry() -> (r: Json)
    ensures
        r.tree() == close_entry(),
{
    let properties = object().with(
        "worktree_id",
        make_text_argument("The worktree ID of the worker to close"),
    );
    let required = vec!["worktree_id"];
    proof {
        assert(required@.map_values(|s: &str| s@) =~= seq!["worktree_id"@]);
        assert(members_of(properties.tree()) =~= seq![
            ("worktree_id"@, text_argument("The worktree ID of the worker to close"@)),
        ]);
    }
    make_entry(
        "swarm_close_worker",
        "Close and clean up a swarm worker. Terminates the agent and removes the worktree.",
        make_schema(properties, required),
    )
}

fn make_list_entry() -> (r: Json)
    ensures
        r.tree() == list_entry(),
{
    let required: Vec<&str> = Vec::new();
    proof {
        assert(required@.map_values(|s: &str| s@) =~= Seq::<Seq<char>>::empty());
    }
    make_entry(
        "swarm_list_workers",
        "List all swarm workers in this workspace with their current status, phase, and PR info.",
        make_schema(object(), required),
    )
}

/// The tools that the server offers.
pub fn handle_tools_list(agent: &str) -> (r: Json)
    ensures
        r.tree() == tools_offered(agent@),
{
    let mut list: Vec<Json> = Vec::new();
    list.push(make_create_entry(agent));
    list.push(make_send_entry());
    list.push(make_close_entry());
    list.push(make_list_entry());
    proof {
        lemma_array_tree(list);
        assert(trees(list@) =~= seq![create_entry(agent@), send_entry(), close_entry(), list_entry()]);
    }
    let r = object().with("tools", Json::Array(list));
    proof {
        assert(members_of(r.tree()) =~= tools_offered(agent@)->Object_0);
    }
    r
}

// ---------------------------------------------------------------------------
// Requests
// ---------------------------------------------------------------------------

/// A tool that is to be run.
pub enum ToolCall {
    CreateWorker { prompt: String, agent: String, repo: Option<String> },
    SendMessage { worktree_id: String, message: String },
    CloseWorker { worktree_id: String },
    ListWorkers,
}

/// What a call of a tool comes to.
pub enum ToolPlan {
    /// The tool is to be run.
    Run(ToolCall),
    /// This is the result already.
    Result(Json),
    /// There is no such tool.
    Unknown(String),
}

/// The text among the arguments of a call, or another where there is none.
pub open spec fn argument(args: Tree, key: Seq<char>, otherwise: Seq<char>) -> Seq<char> {
    match text_field(args, key) {
        Some(s) => s,
        None => otherwise,
    }
}

/// The arguments of a call.
pub open spec fn arguments_of(params: Tree) -> Tree {
    match field(params, "arguments"@) {
        Some(a) => a,
        None => Tree::Object(seq![]),
    }
}

/// Whether `plan` is what a call of a tool comes to. `default_agent` works
/// where none is chosen.
pub open spec fn is_plan(plan: ToolPlan, params: Tree, default_agent: Seq<char>) -> bool {
    let name = argument(params, "name"@, seq![]);
    let args = arguments_of(params);
    if name == "swarm_create_worker"@ {
        let prompt = argument(args, "prompt"@, seq![]);
        if prompt.len() == 0 {
            plan is Result && plan->Result_0.tree() == error_result("prompt is required"@)
        } else {
            match plan {
                ToolPlan::Run(ToolCall::CreateWorker { prompt: p, agent, repo }) => {
                    &&& p@ == prompt
                    &&& agent@ == argument(args, "agent"@, default_agent)
                    &&& opt_text(repo) == text_field(args, "repo"@)
                },
                _ => false,
            }
        }
    } else if name == "swarm_send_message"@ {
        let id = argument(args, "worktree_id"@, seq![]);
        let message = argument(args, "message"@, seq![]);
        if id.len() == 0 || message.len() == 0 {
            plan is Result && plan->Result_0.tree() == error_result(
                "worktree_id and message are required"@,
            )
        } else {
            match plan {
                ToolPlan::Run(ToolCall::SendMessage { worktree_id, message: m }) => worktree_id@
                    == id && m@ == message,
                _ => false,
            }
        }
    } else if name == "swarm_close_worker"@ {
        let id = argument(args, "worktree_id"@, seq![]);
        if id.len() == 0 {
            plan is Result && plan->Result_0.tree() == error_result("worktree_id is required"@)
        } else {
            match plan {
                ToolPlan::Run(ToolCall::CloseWorker { worktree_id }) => worktree_id@ == id,
                _ => false,
            }
        }
    } else if name == "swarm_list_workers"@ {
        match plan {
            ToolPlan::Run(ToolCall::ListWorkers) => true,
            _ => false,
        }
    } else {
        plan is Unknown && plan->Unknown_0@ == name
    }
}

fn argument_or(args: &Json, key: &str, otherwise: &str) -> (r: String)
    ensures
        r@ == argument(args.tree(), key@, otherwise@),
{
    match args.text_field(key) {
        Some(s) => s,
        None => otherwise.to_owned(),
    }
}

/// What a call of a tool comes to.
pub fn plan_tool(params: &Json, default_agent: &str) -> (r: ToolPlan)
    ensures
        is_plan(r, params.tree(), default_agent@),
{
    proof {
        reveal_strlit("");
        assert(""@ =~= Seq::<char>::empty());
    }
    let name = argument_or(params, "name", "");
    let none = object();
    let args = match params.get("arguments") {
        Some(a) => a,
        None => &none,
    };
    if same(name.as_str(), "swarm_create_worker") {
        let prompt = argument_or(args, "prompt", "");
        if prompt.as_str().is_empty() {
            return ToolPlan::Result(tool_error("prompt is required"));
        }
        let agent = argument_or(args, "agent", default_agent);
        ToolPlan::Run(ToolCall::CreateWorker { prompt, agent, repo: args.text_field("repo") })
    } else if same(name.as_str(), "swarm_send_message") {
        let worktree_id = argument_or(args, "worktree_id", "");
        let message = argument_or(args, "message", "");
        if worktree_id.as_str().is_empty() || message.as_str().is_empty() {
            return ToolPlan::Result(tool_error("worktree_id and message are required"));
        }
        ToolPlan::Run(ToolCall::SendMessage { worktree_id, message })
    } else if same(name.as_str(), "swarm_close_worker") {
        let worktree_id = argument_or(args, "worktree_id", "");
        if worktree_id.as_str().is_empty() {
            return ToolPlan::Result(tool_error("worktree_id is required"));
        }
        ToolPlan::Run(ToolCall::CloseWorker { worktree_id })
    } else if same(name.as_str(), "swarm_list_workers") {
        ToolPlan::Run(ToolCall::ListWorkers)
    } else {
        ToolPlan::Unknown(name)
    }
}

/// What a message to the server comes to.
pub enum McpStep {
    /// Nothing is answered.
    Silent,
    /// This is answered.
    Answer(Json),
    /// A tool is to be run; its result is answered under this identifier.
    Run { id: Json, call: ToolCall },
}

/// The parameters of a request.
pub open spec fn params_of(msg: Tree) -> Tree {
    match field(msg, "params"@) {
        Some(p) => p,
        None => Tree::Object(seq![]),
    }
}

/// Whether `step` is what a message to the server comes to. `version` is that
/// of this program, and `agent` works where none is chosen.
pub open spec fn is_step(step: McpStep, msg: Tree, version: Seq<char>, agent: Seq<char>) -> bool {
    let method = argument(msg, "method"@, seq![]);
    match field(msg, "id"@) {
        None => step is Silent,
        Some(id) => if method == "initialize"@ {
            step is Answer && step->Answer_0.tree() == answer(id, server_info(version))
        } else if method == "tools/list"@ {
            step is Answer && step->Answer_0.tree() == answer(id, tools_offered(agent))
        } else if method == "tools/call"@ {
            exists|plan: ToolPlan| #[trigger]
                is_plan(plan, params_of(msg), agent) && match plan {
                    ToolPlan::Run(call) => match step {
                        McpStep::Run { id: i, call: c } => i.tree() == id && c == call,
                        _ => false,
                    },
                    ToolPlan::Result(v) => step is Answer && step->Answer_0.tree() == answer(
                        id,
                        v.tree(),
                    ),
                    ToolPlan::Unknown(name) => step is Answer && step->Answer_0.tree()
                        == answer_error(id, rpc_error(-32602, "unknown tool: "@ + name@)),
                }
        } else if method == "notifications/initialized"@ || method == "notifications/cancelled"@ {
            step is Silent
        } else if method == "ping"@ {
            step is Answer && step->Answer_0.tree() == answer(id, Tree::Object(seq![]))
        } else {
            step is Answer && step->Answer_0.tree() == answer_error(
                id,
                rpc_error(-32601, "method not found: "@ + method),
            )
        },
    }
}

/// What a message to the server comes to. `version` is that of this program,
/// and `agent` works where none is chosen.
pub fn handle_message(msg: &Json, version: &str, agent: &str) -> (r: McpStep)
    ensures
        is_step(r, msg.tree(), version@, agent@),
{
    proof {
        reveal_strlit("");
        assert(""@ =~= Seq::<char>::empty());
    }
    let id = match msg.get("id") {
        Some(v) => v,
        None => {
            return McpStep::Silent;
        },
    };
    let method = argument_or(msg, "method", "");
    let m = method.as_str();
    if same(m, "initialize") {
        McpStep::Answer(answer_ok(id, handle_initialize(version)))
    } else if same(m, "tools/list") {
        McpStep::Answer(answer_ok(id, handle_tools_list(agent)))
    } else if same(m, "tools/call") {
        let none = object();
        let params = match msg.get("params") {
            Some(p) => p,
            None => &none,
        };
        let plan = plan_tool(params, agent);
        let ghost known = plan;
        proof {
            assert(is_plan(known, params_of(msg.tree()), agent@));
        }
        match plan {
            ToolPlan::Run(call) => McpStep::Run { id: id.copy(), call },
            ToolPlan::Result(v) => McpStep::Answer(answer_ok(id, v)),
            ToolPlan::Unknown(name) => {
                let message = cat2("unknown tool: ", name.as_str());
                McpStep::Answer(answer_failed(id, -32602, message.as_str()))
            },
        }
    } else if same(m, "notifications/initialized") || same(m, "notifications/cancelled") {
        McpStep::Silent
    } else if same(m, "ping") {
        McpStep::Answer(answer_ok(id, object()))
    } else {
        let message = cat2("method not found: ", m);
        McpStep::Answer(answer_failed(id, -32601, message.as_str()))
    }
}

/// A message without an identifier is never answered.
pub proof fn law_notifications_are_not_answered(
    step: McpStep,
    msg: Tree,
    version: Seq<char>,
    agent: Seq<char>,
)
    requires
        is_step(step, msg, version, agent),
        field(msg, "id"@) is None,
    ensures
        step is Silent,
{
}

/// Every answer carries the identifier of the request that it answers, and so
/// does every tool that is run for one.
pub proof fn law_answers_carry_the_identifier(
    step: McpStep,
    msg: Tree,
    version: Seq<char>,
    agent: Seq<char>,
)
    requires
        is_step(step, msg, version, agent),
    ensures
        match step {
            McpStep::Silent => true,
            McpStep::Answer(reply) => field(reply.tree(), "id"@) == field(msg, "id"@),
            McpStep::Run { id, call } => field(msg, "id"@) == Some(id.tree()),
        },
{
    if let McpStep::Answer(reply) = step {
        let members = reply.tree()->Object_0;
        reveal_strlit("jsonrpc");
        reveal_strlit("id");
        assert("jsonrpc"@.len() == 7 && "id"@.len() == 2);
        lemma_member_at(members, "id"@);
        assert(members[0].0 == "jsonrpc"@ && members[1].0 == "id"@);
        assert(member_at(members, "id"@) == 1);
    }
}

// ---------------------------------------------------------------------------
// Results of tools
// ---------------------------------------------------------------------------

/// A worker, as the list of workers describes it.
pub struct WorkerSummary {
    pub id: String,
    pub branch: String,
    pub phase: String,
    pub agent: String,
    pub pr_url: Option<String>,
    pub pr_title: Option<String>,
}

/// What running a tool came to.
pub enum ToolOutcome {
    /// A worker was created; its identifier may not be known.
    Created(String),
    Sent,
    Closed,
    Listed(Vec<WorkerSummary>),
    /// It failed, for this reason.
    Failed(String),
    /// Listing the workers failed, for this reason.
    ListFailed(String),
}

/// A worker in the list of workers.
pub open spec fn summary_tree(w: WorkerSummary) -> Tree {
    Tree::Object(
        seq![
            ("id"@, Tree::Text(w.id@)),
            ("branch"@, Tree::Text(w.branch@)),
            ("phase"@, Tree::Text(lowercase(w.phase@))),
            ("agent"@, Tree::Text(w.agent@)),
            ("pr_url"@, text_or_null(opt_text(w.pr_url))),
            ("pr_title"@, text_or_null(opt_text(w.pr_title))),
        ],
    )
}

/// The list of workers.
pub open spec fn summary_trees(list: Seq<WorkerSummary>) -> Tree {
    Tree::Array(list.map_values(|w: WorkerSummary| summary_tree(w)))
}

/// The result of a tool, by what running it came to.
pub open spec fn result_of(outcome: ToolOutcome) -> Tree {
    match outcome {
        ToolOutcome::Created(id) => if id@.len() == 0 {
            ok_result("Worker created"@)
        } else {
            ok_result("Worker created: "@ + id@)
        },
        ToolOutcome::Sent => ok_result("Message sent"@),
        ToolOutcome::Closed => ok_result("Worker closed"@),
        ToolOutcome::Listed(list) => ok_result(pretty(stored(summary_trees(list@)))),
        ToolOutcome::Failed(e) => error_result(e@),
        ToolOutcome::ListFailed(e) => error_result("failed to list workers: "@ + e@),
    }
}

fn summary_json(w: &WorkerSummary) -> (r: Json)
    ensures
        r.tree() == summary_tree(*w),
{
    let phase = lowered(w.phase.as_str());
    let r = object().with("id", text(w.id.as_str())).with("branch", text(w.branch.as_str())).with(
        "phase",
        Json::Text(phase),
    ).with("agent", text(w.agent.as_str())).with("pr_url", optional_text(&w.pr_url)).with(
        "pr_title",
        optional_text(&w.pr_title),
    );
    proof {
        assert(members_of(r.tree()) =~= summary_tree(*w)->Object_0);
    }
    r
}

fn summaries(list: &Vec<WorkerSummary>) -> (r: Json)
    ensures
        r.tree() == summary_trees(list@),
{
    let mut items: Vec<Json> = Vec::new();
    let n: usize = list.len();
    let mut i: usize = 0;
    while i < n
        invariant
            n == list@.len(),
            0 <= i <= n,
            items@.len() == i,
            forall|j: int| 0 <= j < i ==> (#[trigger] items@[j]).tree() == summary_tree(list@[j]),
        decreases n - i,
    {
        items.push(summary_json(&list[i]));
        i = i + 1;
    }
    proof {
        lemma_array_tree(items);
        assert(trees(items@) =~= list@.map_values(|w: WorkerSummary| summary_tree(w)));
    }
    Json::Array(items)
}

/// The result of a tool, by what running it came to.
pub fn tool_result(outcome: &ToolOutcome) -> (r: Json)
    ensures
        r.tree() == result_of(*outcome),
{
    match outcome {
        ToolOutcome::Created(id) => if id.as_str().is_empty() {
            tool_ok("Worker created")
        } else {
            let s = cat2("Worker created: ", id.as_str());
            tool_ok(s.as_str())
        },
        ToolOutcome::Sent => tool_ok("Message sent"),
        ToolOutcome::Closed => tool_ok("Worker closed"),
        ToolOutcome::Listed(list) => {
            let s = render_pretty(&summaries(list));
            tool_ok(s.as_str())
        },
        ToolOutcome::Failed(e) => tool_error(e.as_str()),
        ToolOutcome::ListFailed(e) => {
            let s = cat2("failed to list workers: ", e.as_str());
            tool_error(s.as_str())
        },
    }
}

// ---------------------------------------------------------------------------
// The worker manager's own answers
// ---------------------------------------------------------------------------

/// An answer of the worker manager's daemon.
pub enum SwarmResponse {
    Done { data: Option<Json> },
    Error { message: String },
    Other,
}

/// The identifier of a worker that the daemon was asked to create.
pub fn created_worker(response: &SwarmResponse) -> (r: Result<String, String>)
    ensures
        match *response {
            SwarmResponse::Done { data: Some(d) } => match text_field(d.tree(), "worktree_id"@) {
                Some(id) => r is Ok && r->Ok_0@ == id,
                None => r is Err && r->Err_0@ == "no worktree_id in swarm create response"@,
            },
            SwarmResponse::Error { message } => r is Err && r->Err_0@ == "swarm create failed: "@
                + message@,
            _ => r is Err && r->Err_0@ == "unexpected response from swarm daemon"@,
        },
{
    match response {
        SwarmResponse::Done { data } => match data {
            Some(d) => match d.text_field("worktree_id") {
                Some(id) => Ok(id),
                None => Err("no worktree_id in swarm create response".to_owned()),
            },
            None => Err("unexpected response from swarm daemon".to_owned()),
        },
        SwarmResponse::Error { message } => Err(cat2("swarm create failed: ", message.as_str())),
        SwarmResponse::Other => Err("unexpected response from swarm daemon".to_owned()),
    }
}

/// Whether the daemon has passed a message on.
pub fn sent_message(response: &SwarmResponse) -> (r: Result<(), String>)
    ensures
        match *response {
            SwarmResponse::Done { data } => r is Ok,
            SwarmResponse::Error { message } => r is Err && r->Err_0@ == "swarm send failed: "@
                + message@,
            SwarmResponse::Other => r is Err && r->Err_0@
                == "unexpected response from swarm daemon"@,
        },
{
    match response {
        SwarmResponse::Done { data } => Ok(()),
        SwarmResponse::Error { message } => Err(cat2("swarm send failed: ", message.as_str())),
        SwarmResponse::Other => Err("unexpected response from swarm daemon".to_owned()),
    }
}

proof fn lemma_tool_names()
    ensures
        "swarm_create_worker"@ != "swarm_send_message"@,
        "swarm_create_worker"@ != "swarm_close_worker"@,
        "swarm_create_worker"@ != "swarm_list_workers"@,
        "swarm_send_message"@ != "swarm_close_worker"@,
        "swarm_send_message"@ != "swarm_list_workers"@,
        "swarm_close_worker"@ != "swarm_list_workers"@,
{
    reveal_strlit("swarm_create_worker");
    reveal_strlit("swarm_send_message");
    reveal_strlit("swarm_close_worker");
    reveal_strlit("swarm_list_workers");
    assert("swarm_create_worker"@[7] == 'r' && "swarm_create_worker"@[6] == 'c');
    assert("swarm_close_worker"@[7] == 'l' && "swarm_close_worker"@[6] == 'c');
    assert("swarm_send_message"@[6] == 's' && "swarm_list_workers"@[6] == 'l');
}

/// A worker is created on the prompt of a call, with the agent and in the
/// repository that the call names; without a prompt it is refused.
pub proof fn law_worker_is_created_on_its_prompt(
    plan: ToolPlan,
    params: Tree,
    default_agent: Seq<char>,
    prompt: Seq<char>,
)
    requires
        is_plan(plan, params, default_agent),
        text_field(params, "name"@) == Some("swarm_create_worker"@),
    ensures
        text_field(arguments_of(params), "prompt"@) == Some(prompt) && prompt.len() > 0 ==> {
            &&& plan is Run
            &&& plan->Run_0 is CreateWorker
            &&& plan->Run_0->CreateWorker_prompt@ == prompt
            &&& text_field(arguments_of(params), "agent"@) is Some
                ==> plan->Run_0->CreateWorker_agent@ == text_field(
                arguments_of(params),
                "agent"@,
            )->0
            &&& text_field(arguments_of(params), "agent"@) is None
                ==> plan->Run_0->CreateWorker_agent@ == default_agent
            &&& opt_text(plan->Run_0->CreateWorker_repo) == text_field(
                arguments_of(params),
                "repo"@,
            )
        },
        text_field(arguments_of(params), "prompt"@) is None || text_field(
            arguments_of(params),
            "prompt"@,
        )->0.len() == 0 ==> plan is Result && plan->Result_0.tree() == error_result(
            "prompt is required"@,
        ),
{
}

/// A message goes to the worker that the call names; a call that lacks either is
/// refused.
pub proof fn law_message_goes_to_the_named_worker(
    plan: ToolPlan,
    params: Tree,
    default_agent: Seq<char>,
    id: Seq<char>,
    message: Seq<char>,
)
    requires
        is_plan(plan, params, default_agent),
        text_field(params, "name"@) == Some("swarm_send_message"@),
    ensures
        text_field(arguments_of(params), "worktree_id"@) == Some(id) && text_field(
            arguments_of(params),
            "message"@,
        ) == Some(message) && id.len() > 0 && message.len() > 0 ==> plan is Run
            && plan->Run_0 is SendMessage && plan->Run_0->SendMessage_worktree_id@ == id
            && plan->Run_0->SendMessage_message@ == message,
        text_field(arguments_of(params), "worktree_id"@) is None || text_field(
            arguments_of(params),
            "message"@,
        ) is None || text_field(arguments_of(params), "worktree_id"@)->0.len() == 0
            || text_field(arguments_of(params), "message"@)->0.len() == 0 ==> plan is Result
            && plan->Result_0.tree() == error_result("worktree_id and message are required"@),
{
    lemma_tool_names();
}

/// The worker that a call names is closed, the workers are listed for whoever
/// asks, and a tool that is not offered is not known.
pub proof fn law_workers_are_closed_and_listed(
    plan: ToolPlan,
    params: Tree,
    default_agent: Seq<char>,
    id: Seq<char>,
)
    requires
        is_plan(plan, params, default_agent),
    ensures
        text_field(params, "name"@) == Some("swarm_close_worker"@) && text_field(
            arguments_of(params),
            "worktree_id"@,
        ) == Some(id) && id.len() > 0 ==> plan is Run && plan->Run_0 is CloseWorker
            && plan->Run_0->CloseWorker_worktree_id@ == id,
        text_field(params, "name"@) == Some("swarm_close_worker"@) && (text_field(
            arguments_of(params),
            "worktree_id"@,
        ) is None || text_field(arguments_of(params), "worktree_id"@)->0.len() == 0) ==> plan
            is Result && plan->Result_0.tree() == error_result("worktree_id is required"@),
        text_field(params, "name"@) == Some("swarm_list_workers"@) ==> plan is Run && plan->Run_0
            is ListWorkers,
        text_field(params, "name"@) is Some && text_field(params, "name"@)->0
            != "swarm_create_worker"@ && text_field(params, "name"@)->0 != "swarm_send_message"@
            && text_field(params, "name"@)->0 != "swarm_close_worker"@ && text_field(
            params,
            "name"@,
        )->0 != "swarm_list_workers"@ ==> plan is Unknown && plan->Unknown_0@ == text_field(
            params,
            "name"@,
        )->0,
{
    lemma_tool_names();
}

/// A request is answered by its method: what the server is, what it offers, an
/// empty answer to a ping, and an error to a method that is not known.
pub proof fn law_requests_are_answered_by_method(
    step: McpStep,
    msg: Tree,
    version: Seq<char>,
    agent: Seq<char>,
    id: Tree,
    method: Seq<char>,
)
    requires
        is_step(step, msg, version, agent),
        field(msg, "id"@) == Some(id),
        text_field(msg, "method"@) == Some(method),
    ensures
        method == "initialize"@ ==> step is Answer && step->Answer_0.tree() == answer(
            id,
            server_info(version),
        ),
        method == "tools/list"@ ==> step is Answer && step->Answer_0.tree() == answer(
            id,
            tools_offered(agent),
        ),
        method == "ping"@ ==> step is Answer && step->Answer_0.tree() == answer(
            id,
            Tree::Object(seq![]),
        ),
        method == "notifications/initialized"@ || method == "notifications/cancelled"@ ==> step
            is Silent,
        method != "initialize"@ && method != "tools/list"@ && method != "tools/call"@ && method
            != "ping"@ && method != "notifications/initialized"@ && method
            != "notifications/cancelled"@ ==> step is Answer && step->Answer_0.tree()
            == answer_error(id, rpc_error(-32601, "method not found: "@ + method)),
{
    reveal_strlit("initialize");
    reveal_strlit("tools/list");
    reveal_strlit("tools/call");
    reveal_strlit("ping");
    reveal_strlit("notifications/initialized");
    reveal_strlit("notifications/cancelled");
    assert("initialize"@[0] == 'i' && "tools/list"@[0] == 't' && "tools/call"@[0] == 't'
        && "ping"@[0] == 'p' && "notifications/initialized"@[0] == 'n'
        && "notifications/cancelled"@[0] == 'n');
    assert("tools/list"@[6] == 'l' && "tools/call"@[6] == 'c');
}

/// The call of a tool runs it, or is answered with what is wrong with the call,
/// and with an error where the tool is not known.
pub proof fn law_called_tools_run(
    step: McpStep,
    msg: Tree,
    version: Seq<char>,
    agent: Seq<char>,
    id: Tree,
)
    requires
        is_step(step, msg, version, agent),
        field(msg, "id"@) == Some(id),
        text_field(msg, "method"@) == Some("tools/call"@),
    ensures
        !(step is Silent),
        text_field(params_of(msg), "name"@) == Some("swarm_list_workers"@) ==> step is Run
            && step->Run_call is ListWorkers && step->Run_id.tree() == id,
        step is Run ==> exists|plan: ToolPlan|
            #![trigger is_plan(plan, params_of(msg), agent)]
            is_plan(plan, params_of(msg), agent) && plan is Run && plan->Run_0 == step->Run_call,
{
    lemma_tool_names();
    reveal_strlit("initialize");
    reveal_strlit("tools/list");
    reveal_strlit("tools/call");
    assert("initialize"@[0] == 'i' && "tools/call"@[0] == 't');
    assert("tools/list"@[6] == 'l' && "tools/call"@[6] == 'c');
}

/// What became of a call is told: success with what was made, failure marked as
/// an error with its reason.
pub proof fn law_outcome_is_told(outcome: ToolOutcome)
    ensures
        outcome is Created && outcome->Created_0@.len() > 0 ==> result_of(outcome) == ok_result(
            "Worker created: "@ + outcome->Created_0@,
        ),
        outcome is Sent ==> result_of(outcome) == ok_result("Message sent"@),
        outcome is Closed ==> result_of(outcome) == ok_result("Worker closed"@),
        outcome is Failed ==> result_of(outcome) == error_result(outcome->Failed_0@),
        outcome is ListFailed ==> result_of(outcome) == error_result(
            "failed to list workers: "@ + outcome->ListFailed_0@,
        ),
        field(result_of(outcome), "isError"@) == Some(Tree::Bool(true)) <==> outcome is Failed
            || outcome is ListFailed,
{
    reveal_strlit("content");
    reveal_strlit("isError");
    assert("content"@[0] == 'c' && "isError"@[0] == 'i');
    let t = result_of(outcome);
    lemma_member_at(t->Object_0, "isError"@);
    if outcome is Failed || outcome is ListFailed {
        lemma_field_is(t, "isError"@, 1);
    }
}

/// The four tools are offered under their names, each with what it requires, and
/// no other is.
pub proof fn law_four_tools_are_offered(agent: Seq<char>)
    ensures
        array_field(tools_offered(agent), "tools"@) is Some,
        array_field(tools_offered(agent), "tools"@)->0.len() == 4,
        text_field(array_field(tools_offered(agent), "tools"@)->0[0], "name"@) == Some(
            "swarm_create_worker"@,
        ),
        text_field(array_field(tools_offered(agent), "tools"@)->0[1], "name"@) == Some(
            "swarm_send_message"@,
        ),
        text_field(array_field(tools_offered(agent), "tools"@)->0[2], "name"@) == Some(
            "swarm_close_worker"@,
        ),
        text_field(array_field(tools_offered(agent), "tools"@)->0[3], "name"@) == Some(
            "swarm_list_workers"@,
        ),
        required_by(create_entry(agent)) == Some(seq![Tree::Text("prompt"@)]),
        required_by(send_entry()) == Some(
            seq![Tree::Text("worktree_id"@), Tree::Text("message"@)],
        ),
        required_by(close_entry()) == Some(seq![Tree::Text("worktree_id"@)]),
        required_by(list_entry()) is None,
{
    let t = tools_offered(agent);
    lemma_field_is(t, "tools"@, 0);
    lemma_entry_requires(create_entry(agent), 1);
    lemma_entry_requires(send_entry(), 2);
    lemma_entry_requires(close_entry(), 1);
    lemma_entry_requires(list_entry(), 0);
    lemma_field_is(create_entry(agent), "name"@, 0);
    lemma_field_is(send_entry(), "name"@, 0);
    lemma_field_is(close_entry(), "name"@, 0);
    lemma_field_is(list_entry(), "name"@, 0);
    let f = |s: Seq<char>| Tree::Text(s);
    assert(seq!["prompt"@].map_values(f) =~= seq![Tree::Text("prompt"@)]);
    assert(seq!["worktree_id"@].map_values(f) =~= seq![Tree::Text("worktree_id"@)]);
    assert(seq!["worktree_id"@, "message"@].map_values(f) =~= seq![
        Tree::Text("worktree_id"@),
        Tree::Text("message"@),
    ]);
}

/// The arguments that a tool cannot do without.
pub open spec fn required_by(entry: Tree) -> Option<Seq<Tree>> {
    match field(entry, "inputSchema"@) {
        Some(input) => array_field(input, "required"@),
        None => None,
    }
}

proof fn lemma_entry_requires(entry: Tree, n: int)
    requires
        entry is Object,
        entry->Object_0.len() == 3,
        (entry->Object_0[0]).0 == "name"@,
        (entry->Object_0[1]).0 == "description"@,
        (entry->Object_0[2]).0 == "inputSchema"@,
        (entry->Object_0[2]).1 is Object,
        (entry->Object_0[2]).1->Object_0.len() == (if n == 0 {
            2int
        } else {
            3
        }),
        (((entry->Object_0[2]).1)->Object_0[0]).0 == "type"@,
        (((entry->Object_0[2]).1)->Object_0[1]).0 == "properties"@,
        n > 0 ==> (((entry->Object_0[2]).1)->Object_0[2]).0 == "required"@,
    ensures
        field(entry, "inputSchema"@) == Some((entry->Object_0[2]).1),
        n > 0 ==> field((entry->Object_0[2]).1, "required"@) == Some(
            (((entry->Object_0[2]).1)->Object_0[2]).1,
        ),
        n == 0 ==> field((entry->Object_0[2]).1, "required"@) is None,
{
    reveal_strlit("name");
    reveal_strlit("description");
    reveal_strlit("inputSchema");
    reveal_strlit("type");
    reveal_strlit("properties");
    reveal_strlit("required");
    assert("name"@[0] == 'n' && "description"@[0] == 'd' && "inputSchema"@[0] == 'i');
    assert("type"@[0] == 't' && "properties"@[0] == 'p' && "required"@[0] == 'r');
    lemma_field_is(entry, "inputSchema"@, 2);
    let s = (entry->Object_0[2]).1;
    if n > 0 {
        lemma_field_is(s, "required"@, 2);
    } else {
        lemma_member_at(s->Object_0, "required"@);
    }
}

/// A line ends behind its line feed, and nothing before that is one.
pub proof fn law_lines_end_behind_the_feed(input: Seq<u8>, at: int)
    requires
        0 <= at <= input.len(),
    ensures
        at <= line_end(input, at) <= input.len(),
        forall|i: int| at <= i < line_end(input, at) - 1 ==> #[trigger] input[i] != 10,
        line_end(input, at) < input.len() && at < input.len() ==> input[line_end(input, at) - 1]
            == 10,
    decreases input.len() - at,
{
    if at < input.len() && input[at] != 10 {
        law_lines_end_behind_the_feed(input, at + 1);
    }
}

/// A body has as many bytes as its header tells; without a length, or where
/// fewer bytes follow, reading fails.
pub proof fn law_body_is_as_long_as_told(input: Seq<u8>, at: int, n: nat)
    requires
        0 <= at,
    ensures
        body_at(input, at, None) is Failed,
        at + n > input.len() ==> body_at(input, at, Some(n)) is Failed,
        at + n <= input.len() && spelled(input.subrange(at, at + n)) is Some ==> body_at(
            input,
            at,
            Some(n),
        ) == Frame::Message(spelled(input.subrange(at, at + n))->0, at + n),
        at + n <= input.len() && spelled(input.subrange(at, at + n)) is None ==> body_at(
            input,
            at,
            Some(n),
        ) is Failed,
{
}

/// The server tells its protocol, its name and its version, and that it offers
/// tools.
pub proof fn law_server_tells_what_it_is(version: Seq<char>)
    ensures
        text_field(server_info(version), "protocolVersion"@) == Some("2024-11-05"@),
        field(server_info(version), "serverInfo"@) is Some,
        text_field(field(server_info(version), "serverInfo"@)->0, "name"@) == Some(
            "apiari-swarm"@,
        ),
        text_field(field(server_info(version), "serverInfo"@)->0, "version"@) == Some(version),
        field(server_info(version), "capabilities"@) is Some,
        field(field(server_info(version), "capabilities"@)->0, "tools"@) == Some(
            Tree::Object(seq![]),
        ),
{
    reveal_strlit("protocolVersion");
    reveal_strlit("capabilities");
    reveal_strlit("serverInfo");
    reveal_strlit("name");
    reveal_strlit("version");
    assert("protocolVersion"@[0] == 'p' && "capabilities"@[0] == 'c' && "serverInfo"@[0] == 's');
    assert("name"@[0] == 'n' && "version"@[0] == 'v');
    let t = server_info(version);
    lemma_field_is(t, "protocolVersion"@, 0);
    lemma_field_is(t, "capabilities"@, 1);
    lemma_field_is(t, "serverInfo"@, 2);
    lemma_field_is((t->Object_0[1]).1, "tools"@, 0);
    lemma_field_is((t->Object_0[2]).1, "name"@, 0);
    lemma_field_is((t->Object_0[2]).1, "version"@, 1);
}

/// An answer has a result or an error, never both, and an error its code and
/// message.
pub proof fn law_answer_or_error(id: Tree, result: Tree, code: int, message: Seq<char>)
    ensures
        field(answer(id, result), "result"@) == Some(result),
        field(answer(id, result), "error"@) is None,
        field(answer(id, result), "id"@) == Some(id),
        text_field(answer(id, result), "jsonrpc"@) == Some("2.0"@),
        field(answer_error(id, result), "error"@) == Some(result),
        field(answer_error(id, result), "result"@) is None,
        field(answer_error(id, result), "id"@) == Some(id),
        text_field(answer_error(id, result), "jsonrpc"@) == Some("2.0"@),
        field(rpc_error(code, message), "code"@) == Some(Tree::Number(code)),
        text_field(rpc_error(code, message), "message"@) == Some(message),
{
    reveal_strlit("jsonrpc");
    reveal_strlit("id");
    reveal_strlit("result");
    reveal_strlit("error");
    reveal_strlit("code");
    reveal_strlit("message");
    assert("jsonrpc"@[0] == 'j' && "id"@[0] == 'i' && "result"@[0] == 'r' && "error"@[0] == 'e'
        && "code"@[0] == 'c' && "message"@[0] == 'm');
    let a = answer(id, result);
    let e = answer_error(id, result);
    lemma_field_is(a, "jsonrpc"@, 0);
    lemma_field_is(a, "id"@, 1);
    lemma_field_is(a, "result"@, 2);
    lemma_member_at(a->Object_0, "error"@);
    lemma_field_is(e, "jsonrpc"@, 0);
    lemma_field_is(e, "id"@, 1);
    lemma_field_is(e, "error"@, 2);
    lemma_member_at(e->Object_0, "result"@);
    lemma_field_is(rpc_error(code, message), "code"@, 0);
    lemma_field_is(rpc_error(code, message), "message"@, 1);
}

/// What a tool gives is a text, and a worker is listed with its branch, phase
/// and agent.
pub proof fn law_texts_and_workers_are_told(s: Seq<char>, w: WorkerSummary)
    ensures
        array_field(ok_result(s), "content"@) == Some(seq![content_item(s)]),
        array_field(error_result(s), "content"@) == Some(seq![content_item(s)]),
        text_field(content_item(s), "type"@) == Some("text"@),
        text_field(content_item(s), "text"@) == Some(s),
        text_field(summary_tree(w), "id"@) == Some(w.id@),
        text_field(summary_tree(w), "branch"@) == Some(w.branch@),
        text_field(summary_tree(w), "phase"@) == Some(lowercase(w.phase@)),
        text_field(summary_tree(w), "agent"@) == Some(w.agent@),
        text_field(summary_tree(w), "pr_url"@) == opt_text(w.pr_url),
        text_field(summary_tree(w), "pr_title"@) == opt_text(w.pr_title),
{
    reveal_strlit("type");
    reveal_strlit("text");
    reveal_strlit("id");
    reveal_strlit("branch");
    reveal_strlit("phase");
    reveal_strlit("agent");
    reveal_strlit("pr_url");
    reveal_strlit("pr_title");
    assert("type"@[1] == 'y' && "text"@[1] == 'e');
    assert("id"@.len() == 2 && "branch"@.len() == 6 && "phase"@.len() == 5 && "agent"@.len() == 5
        && "pr_url"@.len() == 6 && "pr_title"@.len() == 8);
    assert("branch"@[0] == 'b' && "pr_url"@[0] == 'p' && "phase"@[0] == 'p' && "agent"@[0] == 'a');
    lemma_field_is(ok_result(s), "content"@, 0);
    lemma_field_is(error_result(s), "content"@, 0);
    lemma_field_is(content_item(s), "type"@, 0);
    lemma_field_is(content_item(s), "text"@, 1);
    let t = summary_tree(w);
    lemma_field_is(t, "id"@, 0);
    lemma_field_is(t, "branch"@, 1);
    lemma_field_is(t, "phase"@, 2);
    lemma_field_is(t, "agent"@, 3);
    lemma_field_is(t, "pr_url"@, 4);
    lemma_field_is(t, "pr_title"@, 5);
}

/// Reading fails in words: where a header is no text, where it tells no length,
/// and where a body is cut short.
pub proof fn law_unreadable_frames_say_why(input: Seq<u8>, at: int, known: Option<nat>, n: nat)
    requires
        0 <= at < input.len(),
    ensures
        !valid_utf8(input.subrange(at, line_end(input, at))) ==> message_at(input, at, known)
            == Frame::Failed("header read: stream did not contain valid UTF-8"@),
        body_at(input, at, None) == Frame::Failed("missing Content-Length header"@),
        at + n > input.len() ==> body_at(input, at, Some(n)) == Frame::Failed(
            "body read: failed to fill whole buffer"@,
        ),
        at + n <= input.len() && spelled(input.subrange(at, at + n)) is None ==> body_at(
            input,
            at,
            Some(n),
        ) == Frame::Failed("json parse: "@ + read_slice(input.subrange(at, at + n))->Err_0),
{
}

} // verus!
