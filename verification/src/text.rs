//! Text as sequences of characters: the vocabulary in which the rest of the
//! crate states what it reads and writes.

use vstd::prelude::*;

verus! {

/// `str::eq` of std: two string slices are equal when they hold the same
/// characters.
pub assume_specification[ <str as PartialEq>::eq ](left: &str, right: &str) -> (r: bool)
    ensures
        r == (left@ == right@),
;

/// `String::push` of std: appends one character.
pub assume_specification[ String::push ](buffer: &mut String, ch: char)
    ensures
        final(buffer)@ == old(buffer)@.push(ch),
;

/// `String::push_str` of std: appends a string slice.
pub assume_specification[ String::push_str ](buffer: &mut String, addition: &str)
    ensures
        final(buffer)@ == old(buffer)@ + addition@,
;

/// What `str::to_lowercase` of std makes of a text.
pub uninterp spec fn lowercase(s: Seq<char>) -> Seq<char>;

/// `str::to_lowercase` of std: the text in lower case by Unicode's tables, a
/// function of the text alone.
#[verifier::external_body]
pub(crate) fn lowered(s: &str) -> (r: String)
    ensures
        r@ == lowercase(s@),
{
    s.to_lowercase()
}

// ---------------------------------------------------------------------------
// Views of strings inside containers
// ---------------------------------------------------------------------------

/// The characters of each string of a list.
pub open spec fn texts(list: Seq<String>) -> Seq<Seq<char>> {
    list.map_values(|s: String| s@)
}

/// The characters of an optional string.
pub open spec fn opt_text(text: Option<String>) -> Option<Seq<char>> {
    match text {
        Some(s) => Some(s@),
        None => None,
    }
}

// ---------------------------------------------------------------------------
// Whitespace and trimming
// ---------------------------------------------------------------------------

/// The characters with Unicode's White_Space property.
pub open spec fn is_white(c: char) -> bool {
    let n = c as u32;
    ||| 9 <= n <= 13
    ||| n == 32
    ||| n == 0x85
    ||| n == 0xA0
    ||| n == 0x1680
    ||| 0x2000 <= n <= 0x200A
    ||| n == 0x2028
    ||| n == 0x2029
    ||| n == 0x202F
    ||| n == 0x205F
    ||| n == 0x3000
}

/// A text without the whitespace that it starts with.
pub open spec fn trim_start(s: Seq<char>) -> Seq<char>
    decreases s.len(),
{
    if s.len() > 0 && is_white(s[0]) {
        trim_start(s.drop_first())
    } else {
        s
    }
}

/// A text without the whitespace that it ends with.
pub open spec fn trim_end(s: Seq<char>) -> Seq<char>
    decreases s.len(),
{
    if s.len() > 0 && is_white(s.last()) {
        trim_end(s.drop_last())
    } else {
        s
    }
}

/// A text without the whitespace at both its ends.
pub open spec fn trim(s: Seq<char>) -> Seq<char> {
    trim_end(trim_start(s))
}

// ---------------------------------------------------------------------------
// Searching
// ---------------------------------------------------------------------------

/// Whether `p` stands in `s` at position `i`.
pub open spec fn occurs_at(s: Seq<char>, p: Seq<char>, i: int) -> bool {
    0 <= i && i + p.len() <= s.len() && s.subrange(i, i + p.len()) == p
}

/// Whether `p` stands anywhere in `s`.
pub open spec fn contains(s: Seq<char>, p: Seq<char>) -> bool {
    exists|i: int| occurs_at(s, p, i)
}

/// Whether `s` starts with `p`.
pub open spec fn starts_with(s: Seq<char>, p: Seq<char>) -> bool {
    occurs_at(s, p, 0)
}

/// Whether `s` ends with `p`.
pub open spec fn ends_with(s: Seq<char>, p: Seq<char>) -> bool {
    occurs_at(s, p, s.len() - p.len())
}

/// How many characters of `s` stand before the first `c`: all of them where
/// `c` does not occur.
pub open spec fn before(s: Seq<char>, c: char) -> int
    decreases s.len(),
{
    if s.len() == 0 || s[0] == c {
        0
    } else {
        1 + before(s.drop_first(), c)
    }
}

/// The first position from `from` on at which `p` stands in `s`.
pub open spec fn find_from(s: Seq<char>, p: Seq<char>, from: int) -> Option<int>
    decreases s.len() + 1 - from,
{
    if from < 0 || from + p.len() > s.len() {
        None
    } else if occurs_at(s, p, from) {
        Some(from)
    } else {
        find_from(s, p, from + 1)
    }
}

// ---------------------------------------------------------------------------
// Splitting and joining
// ---------------------------------------------------------------------------

/// The pieces of `s` between the characters `c`.
pub open spec fn split(s: Seq<char>, c: char) -> Seq<Seq<char>>
    decreases s.len(),
{
    let k = before(s, c);
    if 0 <= k < s.len() {
        seq![s.take(k)] + split(s.skip(k + 1), c)
    } else {
        seq![s]
    }
}

/// A line without the carriage return that ended it.
pub open spec fn strip_return(s: Seq<char>) -> Seq<char> {
    if s.len() > 0 && s.last() == '\r' {
        s.drop_last()
    } else {
        s
    }
}

/// The lines of a text: the pieces that a line feed ends, each without its
/// line ending, and what follows the last line feed where that is not empty.
pub open spec fn lines(s: Seq<char>) -> Seq<Seq<char>>
    decreases s.len(),
{
    let k = before(s, '\n');
    if s.len() == 0 {
        seq![]
    } else if 0 <= k < s.len() {
        seq![strip_return(s.take(k))] + lines(s.skip(k + 1))
    } else {
        seq![s]
    }
}

/// The texts of a list with `sep` between each two of them.
pub open spec fn join(parts: Seq<Seq<char>>, sep: Seq<char>) -> Seq<char>
    decreases parts.len(),
{
    if parts.len() == 0 {
        seq![]
    } else if parts.len() == 1 {
        parts[0]
    } else {
        join(parts.drop_last(), sep) + sep + parts.last()
    }
}

/// Every occurrence of `p` in `s`, from the left, replaced by `r`.
pub open spec fn replace(s: Seq<char>, p: Seq<char>, r: Seq<char>) -> Seq<char>
    decreases s.len(),
{
    match find_from(s, p, 0) {
        Some(i) => if p.len() > 0 && 0 <= i && i + p.len() <= s.len() {
            s.take(i) + r + replace(s.skip(i + p.len()), p, r)
        } else {
            s
        },
        None => s,
    }
}

// ---------------------------------------------------------------------------
// Numbers
// ---------------------------------------------------------------------------

/// The character of a decimal digit.
pub open spec fn digit(d: int) -> char {
    if d == 0 { '0' }
    else if d == 1 { '1' }
    else if d == 2 { '2' }
    else if d == 3 { '3' }
    else if d == 4 { '4' }
    else if d == 5 { '5' }
    else if d == 6 { '6' }
    else if d == 7 { '7' }
    else if d == 8 { '8' }
    else { '9' }
}

/// The decimal notation of a natural number.
pub open spec fn digits(n: nat) -> Seq<char>
    decreases n,
{
    if n < 10 {
        seq![digit(n as int)]
    } else {
        digits(n / 10).push(digit((n % 10) as int))
    }
}

/// The decimal notation of an integer.
pub open spec fn decimal(n: int) -> Seq<char> {
    if n < 0 {
        seq!['-'] + digits((-n) as nat)
    } else {
        digits(n as nat)
    }
}

// ---------------------------------------------------------------------------
// Lemmas
// ---------------------------------------------------------------------------

/// `before` stops at the first `c`, and nothing before it is `c`.
pub proof fn lemma_before(s: Seq<char>, c: char)
    ensures
        0 <= before(s, c) <= s.len(),
        forall|i: int| 0 <= i < before(s, c) ==> s[i] != c,
        before(s, c) < s.len() ==> s[before(s, c)] == c,
    decreases s.len(),
{
    if s.len() > 0 && s[0] != c {
        let t = s.drop_first();
        lemma_before(t, c);
        assert forall|i: int| 0 <= i < before(s, c) implies s[i] != c by {
            if i > 0 {
                assert(s[i] == t[i - 1]);
            }
        }
        if before(s, c) < s.len() {
            assert(s[before(s, c)] == t[before(t, c)]);
        }
    }
}

/// `before` is the only position with nothing but other characters in front
/// of it and `c`, or the end, at it.
pub proof fn lemma_before_is(s: Seq<char>, c: char, k: int)
    requires
        0 <= k <= s.len(),
        forall|i: int| 0 <= i < k ==> s[i] != c,
        k < s.len() ==> s[k] == c,
    ensures
        before(s, c) == k,
{
    lemma_before(s, c);
    let b = before(s, c);
    if b < k {
        assert(s[b] == c);
    } else if k < b {
        assert(s[k] != c);
    }
}

/// Joining one more text adds the separator and the text.
pub proof fn lemma_join_push(parts: Seq<Seq<char>>, sep: Seq<char>, last: Seq<char>)
    ensures
        parts.len() > 0 ==> join(parts.push(last), sep) == join(parts, sep) + sep + last,
        parts.len() == 0 ==> join(parts.push(last), sep) == last,
{
    assert(parts.push(last).drop_last() =~= parts);
}

/// Where trimming the start of a text ends.
pub proof fn lemma_trim_start(s: Seq<char>, k: int)
    requires
        0 <= k <= s.len(),
        forall|i: int| 0 <= i < k ==> is_white(s[i]),
        k < s.len() ==> !is_white(s[k]),
    ensures
        trim_start(s) == s.skip(k),
    decreases s.len(),
{
    if k == 0 {
        assert(s.skip(0) =~= s);
    } else {
        let t = s.drop_first();
        assert forall|i: int| 0 <= i < k - 1 implies is_white(t[i]) by {
            assert(t[i] == s[i + 1]);
        }
        lemma_trim_start(t, k - 1);
        assert(t.skip(k - 1) =~= s.skip(k));
    }
}

/// Where trimming the end of a text stops.
pub proof fn lemma_trim_end(s: Seq<char>, k: int)
    requires
        0 <= k <= s.len(),
        forall|i: int| k <= i < s.len() ==> is_white(s[i]),
        0 < k ==> !is_white(s[k - 1]),
    ensures
        trim_end(s) == s.take(k),
    decreases s.len(),
{
    if k == s.len() {
        assert(s.take(k) =~= s);
    } else {
        lemma_trim_end(s.drop_last(), k);
        assert(s.drop_last().take(k) =~= s.take(k));
    }
}

/// The search from `from` on finds exactly the first occurrence.
pub proof fn lemma_find_from(s: Seq<char>, p: Seq<char>, from: int)
    requires
        0 <= from,
    ensures
        match find_from(s, p, from) {
            Some(k) => {
                &&& from <= k
                &&& occurs_at(s, p, k)
                &&& forall|i: int| from <= i < k ==> !occurs_at(s, p, i)
            },
            None => forall|i: int| from <= i ==> !occurs_at(s, p, i),
        },
    decreases s.len() + 1 - from,
{
    if from + p.len() <= s.len() && !occurs_at(s, p, from) {
        lemma_find_from(s, p, from + 1);
    }
}

/// A text contains another exactly where the search for it succeeds.
pub proof fn lemma_contains_find(s: Seq<char>, p: Seq<char>)
    ensures
        contains(s, p) <==> find_from(s, p, 0) is Some,
{
    lemma_find_from(s, p, 0);
    if contains(s, p) {
        let i = choose|i: int| occurs_at(s, p, i);
        assert(occurs_at(s, p, i));
    }
}

// ---------------------------------------------------------------------------
// Characters and strings
// ---------------------------------------------------------------------------

/// The characters of a string slice, one by one.
pub fn chars_of(s: &str) -> (r: Vec<char>)
    ensures
        r@ == s@,
{
    let mut out: Vec<char> = Vec::new();
    for c in it: s.chars()
        invariant
            it.seq() == s@,
            out@ == s@.take(it.index()),
    {
        proof {
            assert(s@.take(it.index() + 1) =~= s@.take(it.index()).push(c));
        }
        out.push(c);
    }
    proof {
        assert(s@.take(s@.len() as int) =~= s@);
    }
    out
}

/// The string of the characters from `from` up to `to`.
pub fn string_between(v: &Vec<char>, from: usize, to: usize) -> (r: String)
    requires
        from <= to <= v@.len(),
    ensures
        r@ == v@.subrange(from as int, to as int),
{
    let mut out = String::new();
    let mut i: usize = from;
    while i < to
        invariant
            from <= i <= to <= v@.len(),
            out@ == v@.subrange(from as int, i as int),
        decreases to - i,
    {
        out.push(v[i]);
        proof {
            assert(v@.subrange(from as int, i + 1) =~= v@.subrange(from as int, i as int).push(
                v@[i as int],
            ));
        }
        i = i + 1;
    }
    out
}

/// Whether a character is whitespace.
pub fn char_is_white(c: char) -> (r: bool)
    ensures
        r == is_white(c),
{
    let n: u32 = c as u32;
    (9 <= n && n <= 13) || n == 32 || n == 0x85 || n == 0xA0 || n == 0x1680 || (0x2000 <= n && n
        <= 0x200A) || n == 0x2028 || n == 0x2029 || n == 0x202F || n == 0x205F || n == 0x3000
}

/// The bounds of what is left of a list of characters after trimming.
pub fn trim_bounds(v: &Vec<char>) -> (r: (usize, usize))
    ensures
        r.0 <= r.1 <= v@.len(),
        trim(v@) == v@.subrange(r.0 as int, r.1 as int),
{
    let n: usize = v.len();
    let mut i: usize = 0;
    while i < n && char_is_white(v[i])
        invariant
            n == v@.len(),
            0 <= i <= n,
            forall|j: int| 0 <= j < i ==> is_white(v@[j]),
        decreases n - i,
    {
        i = i + 1;
    }
    proof {
        lemma_trim_start(v@, i as int);
    }
    let mut k: usize = n;
    let ghost rest = v@.skip(i as int);
    while k > i && char_is_white(v[k - 1])
        invariant
            n == v@.len(),
            i <= k <= n,
            rest == v@.skip(i as int),
            forall|j: int| k - i <= j < rest.len() ==> is_white(rest[j]),
        decreases k,
    {
        k = k - 1;
        proof {
            assert(rest[k - i] == v@[k as int]);
        }
    }
    proof {
        if i < k {
            assert(rest[k - i - 1] == v@[k - 1]);
        }
        lemma_trim_end(rest, k - i);
        assert(rest.take(k - i) =~= v@.subrange(i as int, k as int));
    }
    (i, k)
}

/// A text without the whitespace at its ends.
pub fn trimmed(s: &str) -> (r: String)
    ensures
        r@ == trim(s@),
{
    let v = chars_of(s);
    let (i, k) = trim_bounds(&v);
    string_between(&v, i, k)
}

/// Whether two texts are the same.
pub fn same(left: &str, right: &str) -> (r: bool)
    ensures
        r == (left@ == right@),
{
    *left == *right
}

/// Whether a text is empty or nothing but whitespace.
pub fn blank(s: &str) -> (r: bool)
    ensures
        r == (trim(s@).len() == 0),
{
    let v = chars_of(s);
    let (i, k) = trim_bounds(&v);
    i == k
}

/// Whether `p` stands in `v` at position `i`.
pub fn stands_at(v: &Vec<char>, p: &Vec<char>, i: usize) -> (r: bool)
    ensures
        r == occurs_at(v@, p@, i as int),
{
    let n: usize = v.len();
    let m: usize = p.len();
    if i > n || m > n - i {
        return false;
    }
    let mut j: usize = 0;
    while j < m
        invariant
            n == v@.len(),
            m == p@.len(),
            i + m <= n,
            0 <= j <= m,
            forall|t: int| 0 <= t < j ==> v@[i + t] == p@[t],
        decreases m - j,
    {
        if v[i + j] != p[j] {
            proof {
                assert(v@.subrange(i as int, i + m)[j as int] == v@[i + j]);
            }
            return false;
        }
        j = j + 1;
    }
    proof {
        assert(v@.subrange(i as int, i + m) =~= p@);
    }
    true
}

/// The first position from `from` on at which `p` stands in `v`.
pub fn position_from(v: &Vec<char>, p: &Vec<char>, from: usize) -> (r: Option<usize>)
    requires
        from <= v@.len(),
    ensures
        match r {
            Some(k) => find_from(v@, p@, from as int) == Some(k as int),
            None => find_from(v@, p@, from as int) is None,
        },
        r matches Some(k) ==> from <= k && k + p@.len() <= v@.len(),
{
    let n: usize = v.len();
    let m: usize = p.len();
    let mut i: usize = from;
    while m <= n - i
        invariant
            n == v@.len(),
            m == p@.len(),
            from <= i <= n,
            find_from(v@, p@, from as int) == find_from(v@, p@, i as int),
        decreases n + 1 - i,
    {
        if stands_at(v, p, i) {
            return Some(i);
        }
        if i == n {
            proof {
                assert(find_from(v@, p@, n + 1) is None);
            }
            return None;
        }
        i = i + 1;
    }
    None
}

/// Whether `part` stands anywhere in `s`.
pub fn has_part(s: &str, part: &str) -> (r: bool)
    ensures
        r == contains(s@, part@),
{
    let v = chars_of(s);
    let p = chars_of(part);
    proof {
        lemma_contains_find(s@, part@);
    }
    position_from(&v, &p, 0).is_some()
}

/// Whether `s` starts with `part`.
pub fn has_prefix(s: &str, part: &str) -> (r: bool)
    ensures
        r == starts_with(s@, part@),
{
    let v = chars_of(s);
    let p = chars_of(part);
    stands_at(&v, &p, 0)
}

/// Whether `s` ends with `part`.
pub fn has_suffix(s: &str, part: &str) -> (r: bool)
    ensures
        r == ends_with(s@, part@),
{
    let v = chars_of(s);
    let p = chars_of(part);
    if p.len() > v.len() {
        return false;
    }
    stands_at(&v, &p, v.len() - p.len())
}

/// The pieces of `s` between the characters `c`.
pub fn split_at_char(s: &str, c: char) -> (r: Vec<String>)
    ensures
        texts(r@) == split(s@, c),
{
    let v = chars_of(s);
    let n: usize = v.len();
    let mut out: Vec<String> = Vec::new();
    let mut start: usize = 0;
    let mut i: usize = 0;
    proof {
        assert(v@.skip(0) =~= v@);
        assert(texts(out@) + split(v@, c) =~= split(v@, c));
    }
    while i < n
        invariant
            n == v@.len(),
            0 <= start <= i <= n,
            forall|j: int| start <= j < i ==> v@[j] != c,
            split(v@, c) == texts(out@) + split(v@.skip(start as int), c),
        decreases n - i,
    {
        if v[i] == c {
            let piece = string_between(&v, start, i);
            let ghost rest = v@.skip(start as int);
            let ghost seen = texts(out@);
            proof {
                let k = i - start;
                assert forall|j: int| 0 <= j < k implies rest[j] != c by {
                    assert(rest[j] == v@[start + j]);
                }
                lemma_before_is(rest, c, k);
                assert(rest.take(k) =~= piece@);
                assert(rest.skip(k + 1) =~= v@.skip(i + 1));
                assert(split(rest, c) == seq![piece@] + split(v@.skip(i + 1), c));
            }
            out.push(piece);
            proof {
                assert(texts(out@) =~= seen.push(piece@));
                assert(seen + (seq![piece@] + split(v@.skip(i + 1), c)) =~= texts(out@) + split(
                    v@.skip(i + 1),
                    c,
                ));
            }
            start = i + 1;
        }
        i = i + 1;
    }
    let piece = string_between(&v, start, n);
    let ghost rest = v@.skip(start as int);
    let ghost seen = texts(out@);
    proof {
        assert forall|j: int| 0 <= j < rest.len() implies rest[j] != c by {
            assert(rest[j] == v@[start + j]);
        }
        lemma_before_is(rest, c, rest.len() as int);
        assert(rest =~= piece@);
    }
    out.push(piece);
    proof {
        assert(texts(out@) =~= seen + seq![piece@]);
    }
    out
}

/// The lines of a text.
pub fn lines_of(s: &str) -> (r: Vec<String>)
    ensures
        texts(r@) == lines(s@),
{
    let v = chars_of(s);
    let n: usize = v.len();
    let mut out: Vec<String> = Vec::new();
    let mut start: usize = 0;
    let mut i: usize = 0;
    proof {
        assert(v@.skip(0) =~= v@);
        assert(texts(out@) + lines(v@) =~= lines(v@));
    }
    while i < n
        invariant
            n == v@.len(),
            0 <= start <= i <= n,
            forall|j: int| start <= j < i ==> v@[j] != '\n',
            lines(v@) == texts(out@) + lines(v@.skip(start as int)),
        decreases n - i,
    {
        if v[i] == '\n' {
            let end: usize = if i > start && v[i - 1] == '\r' {
                i - 1
            } else {
                i
            };
            let piece = string_between(&v, start, end);
            let ghost rest = v@.skip(start as int);
            let ghost seen = texts(out@);
            proof {
                let k = i - start;
                assert forall|j: int| 0 <= j < k implies rest[j] != '\n' by {
                    assert(rest[j] == v@[start + j]);
                }
                lemma_before_is(rest, '\n', k);
                assert(rest.take(k) =~= v@.subrange(start as int, i as int));
                if i > start {
                    assert(rest.take(k).last() == v@[i - 1]);
                }
                assert(strip_return(rest.take(k)) =~= piece@);
                assert(rest.skip(k + 1) =~= v@.skip(i + 1));
                assert(lines(rest) == seq![piece@] + lines(v@.skip(i + 1)));
            }
            out.push(piece);
            proof {
                assert(texts(out@) =~= seen.push(piece@));
                assert(seen + (seq![piece@] + lines(v@.skip(i + 1))) =~= texts(out@) + lines(
                    v@.skip(i + 1),
                ));
            }
            start = i + 1;
        }
        i = i + 1;
    }
    let ghost rest = v@.skip(start as int);
    let ghost seen = texts(out@);
    proof {
        assert forall|j: int| 0 <= j < rest.len() implies rest[j] != '\n' by {
            assert(rest[j] == v@[start + j]);
        }
        lemma_before_is(rest, '\n', rest.len() as int);
    }
    if start < n {
        let piece = string_between(&v, start, n);
        proof {
            assert(rest =~= piece@);
        }
        out.push(piece);
        proof {
            assert(texts(out@) =~= seen + seq![piece@]);
        }
    } else {
        proof {
            assert(seen + lines(rest) =~= seen);
        }
    }
    out
}

/// The texts of a list with `sep` between each two of them.
pub fn joined(parts: &Vec<String>, sep: &str) -> (r: String)
    ensures
        r@ == join(texts(parts@), sep@),
{
    let mut out = String::new();
    let n: usize = parts.len();
    let mut i: usize = 0;
    while i < n
        invariant
            n == parts@.len(),
            0 <= i <= n,
            out@ == join(texts(parts@).take(i as int), sep@),
        decreases n - i,
    {
        let ghost seen = texts(parts@).take(i as int);
        if i > 0 {
            out.push_str(sep);
        }
        out.push_str(parts[i].as_str());
        proof {
            lemma_join_push(seen, sep@, parts@[i as int]@);
            assert(texts(parts@).take(i + 1) =~= seen.push(parts@[i as int]@));
            if i == 0 {
                assert(out@ =~= parts@[i as int]@);
            }
        }
        i = i + 1;
    }
    proof {
        assert(texts(parts@).take(n as int) =~= texts(parts@));
    }
    out
}

/// Every occurrence of `p` in `s`, from the left, replaced by `with`.
pub fn replaced(s: &str, p: &str, with: &str) -> (r: String)
    requires
        p@.len() > 0,
    ensures
        r@ == replace(s@, p@, with@),
{
    let v = chars_of(s);
    let q = chars_of(p);
    let n: usize = v.len();
    let mut out = String::new();
    let mut start: usize = 0;
    proof {
        assert(v@.skip(0) =~= v@);
        assert(out@ + replace(v@, p@, with@) =~= replace(v@, p@, with@));
    }
    loop
        invariant
            n == v@.len(),
            v@ == s@,
            q@ == p@,
            q@.len() > 0,
            0 <= start <= n,
            replace(v@, p@, with@) == out@ + replace(v@.skip(start as int), p@, with@),
        decreases n - start,
    {
        let ghost rest = v@.skip(start as int);
        let ghost seen = out@;
        proof {
            lemma_find_shift(v@, p@, start as int, start as int);
        }
        match position_from(&v, &q, start) {
            Some(k) => {
                let piece = string_between(&v, start, k);
                out.push_str(piece.as_str());
                out.push_str(with);
                proof {
                    let i = k - start;
                    assert(find_from(rest, p@, 0) == Some(i));
                    assert(rest.take(i) =~= piece@);
                    assert(rest.skip(i + p@.len()) =~= v@.skip(k + p@.len()));
                    assert(replace(rest, p@, with@) == piece@ + with@ + replace(
                        v@.skip(k + p@.len()),
                        p@,
                        with@,
                    ));
                    assert(seen + (piece@ + with@ + replace(v@.skip(k + p@.len()), p@, with@))
                        =~= seen + piece@ + with@ + replace(v@.skip(k + p@.len()), p@, with@));
                }
                start = k + q.len();
            },
            None => {
                let piece = string_between(&v, start, n);
                out.push_str(piece.as_str());
                proof {
                    assert(rest =~= piece@);
                }
                return out;
            },
        }
    }
}

/// Searching in a text from `start` on is searching in what follows `start`.
pub proof fn lemma_find_shift(s: Seq<char>, p: Seq<char>, start: int, from: int)
    requires
        0 <= start <= from,
        start <= s.len(),
    ensures
        match find_from(s, p, from) {
            Some(k) => find_from(s.skip(start), p, from - start) == Some(k - start),
            None => find_from(s.skip(start), p, from - start) is None,
        },
    decreases s.len() + 1 - from,
{
    let t = s.skip(start);
    if from + p.len() <= s.len() {
        assert(t.subrange(from - start, from - start + p.len()) =~= s.subrange(
            from,
            from + p.len(),
        ));
        assert(occurs_at(t, p, from - start) == occurs_at(s, p, from));
        if !occurs_at(s, p, from) {
            lemma_find_shift(s, p, start, from + 1);
        }
    }
}

fn digit_char(d: u64) -> (r: char)
    requires
        d < 10,
    ensures
        r == digit(d as int),
{
    if d == 0 { '0' }
    else if d == 1 { '1' }
    else if d == 2 { '2' }
    else if d == 3 { '3' }
    else if d == 4 { '4' }
    else if d == 5 { '5' }
    else if d == 6 { '6' }
    else if d == 7 { '7' }
    else if d == 8 { '8' }
    else { '9' }
}

/// The decimal notation of an unsigned integer.
pub fn number(n: u64) -> (r: String)
    ensures
        r@ == decimal(n as int),
    decreases n,
{
    if n < 10 {
        let mut out = String::new();
        out.push(digit_char(n));
        proof {
            assert(out@ =~= digits(n as nat));
        }
        out
    } else {
        let mut out = number(n / 10);
        out.push(digit_char(n % 10));
        out
    }
}

/// The decimal notation of a signed integer.
pub fn signed_number(n: i64) -> (r: String)
    ensures
        r@ == decimal(n as int),
{
    if n >= 0 {
        number(n as u64)
    } else {
        let positive: u64 = if n == i64::MIN {
            0x8000_0000_0000_0000
        } else {
            (-n) as u64
        };
        let mut out = String::new();
        out.push('-');
        let tail = number(positive);
        out.push_str(tail.as_str());
        proof {
            assert(out@ =~= decimal(n as int));
        }
        out
    }
}

// ---------------------------------------------------------------------------
// Order, width, prefixes
// ---------------------------------------------------------------------------

/// Whether `a` comes before `b` in the order of their characters' code points.
pub open spec fn text_less(a: Seq<char>, b: Seq<char>) -> bool
    decreases a.len(),
{
    if b.len() == 0 {
        false
    } else if a.len() == 0 {
        true
    } else if a[0] != b[0] {
        a[0] < b[0]
    } else {
        text_less(a.drop_first(), b.drop_first())
    }
}

/// No text comes before itself.
pub proof fn lemma_text_less_irreflexive(a: Seq<char>)
    ensures
        !text_less(a, a),
    decreases a.len(),
{
    if a.len() > 0 {
        lemma_text_less_irreflexive(a.drop_first());
    }
}

/// Of two different texts one comes before the other.
pub proof fn lemma_text_less_total(a: Seq<char>, b: Seq<char>)
    ensures
        a == b || text_less(a, b) || text_less(b, a),
    decreases a.len(),
{
    if a.len() > 0 && b.len() > 0 {
        if a[0] == b[0] {
            lemma_text_less_total(a.drop_first(), b.drop_first());
            if a.drop_first() == b.drop_first() {
                assert(a =~= seq![a[0]] + a.drop_first());
                assert(b =~= seq![b[0]] + b.drop_first());
            }
        }
    } else if a.len() == 0 && b.len() == 0 {
        assert(a =~= b);
    }
}

/// The order of texts is transitive.
pub proof fn lemma_text_less_transitive(a: Seq<char>, b: Seq<char>, c: Seq<char>)
    requires
        text_less(a, b),
        text_less(b, c),
    ensures
        text_less(a, c),
    decreases a.len(),
{
    if a.len() > 0 && a[0] == b[0] && b[0] == c[0] {
        lemma_text_less_transitive(a.drop_first(), b.drop_first(), c.drop_first());
    }
}

/// Whether `a` comes before `b` in the order of their characters' code points.
pub fn comes_before(a: &str, b: &str) -> (r: bool)
    ensures
        r == text_less(a@, b@),
{
    let v = chars_of(a);
    let w = chars_of(b);
    let mut i: usize = 0;
    proof {
        assert(v@.skip(0) =~= v@);
        assert(w@.skip(0) =~= w@);
    }
    while i < v.len() && i < w.len()
        invariant
            0 <= i <= v@.len(),
            i <= w@.len(),
            v@ == a@,
            w@ == b@,
            text_less(v@, w@) == text_less(v@.skip(i as int), w@.skip(i as int)),
        decreases v@.len() - i,
    {
        let c: char = v[i];
        let d: char = w[i];
        if c != d {
            return c < d;
        }
        proof {
            assert(v@.skip(i as int).drop_first() =~= v@.skip(i + 1));
            assert(w@.skip(i as int).drop_first() =~= w@.skip(i + 1));
        }
        i = i + 1;
    }
    i < w.len()
}

/// How many bytes the UTF-8 encoding of a character takes.
pub open spec fn width(c: char) -> int {
    let n = c as u32;
    if n < 0x80 {
        1
    } else if n < 0x800 {
        2
    } else if n < 0x10000 {
        3
    } else {
        4
    }
}

/// How many bytes the UTF-8 encoding of a text takes.
pub open spec fn byte_len(s: Seq<char>) -> int
    decreases s.len(),
{
    if s.len() == 0 {
        0
    } else {
        byte_len(s.drop_last()) + width(s.last())
    }
}

/// How many of the first characters of a text take at most `limit` bytes.
pub open spec fn fitting(s: Seq<char>, limit: int) -> int
    decreases s.len(),
{
    if s.len() == 0 || width(s[0]) > limit {
        0
    } else {
        1 + fitting(s.drop_first(), limit - width(s[0]))
    }
}

/// The longest start of a text that takes at most `limit` bytes.
pub open spec fn clip(s: Seq<char>, limit: int) -> Seq<char> {
    s.take(fitting(s, limit))
}

/// Whether a text can be cut after `limit` bytes, or is not longer than that:
/// the cut does not fall inside a character.
pub open spec fn clips_evenly(s: Seq<char>, limit: int) -> bool {
    byte_len(clip(s, limit)) == limit || clip(s, limit) == s
}

/// The start of a text takes no more bytes than the text.
pub proof fn lemma_byte_len_take(s: Seq<char>, k: int)
    requires
        0 <= k <= s.len(),
    ensures
        byte_len(s.take(k)) <= byte_len(s),
    decreases s.len() - k,
{
    if k < s.len() {
        lemma_byte_len_take(s, k + 1);
        assert(s.take(k + 1).drop_last() =~= s.take(k));
    } else {
        assert(s.take(k) =~= s);
    }
}

proof fn lemma_byte_len_front(s: Seq<char>)
    requires
        s.len() > 0,
    ensures
        byte_len(s) == width(s[0]) + byte_len(s.drop_first()),
    decreases s.len(),
{
    if s.len() == 1 {
        assert(s.drop_first() =~= seq![]);
        assert(s.drop_last() =~= seq![]);
        assert(byte_len(s.drop_last()) == 0);
    } else {
        lemma_byte_len_front(s.drop_last());
        assert(s.drop_first().drop_last() =~= s.drop_last().drop_first());
    }
}

/// What is left of a text that was cut takes at most as many bytes as it may.
pub proof fn lemma_fitting_len(s: Seq<char>, limit: int)
    requires
        0 <= limit,
    ensures
        0 <= fitting(s, limit) <= s.len(),
        byte_len(clip(s, limit)) <= limit,
    decreases s.len(),
{
    if s.len() == 0 || width(s[0]) > limit {
        assert(clip(s, limit) =~= seq![]);
    } else {
        lemma_fitting_len(s.drop_first(), limit - width(s[0]));
        lemma_byte_len_front(clip(s, limit));
        assert(clip(s, limit).drop_first() =~= clip(s.drop_first(), limit - width(s[0])));
    }
}

/// How many bytes the UTF-8 encoding of a character takes.
pub fn char_width(c: char) -> (r: usize)
    ensures
        r == width(c),
        1 <= r <= 4,
{
    let n: u32 = c as u32;
    if n < 0x80 {
        1
    } else if n < 0x800 {
        2
    } else if n < 0x10000 {
        3
    } else {
        4
    }
}

/// The longest start of a text that takes at most `limit` bytes.
pub fn clipped(s: &str, limit: usize) -> (r: String)
    ensures
        r@ == clip(s@, limit as int),
{
    let v = chars_of(s);
    let n: usize = v.len();
    let mut left: usize = limit;
    let mut i: usize = 0;
    proof {
        assert(v@.skip(0) =~= v@);
    }
    while i < n && char_width(v[i]) <= left
        invariant
            n == v@.len(),
            0 <= i <= n,
            fitting(v@, limit as int) == i + fitting(v@.skip(i as int), left as int),
        decreases n - i,
    {
        proof {
            assert(v@.skip(i as int).drop_first() =~= v@.skip(i + 1));
        }
        left = left - char_width(v[i]);
        i = i + 1;
    }
    proof {
        assert(v@.take(i as int) =~= v@.subrange(0, i as int));
    }
    string_between(&v, 0, i)
}

/// The first `limit` characters of a text.
pub open spec fn first_chars(s: Seq<char>, limit: int) -> Seq<char> {
    if s.len() <= limit {
        s
    } else {
        s.take(limit)
    }
}

/// The first `limit` characters of a text.
pub fn start_of(s: &str, limit: usize) -> (r: String)
    ensures
        r@ == first_chars(s@, limit as int),
{
    let v = chars_of(s);
    let k: usize = if v.len() <= limit {
        v.len()
    } else {
        limit
    };
    proof {
        assert(first_chars(s@, limit as int) =~= v@.subrange(0, k as int));
    }
    string_between(&v, 0, k)
}

/// Whether a character is one of the ten decimal digits of ASCII.
pub open spec fn is_digit(c: char) -> bool {
    '0' <= c <= '9'
}

/// How many digits a text starts with.
pub open spec fn leading_digits(s: Seq<char>) -> int
    decreases s.len(),
{
    if s.len() == 0 || !is_digit(s[0]) {
        0
    } else {
        1 + leading_digits(s.drop_first())
    }
}

// ---------------------------------------------------------------------------
// Concatenation
// ---------------------------------------------------------------------------

/// Two texts, one behind the other.
pub fn cat2(a: &str, b: &str) -> (r: String)
    ensures
        r@ == a@ + b@,
{
    let mut out = a.to_owned();
    out.push_str(b);
    out
}

/// Three texts, one behind the other.
pub fn cat3(a: &str, b: &str, c: &str) -> (r: String)
    ensures
        r@ == a@ + b@ + c@,
{
    let mut out = cat2(a, b);
    out.push_str(c);
    out
}

/// Four texts, one behind the other.
pub fn cat4(a: &str, b: &str, c: &str, d: &str) -> (r: String)
    ensures
        r@ == a@ + b@ + c@ + d@,
{
    let mut out = cat3(a, b, c);
    out.push_str(d);
    out
}

/// Five texts, one behind the other.
pub fn cat5(a: &str, b: &str, c: &str, d: &str, e: &str) -> (r: String)
    ensures
        r@ == a@ + b@ + c@ + d@ + e@,
{
    let mut out = cat4(a, b, c, d);
    out.push_str(e);
    out
}

// ---------------------------------------------------------------------------
// Runs of characters
// ---------------------------------------------------------------------------

/// What separates the pieces of a text.
#[derive(Clone, Copy, PartialEq, Eq, Structural)]
pub enum Gap {
    /// Whitespace.
    White,
    /// A dash, an underscore or a space.
    Dash,
}

/// Whether a character separates pieces.
pub open spec fn is_gap(gap: Gap, c: char) -> bool {
    match gap {
        Gap::White => is_white(c),
        Gap::Dash => c == '-' || c == '_' || c == ' ',
    }
}

/// How many characters a text has in front of the first that separates pieces.
pub open spec fn run_len(s: Seq<char>, gap: Gap) -> int
    decreases s.len(),
{
    if s.len() == 0 || is_gap(gap, s[0]) {
        0
    } else {
        1 + run_len(s.drop_first(), gap)
    }
}

/// The pieces of a text that are not empty.
pub open spec fn pieces(s: Seq<char>, gap: Gap) -> Seq<Seq<char>>
    decreases s.len(),
{
    let k = run_len(s, gap);
    if s.len() == 0 {
        seq![]
    } else if 0 < k <= s.len() {
        seq![s.take(k)] + pieces(s.skip(k), gap)
    } else {
        pieces(s.drop_first(), gap)
    }
}

proof fn lemma_run_is(s: Seq<char>, gap: Gap, k: int)
    requires
        0 <= k <= s.len(),
        forall|i: int| 0 <= i < k ==> !is_gap(gap, s[i]),
        k < s.len() ==> is_gap(gap, s[k]),
    ensures
        run_len(s, gap) == k,
    decreases s.len(),
{
    if k > 0 {
        let t = s.drop_first();
        assert forall|i: int| 0 <= i < k - 1 implies !is_gap(gap, t[i]) by {
            assert(t[i] == s[i + 1]);
        }
        assert(!is_gap(gap, s[0]));
        lemma_run_is(t, gap, k - 1);
    }
}

fn char_is_gap(gap: Gap, c: char) -> (r: bool)
    ensures
        r == is_gap(gap, c),
{
    match gap {
        Gap::White => char_is_white(c),
        Gap::Dash => c == '-' || c == '_' || c == ' ',
    }
}

/// The pieces of a text that are not empty.
pub fn pieces_of(s: &str, gap: Gap) -> (r: Vec<String>)
    ensures
        texts(r@) == pieces(s@, gap),
{
    let v = chars_of(s);
    let n: usize = v.len();
    let mut out: Vec<String> = Vec::new();
    let mut i: usize = 0;
    proof {
        assert(v@.skip(0) =~= v@);
        assert(texts(out@) + pieces(v@, gap) =~= pieces(v@, gap));
    }
    while i < n
        invariant
            n == v@.len(),
            0 <= i <= n,
            pieces(v@, gap) == texts(out@) + pieces(v@.skip(i as int), gap),
        decreases n - i,
    {
        let ghost rest = v@.skip(i as int);
        let start: usize = i;
        if char_is_gap(gap, v[i]) {
            proof {
                assert(rest[0] == v@[i as int]);
                assert(rest.drop_first() =~= v@.skip(i + 1));
            }
            i = i + 1;
        } else {
            let mut k: usize = i + 1;
            proof {
                assert(rest[0] == v@[i as int]);
            }
            while k < n && !char_is_gap(gap, v[k])
                invariant
                    n == v@.len(),
                    i < k <= n,
                    rest == v@.skip(i as int),
                    forall|j: int| 0 <= j < k - i ==> !is_gap(gap, rest[j]),
                decreases n - k,
            {
                proof {
                    assert(rest[k - i] == v@[k as int]);
                }
                k = k + 1;
            }
            proof {
                if k < n {
                    assert(rest[k - i] == v@[k as int]);
                }
                lemma_run_is(rest, gap, k - i);
            }
            let piece = string_between(&v, i, k);
            let ghost seen = texts(out@);
            proof {
                assert(rest.take(k - i) =~= piece@);
                assert(rest.skip(k - i) =~= v@.skip(k as int));
            }
            out.push(piece);
            proof {
                assert(texts(out@) =~= seen.push(piece@));
                assert(seen + (seq![piece@] + pieces(v@.skip(k as int), gap)) =~= texts(out@)
                    + pieces(v@.skip(k as int), gap));
            }
            i = k;
        }
    }
    proof {
        assert(texts(out@) + pieces(v@.skip(n as int), gap) =~= texts(out@));
    }
    out
}

/// The parts of a text between the occurrences of `p`, from the left.
pub open spec fn split_on(s: Seq<char>, p: Seq<char>) -> Seq<Seq<char>>
    decreases s.len(),
{
    match find_from(s, p, 0) {
        Some(i) => if p.len() > 0 && 0 <= i && i + p.len() <= s.len() {
            seq![s.take(i)] + split_on(s.skip(i + p.len()), p)
        } else {
            seq![s]
        },
        None => seq![s],
    }
}

/// The parts of a text between the occurrences of `p`, from the left.
pub fn parts_between(s: &str, p: &str) -> (r: Vec<String>)
    requires
        p@.len() > 0,
    ensures
        texts(r@) == split_on(s@, p@),
{
    let v = chars_of(s);
    let q = chars_of(p);
    let n: usize = v.len();
    let mut out: Vec<String> = Vec::new();
    let mut start: usize = 0;
    proof {
        assert(v@.skip(0) =~= v@);
        assert(texts(out@) + split_on(v@, p@) =~= split_on(v@, p@));
    }
    loop
        invariant
            n == v@.len(),
            v@ == s@,
            q@ == p@,
            q@.len() > 0,
            0 <= start <= n,
            split_on(v@, p@) == texts(out@) + split_on(v@.skip(start as int), p@),
        decreases n - start,
    {
        let ghost rest = v@.skip(start as int);
        let ghost seen = texts(out@);
        proof {
            lemma_find_shift(v@, p@, start as int, start as int);
        }
        match position_from(&v, &q, start) {
            Some(k) => {
                let piece = string_between(&v, start, k);
                proof {
                    let i = k - start;
                    assert(rest.take(i) =~= piece@);
                    assert(rest.skip(i + p@.len()) =~= v@.skip(k + p@.len()));
                }
                out.push(piece);
                proof {
                    assert(texts(out@) =~= seen.push(piece@));
                    assert(seen + (seq![piece@] + split_on(v@.skip(k + p@.len()), p@)) =~= texts(
                        out@,
                    ) + split_on(v@.skip(k + p@.len()), p@));
                }
                start = k + q.len();
            },
            None => {
                let piece = string_between(&v, start, n);
                proof {
                    assert(rest =~= piece@);
                }
                out.push(piece);
                proof {
                    assert(texts(out@) =~= seen + seq![piece@]);
                }
                return out;
            },
        }
    }
}

/// A text without the whitespace that it ends with.
pub fn trimmed_end(s: &str) -> (r: String)
    ensures
        r@ == trim_end(s@),
{
    let v = chars_of(s);
    let mut k: usize = v.len();
    while k > 0 && char_is_white(v[k - 1])
        invariant
            0 <= k <= v@.len(),
            forall|j: int| k <= j < v@.len() ==> is_white(v@[j]),
        decreases k,
    {
        k = k - 1;
    }
    proof {
        lemma_trim_end(v@, k as int);
        assert(v@.take(k as int) =~= v@.subrange(0, k as int));
    }
    string_between(&v, 0, k)
}

/// Whether a text takes more than `limit` bytes.
pub fn longer_than(s: &str, limit: usize) -> (r: bool)
    ensures
        r == (byte_len(s@) > limit),
{
    let v = chars_of(s);
    let n: usize = v.len();
    let mut sum: usize = 0;
    let mut i: usize = 0;
    while i < n
        invariant
            n == v@.len(),
            v@ == s@,
            0 <= i <= n,
            sum <= limit,
            sum == byte_len(v@.take(i as int)),
        decreases n - i,
    {
        let w = char_width(v[i]);
        proof {
            assert(v@.take(i + 1).drop_last() =~= v@.take(i as int));
            lemma_byte_len_take(v@, i + 1);
        }
        if w > limit - sum {
            return true;
        }
        sum = sum + w;
        i = i + 1;
    }
    proof {
        assert(v@.take(n as int) =~= v@);
    }
    false
}

// ---------------------------------------------------------------------------
// Reading numbers
// ---------------------------------------------------------------------------

/// The number of a decimal digit.
pub open spec fn digit_value(c: char) -> nat {
    (c as u32 - '0' as u32) as nat
}

/// The number that digits spell.
pub open spec fn digits_value(s: Seq<char>) -> nat
    decreases s.len(),
{
    if s.len() == 0 {
        0
    } else {
        digits_value(s.drop_last()) * 10 + digit_value(s.last())
    }
}

/// A text without the plus sign that it starts with.
pub open spec fn without_plus(s: Seq<char>) -> Seq<char> {
    if s.len() > 0 && s[0] == '+' {
        s.skip(1)
    } else {
        s
    }
}

/// Whether a text holds nothing but digits.
pub open spec fn all_digits(s: Seq<char>) -> bool {
    forall|i: int| 0 <= i < s.len() ==> is_digit(#[trigger] s[i])
}

/// The natural number that a text spells: digits, with a plus sign in front of
/// them or without.
pub open spec fn spelled_number(s: Seq<char>) -> Option<nat> {
    let d = without_plus(s);
    if d.len() > 0 && all_digits(d) {
        Some(digits_value(d))
    } else {
        None
    }
}

/// The natural number up to `max` that a text spells.
pub open spec fn number_up_to(s: Seq<char>, max: nat) -> Option<nat> {
    match spelled_number(s) {
        Some(n) => if n <= max {
            Some(n)
        } else {
            None
        },
        None => None,
    }
}

proof fn lemma_digits_grow(s: Seq<char>, k: int)
    requires
        0 <= k <= s.len(),
    ensures
        digits_value(s.take(k)) <= digits_value(s),
    decreases s.len() - k,
{
    if k < s.len() {
        lemma_digits_grow(s, k + 1);
        assert(s.take(k + 1).drop_last() =~= s.take(k));
    } else {
        assert(s.take(k) =~= s);
    }
}

/// The number up to `max` that a text spells.
pub fn parse_number(s: &str, max: u64) -> (r: Option<u64>)
    ensures
        match r {
            Some(n) => number_up_to(s@, max as nat) == Some(n as nat),
            None => number_up_to(s@, max as nat) is None,
        },
{
    let v = chars_of(s);
    let n: usize = v.len();
    let start: usize = if n > 0 && v[0] == '+' {
        1
    } else {
        0
    };
    let ghost d = without_plus(s@);
    proof {
        assert(d =~= v@.skip(start as int));
    }
    if start >= n {
        return None;
    }
    let mut value: u64 = 0;
    let mut i: usize = start;
    proof {
        assert(d.take(0) =~= seq![]);
    }
    while i < n
        invariant
            n == v@.len(),
            v@ == s@,
            start <= i <= n,
            start < n,
            d == v@.skip(start as int),
            d == without_plus(s@),
            forall|j: int| 0 <= j < i - start ==> is_digit(#[trigger] d[j]),
            value <= max,
            value == digits_value(d.take(i - start)),
        decreases n - i,
    {
        let c: char = v[i];
        proof {
            assert(d[i - start] == c);
        }
        if !('0' <= c && c <= '9') {
            proof {
                assert(!is_digit(d[i - start]));
            }
            return None;
        }
        let step: u64 = (c as u32 - '0' as u32) as u64;
        proof {
            let k = i - start;
            assert(d.take(k + 1).drop_last() =~= d.take(k));
            assert(d.take(k + 1).last() == c);
            lemma_digits_grow(d, k + 1);
        }
        if value > max / 10 || step > max - value * 10 {
            proof {
                assert(digits_value(d) > max) by {
                    assert(digits_value(d.take(i - start + 1)) == value * 10 + step);
                    assert(value as int * 10 + step > max);
                }
            }
            return None;
        }
        value = value * 10 + step;
        i = i + 1;
    }
    proof {
        assert(d.take(n - start) =~= d);
    }
    Some(value)
}

/// A text of at most `max` bytes: where it is longer, its start and an
/// ellipsis.
pub open spec fn ellipsis(s: Seq<char>, max: int) -> Seq<char> {
    if byte_len(s) <= max {
        s
    } else {
        clip(s, max - 1) + "…"@
    }
}

/// A text cut to at most `max` bytes, and an ellipsis where it was cut.
pub fn truncate(s: &str, max: usize) -> (r: String)
    requires
        byte_len(s@) > max ==> max >= 1 && clips_evenly(s@, max - 1),
    ensures
        r@ == ellipsis(s@, max as int),
{
    if longer_than(s, max) {
        let start = clipped(s, max - 1);
        cat2(start.as_str(), "…")
    } else {
        s.to_owned()
    }
}

// ---------------------------------------------------------------------------
// Bytes
// ---------------------------------------------------------------------------

/// The bytes that a text takes are those of its UTF-8 encoding.
pub proof fn lemma_byte_len_is_encoding(s: Seq<char>)
    ensures
        byte_len(s) == vstd::utf8::encode_utf8(s).len(),
    decreases s.len(),
{
    if s.len() > 0 {
        lemma_byte_len_front(s);
        lemma_byte_len_is_encoding(s.drop_first());
        vstd::utf8::char_is_scalar(s[0]);
    }
}

/// How many bytes a text takes.
pub fn byte_count(s: &str) -> (r: usize)
    ensures
        r == byte_len(s@),
{
    proof {
        lemma_byte_len_is_encoding(s@);
    }
    s.as_bytes().len()
}

/// The digits of a number spell it.
pub proof fn lemma_digits_spell(n: nat)
    ensures
        all_digits(digits(n)),
        digits(n).len() > 0,
        digits_value(digits(n)) == n,
    decreases n,
{
    let s = digits(n);
    if n < 10 {
        assert(s.drop_last() =~= seq![]);
        assert(digits_value(s.drop_last()) == 0);
        lemma_digit(n as int);
    } else {
        lemma_digits_spell(n / 10);
        lemma_digit((n % 10) as int);
        assert(s.drop_last() =~= digits(n / 10));
        assert forall|i: int| 0 <= i < s.len() implies is_digit(#[trigger] s[i]) by {
            if i < s.len() - 1 {
                assert(s[i] == digits(n / 10)[i]);
            }
        }
    }
}

proof fn lemma_digit(d: int)
    requires
        0 <= d < 10,
    ensures
        is_digit(digit(d)),
        digit_value(digit(d)) == d,
        !is_white(digit(d)),
{
}

/// Reading the notation of a number gives the number back.
pub proof fn lemma_decimal_reads_back(n: nat, max: nat)
    requires
        n <= max,
    ensures
        number_up_to(decimal(n as int), max) == Some(n),
        forall|i: int| 0 <= i < decimal(n as int).len() ==> !is_white(#[trigger] decimal(n as int)[i]),
{
    lemma_digits_spell(n);
    let s = digits(n);
    assert(is_digit(s[0]));
    assert(without_plus(s) == s);
    assert forall|i: int| 0 <= i < s.len() implies !is_white(#[trigger] s[i]) by {
        assert(is_digit(s[i]));
    }
}

/// Whether a text can be cut after `limit` bytes, or is not longer than that.
pub fn can_clip(s: &str, limit: usize) -> (r: bool)
    ensures
        r == clips_evenly(s@, limit as int),
{
    let start = clipped(s, limit);
    proof {
        lemma_fitting_len(s@, limit as int);
    }
    same(start.as_str(), s) || byte_count(start.as_str()) == limit
}

// ---------------------------------------------------------------------------
// Laws
// ---------------------------------------------------------------------------

/// Spaces, tabs and line breaks are white space; no visible character of ASCII
/// is.
pub proof fn law_white_space(c: char)
    ensures
        is_white(' ') && is_white('\t') && is_white('\n') && is_white('\r'),
        '!' <= c <= '~' ==> !is_white(c),
{
}

/// Trimming cuts off white space at both ends, all of it, and nothing else.
/// What is returned is where the trimmed text starts and ends.
pub proof fn law_trim_cuts_white_ends(s: Seq<char>) -> (r: (int, int))
    ensures
        0 <= r.0 <= r.1 <= s.len(),
        trim(s) == s.subrange(r.0, r.1),
        forall|i: int| 0 <= i < r.0 ==> is_white(#[trigger] s[i]),
        forall|i: int| r.1 <= i < s.len() ==> is_white(#[trigger] s[i]),
        r.0 < r.1 ==> !is_white(s[r.0]) && !is_white(s[r.1 - 1]),
{
    let a = lemma_white_start(s);
    lemma_trim_start(s, a);
    let t = s.skip(a);
    let b = lemma_white_end(t);
    lemma_trim_end(t, b);
    assert(t.take(b) =~= s.subrange(a, a + b));
    assert forall|i: int| a + b <= i < s.len() implies is_white(#[trigger] s[i]) by {
        assert(t[i - a] == s[i]);
    }
    if b > 0 {
        assert(t[b - 1] == s[a + b - 1]);
        assert(!is_white(s[a])) by {
            if a == s.len() {
                assert(t.len() == 0);
            }
        }
    }
    (a, a + b)
}

proof fn lemma_white_start(s: Seq<char>) -> (k: int)
    ensures
        0 <= k <= s.len(),
        forall|i: int| 0 <= i < k ==> is_white(#[trigger] s[i]),
        k < s.len() ==> !is_white(s[k]),
    decreases s.len(),
{
    if s.len() == 0 || !is_white(s[0]) {
        0
    } else {
        let t = s.drop_first();
        let k = lemma_white_start(t);
        assert forall|i: int| 0 <= i < k + 1 implies is_white(#[trigger] s[i]) by {
            if i > 0 {
                assert(t[i - 1] == s[i]);
            }
        }
        if k < t.len() {
            assert(t[k] == s[k + 1]);
        }
        k + 1
    }
}

proof fn lemma_white_end(s: Seq<char>) -> (k: int)
    ensures
        0 <= k <= s.len(),
        forall|i: int| k <= i < s.len() ==> is_white(#[trigger] s[i]),
        0 < k ==> !is_white(s[k - 1]),
    decreases s.len(),
{
    if s.len() == 0 || !is_white(s.last()) {
        s.len() as int
    } else {
        let t = s.drop_last();
        let k = lemma_white_end(t);
        assert forall|i: int| k <= i < s.len() implies is_white(#[trigger] s[i]) by {
            if i < t.len() {
                assert(t[i] == s[i]);
            }
        }
        if k > 0 {
            assert(t[k - 1] == s[k - 1]);
        }
        k
    }
}

/// Of two texts that start alike, the one whose next character has the lower
/// code point comes first; one that goes on comes behind one that does not.
pub proof fn law_first_difference_decides(
    start: Seq<char>,
    c: char,
    d: char,
    x: Seq<char>,
    y: Seq<char>,
)
    requires
        c != d,
    ensures
        text_less(start + seq![c] + x, start + seq![d] + y) == (c < d),
        text_less(start, start + seq![d] + y),
        !text_less(start + seq![d] + y, start),
    decreases start.len(),
{
    let a = start + seq![c] + x;
    let b = start + seq![d] + y;
    if start.len() == 0 {
        assert(a[0] == c && b[0] == d);
    } else {
        let rest = start.drop_first();
        law_first_difference_decides(rest, c, d, x, y);
        assert(a.drop_first() =~= rest + seq![c] + x);
        assert(b.drop_first() =~= rest + seq![d] + y);
        assert(a[0] == start[0] && b[0] == start[0]);
    }
}

/// Joining in front of one more text adds the text and the separator.
pub proof fn lemma_join_front(first: Seq<char>, parts: Seq<Seq<char>>, sep: Seq<char>)
    requires
        parts.len() > 0,
    ensures
        join(seq![first] + parts, sep) == first + sep + join(parts, sep),
    decreases parts.len(),
{
    let all = seq![first] + parts;
    assert(all.last() == parts.last());
    if parts.len() == 1 {
        assert(all.drop_last() =~= seq![first]);
        assert(join(seq![first], sep) == first);
    } else {
        let front = parts.drop_last();
        assert(all.drop_last() =~= seq![first] + front);
        lemma_join_front(first, front, sep);
        assert(first + sep + join(front, sep) + sep + parts.last() =~= first + sep + (join(
            front,
            sep,
        ) + sep + parts.last()));
    }
}

/// The pieces of a text hold no separator, and with the separator between them
/// they are the text.
pub proof fn law_split_joins_back(s: Seq<char>, c: char)
    ensures
        split(s, c).len() >= 1,
        join(split(s, c), seq![c]) == s,
        forall|i: int| 0 <= i < split(s, c).len() ==> !(#[trigger] split(s, c)[i]).contains(c),
    decreases s.len(),
{
    lemma_before(s, c);
    let k = before(s, c);
    if k < s.len() {
        let rest = split(s.skip(k + 1), c);
        law_split_joins_back(s.skip(k + 1), c);
        lemma_join_front(s.take(k), rest, seq![c]);
        assert(s.take(k) + seq![c] + s.skip(k + 1) =~= s);
        assert forall|i: int| 0 <= i < split(s, c).len() implies !(#[trigger] split(
            s,
            c,
        )[i]).contains(c) by {
            if i > 0 {
                assert(split(s, c)[i] == rest[i - 1]);
            } else if s.take(k).contains(c) {
                let m = choose|m: int| 0 <= m < k && s.take(k)[m] == c;
                assert(s[m] == c);
            }
        }
    } else if s.contains(c) {
        let m = choose|m: int| 0 <= m < s.len() && s[m] == c;
        assert(s[m] != c);
    }
}

/// The lines of a text hold no line feed. Where the text has no carriage
/// returns, its lines with a line feed behind each, but for the last where the
/// text does not end with one, are the text.
pub proof fn law_lines_join_back(s: Seq<char>)
    ensures
        forall|i: int| 0 <= i < lines(s).len() ==> !(#[trigger] lines(s)[i]).contains('\n'),
        !s.contains('\r') ==> {
            ||| s == join(lines(s), seq!['\n'])
            ||| s.last() == '\n' && s == join(lines(s), seq!['\n']).push('\n')
        },
        s.len() > 0 ==> lines(s).len() > 0,
    decreases s.len(),
{
    lemma_before(s, '\n');
    let k = before(s, '\n');
    if s.len() > 0 && k < s.len() {
        let line = s.take(k);
        let tail = s.skip(k + 1);
        let rest = lines(tail);
        law_lines_join_back(tail);
        assert forall|i: int| 0 <= i < lines(s).len() implies !(#[trigger] lines(s)[i]).contains(
            '\n',
        ) by {
            if i > 0 {
                assert(lines(s)[i] == rest[i - 1]);
            } else {
                let first = strip_return(line);
                if first.contains('\n') {
                    let m = choose|m: int| 0 <= m < first.len() && first[m] == '\n';
                    assert(s[m] == '\n');
                }
            }
        }
        if !s.contains('\r') {
            assert(strip_return(line) == line) by {
                if line.len() > 0 && line.last() == '\r' {
                    assert(s[k - 1] == '\r');
                }
            }
            assert(!tail.contains('\r')) by {
                if tail.contains('\r') {
                    let m = choose|m: int| 0 <= m < tail.len() && tail[m] == '\r';
                    assert(s[k + 1 + m] == '\r');
                }
            }
            if tail.len() == 0 {
                assert(lines(s) =~= seq![line]);
                assert(join(seq![line], seq!['\n']) == line);
                assert(s =~= line.push('\n'));
            } else {
                lemma_join_front(line, rest, seq!['\n']);
                assert(s =~= line + seq!['\n'] + tail);
                assert(s.last() == tail.last());
                assert((line + seq!['\n'] + join(rest, seq!['\n'])).push('\n') =~= line
                    + seq!['\n'] + join(rest, seq!['\n']).push('\n'));
            }
        }
    } else if s.len() > 0 {
        if s.contains('\n') {
            let m = choose|m: int| 0 <= m < s.len() && s[m] == '\n';
            assert(s[m] != '\n');
        }
        assert(lines(s) =~= seq![s]);
        assert(join(seq![s], seq!['\n']) == s);
    } else {
        assert(join(lines(s), seq!['\n']) =~= s);
    }
}

/// A text in which another does not occur is not changed by replacing it.
pub proof fn lemma_replace_absent(s: Seq<char>, p: Seq<char>, r: Seq<char>)
    requires
        !contains(s, p),
    ensures
        replace(s, p, r) == s,
{
    lemma_contains_find(s, p);
}

/// The parts of a text around the occurrences of another do not hold it; with
/// it between them they are the text, and with something else between them
/// they are the text in which it was replaced.
pub proof fn law_replace_changes_every_occurrence(s: Seq<char>, p: Seq<char>, r: Seq<char>)
    requires
        p.len() > 0,
    ensures
        split_on(s, p).len() >= 1,
        join(split_on(s, p), p) == s,
        join(split_on(s, p), r) == replace(s, p, r),
        forall|i: int|
            0 <= i < split_on(s, p).len() ==> !contains(#[trigger] split_on(s, p)[i], p),
    decreases s.len(),
{
    lemma_find_from(s, p, 0);
    lemma_contains_find(s, p);
    match find_from(s, p, 0) {
        Some(i) => {
            let rest = split_on(s.skip(i + p.len()), p);
            law_replace_changes_every_occurrence(s.skip(i + p.len()), p, r);
            lemma_join_front(s.take(i), rest, p);
            lemma_join_front(s.take(i), rest, r);
            assert(s.subrange(i, i + p.len()) == p);
            assert(s =~= s.take(i) + s.subrange(i, i + p.len()) + s.skip(i + p.len()));
            assert forall|m: int| 0 <= m < split_on(s, p).len() implies !contains(
                #[trigger] split_on(s, p)[m],
                p,
            ) by {
                if m > 0 {
                    assert(split_on(s, p)[m] == rest[m - 1]);
                } else if contains(s.take(i), p) {
                    let t = s.take(i);
                    let at = choose|at: int| occurs_at(t, p, at);
                    assert(t.subrange(at, at + p.len()) =~= s.subrange(at, at + p.len()));
                    assert(occurs_at(s, p, at));
                }
            }
        },
        None => {
            assert(split_on(s, p) =~= seq![s]);
        },
    }
}

/// Cutting a text leaves its start, as much of it as takes no more bytes than
/// allowed: either all of it, or so much that the next character would not
/// fit.
pub proof fn law_clip_keeps_the_longest_start(s: Seq<char>, limit: int)
    requires
        0 <= limit,
    ensures
        clip(s, limit).is_prefix_of(s),
        byte_len(clip(s, limit)) <= limit,
        clip(s, limit).len() < s.len() ==> byte_len(
            s.take(clip(s, limit).len() as int + 1),
        ) > limit,
    decreases s.len(),
{
    lemma_fitting_len(s, limit);
    let k = fitting(s, limit);
    if k < s.len() {
        if width(s[0]) > limit {
            assert(s.take(1).drop_last() =~= seq![]);
            assert(byte_len(s.take(1).drop_last()) == 0);
            assert(byte_len(s.take(1)) == width(s[0]));
        } else {
            let t = s.drop_first();
            law_clip_keeps_the_longest_start(t, limit - width(s[0]));
            lemma_fitting_len(t, limit - width(s[0]));
            assert(clip(t, limit - width(s[0])).len() == k - 1);
            assert(clip(s, limit).len() == k);
            lemma_byte_len_front(s.take(k + 1));
            assert(s.take(k + 1).drop_first() =~= t.take(k));
        }
    }
}

/// The pieces of a text between gaps are not empty and hold no gap; together
/// they hold all that is no gap.
pub proof fn law_pieces_hold_no_gap(s: Seq<char>, gap: Gap)
    ensures
        forall|i: int| 0 <= i < pieces(s, gap).len() ==> (#[trigger] pieces(s, gap)[i]).len() > 0,
        forall|i: int, k: int|
            0 <= i < pieces(s, gap).len() && 0 <= k < pieces(s, gap)[i].len() ==> !is_gap(
                gap,
                #[trigger] pieces(s, gap)[i][k],
            ),
        join(pieces(s, gap), seq![]) == s.filter(|c: char| !is_gap(gap, c)),
    decreases s.len(),
{
    let solid = |c: char| !is_gap(gap, c);
    let k = run_len(s, gap);
    if s.len() > 0 {
        lemma_run(s, gap);
        if k > 0 {
            let first = s.take(k);
            let tail = s.skip(k);
            let rest = pieces(tail, gap);
            law_pieces_hold_no_gap(tail, gap);
            let all = pieces(s, gap);
            assert forall|i: int, m: int|
                0 <= i < all.len() && 0 <= m < all[i].len() implies !is_gap(
                gap,
                #[trigger] all[i][m],
            ) by {
                if i > 0 {
                    assert(all[i] == rest[i - 1]);
                    assert(!is_gap(gap, rest[i - 1][m]));
                } else {
                    assert(all[0][m] == s[m]);
                }
            }
            assert forall|i: int| 0 <= i < all.len() implies (#[trigger] all[i]).len() > 0 by {
                if i > 0 {
                    assert(all[i] == rest[i - 1]);
                }
            }
            assert(s =~= first + tail);
            Seq::filter_distributes_over_add(first, tail, solid);
            lemma_all_kept(first, gap);
            if rest.len() > 0 {
                lemma_join_front(first, rest, seq![]);
                assert(first + seq![] + join(rest, seq![]) =~= first + join(rest, seq![]));
            } else {
                assert(all =~= seq![first]);
                assert(join(seq![first], seq![]) == first);
                assert(join(rest, seq![]) =~= seq![]);
                assert(first + seq![] =~= first);
            }
        } else {
            let tail = s.drop_first();
            law_pieces_hold_no_gap(tail, gap);
            assert(s =~= seq![s[0]] + tail);
            Seq::filter_distributes_over_add(seq![s[0]], tail, solid);
            assert(seq![s[0]].filter(solid) =~= seq![]) by {
                reveal(Seq::filter);
                assert(!solid(s[0]));
                assert(seq![s[0]].last() == s[0]);
                assert(seq![s[0]].drop_last() =~= seq![]);
                assert(seq![s[0]].drop_last().filter(solid) =~= seq![]);
            }
            assert(seq![] + tail.filter(solid) =~= tail.filter(solid));
        }
    } else {
        assert(s.filter(solid) =~= seq![]) by {
            reveal(Seq::filter);
        }
        assert(join(pieces(s, gap), seq![]) =~= seq![]);
    }
}

proof fn lemma_run(s: Seq<char>, gap: Gap)
    ensures
        0 <= run_len(s, gap) <= s.len(),
        forall|i: int| 0 <= i < run_len(s, gap) ==> !is_gap(gap, #[trigger] s[i]),
        s.len() > 0 ==> (run_len(s, gap) == 0 <==> is_gap(gap, s[0])),
    decreases s.len(),
{
    if s.len() > 0 && !is_gap(gap, s[0]) {
        let t = s.drop_first();
        lemma_run(t, gap);
        assert forall|i: int| 0 <= i < run_len(s, gap) implies !is_gap(gap, #[trigger] s[i]) by {
            if i > 0 {
                assert(t[i - 1] == s[i]);
            }
        }
    }
}

proof fn lemma_all_kept(s: Seq<char>, gap: Gap)
    requires
        forall|i: int| 0 <= i < s.len() ==> !is_gap(gap, #[trigger] s[i]),
    ensures
        s.filter(|c: char| !is_gap(gap, c)) == s,
    decreases s.len(),
{
    let solid = |c: char| !is_gap(gap, c);
    reveal(Seq::filter);
    if s.len() > 0 {
        let front = s.drop_last();
        assert forall|i: int| 0 <= i < front.len() implies !is_gap(gap, #[trigger] front[i]) by {
            assert(front[i] == s[i]);
        }
        lemma_all_kept(front, gap);
        assert(s =~= front.push(s.last()));
    } else {
        assert(s.filter(solid) =~= s);
    }
}

/// A text holds each of the parts that it is put together from.
pub proof fn lemma_holds_part(before: Seq<char>, part: Seq<char>, after: Seq<char>)
    ensures
        contains(before + part + after, part),
{
    let s = before + part + after;
    let i = before.len() as int;
    assert(s.subrange(i, i + part.len()) =~= part);
    assert(occurs_at(s, part, i));
}

/// A text that starts and ends with something visible is not changed by
/// trimming it.
pub proof fn lemma_trim_solid(s: Seq<char>)
    requires
        s.len() > 0,
        !is_white(s[0]),
        !is_white(s.last()),
    ensures
        trim(s) == s,
{
    lemma_trim_start(s, 0);
    assert(s.skip(0) =~= s);
    lemma_trim_end(s, s.len() as int);
    assert(s.take(s.len() as int) =~= s);
}

/// What was put together holds each of its parts.
pub proof fn lemma_join_holds(parts: Seq<Seq<char>>, sep: Seq<char>, k: int)
    requires
        0 <= k < parts.len(),
    ensures
        contains(join(parts, sep), parts[k]),
    decreases parts.len(),
{
    if parts.len() == 1 {
        lemma_holds_part(seq![], parts[0], seq![]);
        assert(seq![] + parts[0] + seq![] =~= parts[0]);
    } else {
        let front = parts.drop_last();
        let before = join(front, sep);
        let all = join(parts, sep);
        if k < front.len() {
            lemma_join_holds(front, sep, k);
            assert(front[k] == parts[k]);
            lemma_inside(seq![], before, sep + parts.last(), parts[k]);
            assert(seq![] + before + (sep + parts.last()) =~= all);
        } else {
            lemma_holds_part(before + sep, parts[k], seq![]);
            assert(before + sep + parts[k] + seq![] =~= all);
        }
    }
}

/// What holds a text still does with more around it.
pub proof fn lemma_inside(before: Seq<char>, s: Seq<char>, after: Seq<char>, part: Seq<char>)
    requires
        contains(s, part),
    ensures
        contains(before + s + after, part),
{
    let all = before + s + after;
    let i = choose|i: int| occurs_at(s, part, i);
    let k = before.len() + i;
    assert(all.subrange(k, k + part.len()) =~= s.subrange(i, i + part.len()));
    assert(occurs_at(all, part, k));
}

/// What holds a text that holds another holds that one too.
pub proof fn lemma_contains_through(all: Seq<char>, middle: Seq<char>, part: Seq<char>)
    requires
        contains(all, middle),
        contains(middle, part),
    ensures
        contains(all, part),
{
    let i = choose|i: int| occurs_at(all, middle, i);
    let j = choose|j: int| occurs_at(middle, part, j);
    assert(all.subrange(i + j, i + j + part.len()) =~= all.subrange(i, i + middle.len()).subrange(
        j,
        j + part.len(),
    ));
    assert(occurs_at(all, part, i + j));
}

/// What was put together starts with its first part.
pub proof fn lemma_starts_with_first(parts: Seq<Seq<char>>, sep: Seq<char>)
    requires
        parts.len() > 0,
    ensures
        starts_with(join(parts, sep), parts[0]),
    decreases parts.len(),
{
    let all = join(parts, sep);
    if parts.len() == 1 {
        assert(all.subrange(0, parts[0].len() as int) =~= parts[0]);
    } else {
        let front = parts.drop_last();
        lemma_starts_with_first(front, sep);
        assert(front[0] == parts[0]);
        assert(all.subrange(0, parts[0].len() as int) =~= join(front, sep).subrange(
            0,
            parts[0].len() as int,
        ));
    }
}

/// Splitting a text whose last part holds no separator splits off that part.
pub proof fn lemma_split_last(a: Seq<char>, c: char, last: Seq<char>)
    requires
        !last.contains(c),
    ensures
        split(a + seq![c] + last, c) == split(a, c).push(last),
        split(last, c) == seq![last],
    decreases a.len(),
{
    let s = a + seq![c] + last;
    lemma_before(last, c);
    assert(split(last, c) =~= seq![last]) by {
        if before(last, c) < last.len() {
            assert(last[before(last, c)] == c);
        }
    }
    lemma_before(a, c);
    let k = before(a, c);
    if k < a.len() {
        assert forall|i: int| 0 <= i < k implies s[i] != c by {
            assert(s[i] == a[i]);
        }
        assert(s[k] == a[k]);
        lemma_before_is(s, c, k);
        lemma_split_last(a.skip(k + 1), c, last);
        assert(s.skip(k + 1) =~= a.skip(k + 1) + seq![c] + last);
        assert(s.take(k) =~= a.take(k));
        assert(split(s, c) =~= split(a, c).push(last));
    } else {
        assert forall|i: int| 0 <= i < a.len() implies s[i] != c by {
            assert(s[i] == a[i]);
        }
        assert(s[a.len() as int] == c);
        lemma_before_is(s, c, a.len() as int);
        assert(s.skip(a.len() as int + 1) =~= last);
        assert(s.take(a.len() as int) =~= a);
        assert(split(s, c) =~= split(a, c).push(last));
    }
}

} // verus!
