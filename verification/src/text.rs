//! Text primitives: what the rest of the library needs of strings, stated over
//! sequences of characters.

use vstd::prelude::*;
use vstd::utf8::{decode_utf8, valid_utf8};

verus! {

/// `String::push`: appends one character at the end of the string.
pub assume_specification[ String::push ](s: &mut String, c: char)
    ensures
        final(s)@ == old(s)@.push(c),
;

// ── conversions ───────────────────────────────────────────────────────────────

/// The characters of `s`, in order.
pub fn chars_of(s: &str) -> (r: Vec<char>)
    ensures
        r@ == s@,
{
    let mut out: Vec<char> = Vec::new();
    for c in it: s.chars()
        invariant
            out@ == it.seq().take(it.index() as int),
            it.seq() == s@,
    {
        out.push(c);
    }
    out
}

/// The string that holds `chars`, in order.
pub fn string_of(chars: &[char]) -> (r: String)
    ensures
        r@ == chars@,
{
    let mut out = String::new();
    let n: usize = chars.len();
    for i in 0..n
        invariant
            n == chars@.len(),
            out@ == chars@.take(i as int),
    {
        out.push(chars[i]);
        assert(chars@.take(i as int).push(chars@[i as int]) == chars@.take(i as int + 1));
    }
    assert(chars@.take(n as int) == chars@);
    out
}

/// Whether two strings hold the same characters.
pub fn same_text(a: &str, b: &str) -> (r: bool)
    ensures
        r == (a@ == b@),
{
    a.to_owned() == b.to_owned()
}

/// The texts that a sequence of strings holds.
pub open spec fn texts(v: Seq<String>) -> Seq<Seq<char>> {
    v.map_values(|s: String| s@)
}

/// The text that an optional string slice holds.
pub open spec fn opt_text(o: Option<&str>) -> Option<Seq<char>> {
    match o {
        Some(s) => Some(s@),
        None => None,
    }
}

/// The text that an optional string holds.
pub open spec fn opt_string(o: Option<String>) -> Option<Seq<char>> {
    match o {
        Some(s) => Some(s@),
        None => None,
    }
}

/// The texts that an optional vector of strings holds.
pub open spec fn opt_texts(o: Option<Vec<String>>) -> Option<Seq<Seq<char>>> {
    match o {
        Some(v) => Some(texts(v@)),
        None => None,
    }
}

/// The texts that a sequence of pairs of strings holds.
pub open spec fn text_pairs(v: Seq<(String, String)>) -> Seq<(Seq<char>, Seq<char>)> {
    v.map_values(|p: (String, String)| (p.0@, p.1@))
}

/// What `String::from_utf8_lossy` makes of some bytes.
pub uninterp spec fn utf8_lossy(bytes: Seq<u8>) -> Seq<char>;

/// `String::from_utf8_lossy`: the text that `bytes` encode in UTF-8, where they
/// encode one; otherwise with replacement characters for what is not UTF-8.
#[verifier::external_body]
pub(crate) fn text_from_bytes(bytes: &[u8]) -> (r: String)
    ensures
        r@ == utf8_lossy(bytes@),
        valid_utf8(bytes@) ==> r@ == decode_utf8(bytes@),
{
    String::from_utf8_lossy(bytes).into_owned()
}

/// `String::from_utf8`: the text that `bytes` encode in UTF-8, or `None` where
/// they encode none.
#[verifier::external_body]
pub(crate) fn text_from_utf8(bytes: Vec<u8>) -> (r: Option<String>)
    ensures
        match r {
            Some(s) => valid_utf8(bytes@) && s@ == decode_utf8(bytes@),
            None => !valid_utf8(bytes@),
        },
{
    String::from_utf8(bytes).ok()
}

// ── prefixes and suffixes ─────────────────────────────────────────────────────

pub open spec fn starts_with(s: Seq<char>, prefix: Seq<char>) -> bool {
    prefix.len() <= s.len() && s.take(prefix.len() as int) == prefix
}

pub open spec fn ends_with(s: Seq<char>, suffix: Seq<char>) -> bool {
    suffix.len() <= s.len() && s.skip(s.len() - suffix.len()) == suffix
}

/// Whether `s` begins with `prefix`.
pub fn has_prefix(s: &str, prefix: &str) -> (r: bool)
    ensures
        r == starts_with(s@, prefix@),
{
    let cs = chars_of(s);
    let ps = chars_of(prefix);
    if ps.len() > cs.len() {
        return false;
    }
    let n: usize = ps.len();
    for i in 0..n
        invariant
            n == ps@.len() <= cs@.len(),
            cs@ == s@,
            ps@ == prefix@,
            forall|j: int| 0 <= j < i ==> cs@[j] == ps@[j],
    {
        if cs[i] != ps[i] {
            assert(s@.take(prefix@.len() as int)[i as int] != prefix@[i as int]);
            return false;
        }
    }
    assert(s@.take(prefix@.len() as int) == prefix@);
    true
}

/// Whether `s` ends with `suffix`.
pub fn has_suffix(s: &str, suffix: &str) -> (r: bool)
    ensures
        r == ends_with(s@, suffix@),
{
    let cs = chars_of(s);
    let ps = chars_of(suffix);
    if ps.len() > cs.len() {
        return false;
    }
    let n: usize = ps.len();
    let off: usize = cs.len() - n;
    for i in 0..n
        invariant
            n == ps@.len() <= cs@.len() <= usize::MAX,
            off == cs@.len() - n,
            cs@ == s@,
            ps@ == suffix@,
            forall|j: int| 0 <= j < i ==> cs@[off + j] == ps@[j],
    {
        if cs[off + i] != ps[i] {
            assert(s@.skip(s@.len() - suffix@.len())[i as int] != suffix@[i as int]);
            return false;
        }
    }
    assert(s@.skip(s@.len() - suffix@.len()) == suffix@);
    true
}

// ── letter case ───────────────────────────────────────────────────────────────

/// `c` in lower case, where it is an ASCII letter.
pub open spec fn ascii_lower(c: char) -> char {
    if 'A' <= c <= 'Z' {
        (c as int + 32) as char
    } else {
        c
    }
}

/// Whether `a` and `b` are the same text but for the case of ASCII letters.
pub open spec fn same_ignoring_case(a: Seq<char>, b: Seq<char>) -> bool {
    &&& a.len() == b.len()
    &&& forall|i: int| 0 <= i < a.len() ==> ascii_lower(#[trigger] a[i]) == ascii_lower(b[i])
}

fn to_ascii_lower(c: char) -> (r: char)
    ensures
        r == ascii_lower(c),
{
    if 'A' <= c && c <= 'Z' {
        (c as u8 + 32) as char
    } else {
        c
    }
}

/// Whether `a` and `b` are the same text but for the case of ASCII letters.
pub fn eq_ignore_ascii_case(a: &str, b: &str) -> (r: bool)
    ensures
        r == same_ignoring_case(a@, b@),
{
    let xs = chars_of(a);
    let ys = chars_of(b);
    if xs.len() != ys.len() {
        return false;
    }
    let n: usize = xs.len();
    for i in 0..n
        invariant
            n == xs@.len() == ys@.len(),
            xs@ == a@,
            ys@ == b@,
            forall|j: int| 0 <= j < i ==> ascii_lower(#[trigger] xs@[j]) == ascii_lower(ys@[j]),
    {
        if to_ascii_lower(xs[i]) != to_ascii_lower(ys[i]) {
            assert(ascii_lower(a@[i as int]) != ascii_lower(b@[i as int]));
            return false;
        }
    }
    true
}

// ── white space ───────────────────────────────────────────────────────────────

/// The characters with the Unicode property `White_Space`.
pub open spec fn white_space(c: char) -> bool {
    ||| '\u{9}' <= c <= '\u{d}'
    ||| c == ' '
    ||| c == '\u{85}'
    ||| c == '\u{a0}'
    ||| c == '\u{1680}'
    ||| '\u{2000}' <= c <= '\u{200a}'
    ||| c == '\u{2028}'
    ||| c == '\u{2029}'
    ||| c == '\u{202f}'
    ||| c == '\u{205f}'
    ||| c == '\u{3000}'
}

/// Whether `c` is white space.
pub fn is_white_space(c: char) -> (r: bool)
    ensures
        r == white_space(c),
{
    ('\u{9}' <= c && c <= '\u{d}') || c == ' ' || c == '\u{85}' || c == '\u{a0}' || c
        == '\u{1680}' || ('\u{2000}' <= c && c <= '\u{200a}') || c == '\u{2028}' || c == '\u{2029}'
        || c == '\u{202f}' || c == '\u{205f}' || c == '\u{3000}'
}

/// `s` without its leading white space.
pub open spec fn trim_start(s: Seq<char>) -> Seq<char>
    decreases s.len(),
{
    if s.len() > 0 && white_space(s[0]) {
        trim_start(s.skip(1))
    } else {
        s
    }
}

/// `s` without its trailing white space.
pub open spec fn trim_end(s: Seq<char>) -> Seq<char>
    decreases s.len(),
{
    if s.len() > 0 && white_space(s.last()) {
        trim_end(s.drop_last())
    } else {
        s
    }
}

/// `s` without its leading and trailing white space.
pub open spec fn trimmed(s: Seq<char>) -> Seq<char> {
    trim_end(trim_start(s))
}

/// `s` without its leading and trailing white space.
pub fn trim(s: &str) -> (r: &str)
    ensures
        r@ == trimmed(s@),
{
    let cs = chars_of(s);
    let n: usize = cs.len();
    let mut from: usize = 0;
    assert(cs@.skip(0) == s@);
    while from < n && is_white_space(cs[from])
        invariant
            n == cs@.len(),
            from <= n,
            cs@ == s@,
            trim_start(cs@.skip(from as int)) == trim_start(s@),
        decreases n - from,
    {
        assert(cs@.skip(from as int).skip(1) == cs@.skip(from as int + 1));
        from = from + 1;
    }
    let mut to: usize = n;
    assert(cs@.subrange(from as int, n as int) == cs@.skip(from as int));
    while from < to && is_white_space(cs[to - 1])
        invariant
            n == cs@.len(),
            from <= to <= n,
            cs@ == s@,
            trim_end(cs@.subrange(from as int, to as int)) == trimmed(s@),
        decreases to,
    {
        assert(cs@.subrange(from as int, to as int).drop_last() == cs@.subrange(
            from as int,
            to as int - 1,
        ));
        to = to - 1;
    }
    s.substring_char(from, to)
}

/// Text that neither starts nor ends in white space stays as it is.
pub proof fn lemma_trimmed_unchanged(s: Seq<char>)
    requires
        s.len() > 0 ==> !white_space(s[0]) && !white_space(s.last()),
    ensures
        trimmed(s) == s,
{
}

// ── splitting ─────────────────────────────────────────────────────────────────

/// The index of the first `c` in `s`, or the length of `s` where there is none.
pub open spec fn position(s: Seq<char>, c: char) -> nat
    decreases s.len(),
{
    if s.len() == 0 || s[0] == c {
        0
    } else {
        1 + position(s.skip(1), c)
    }
}

/// `position` is where the first `c` stands.
pub proof fn lemma_position(s: Seq<char>, c: char)
    ensures
        position(s, c) <= s.len(),
        forall|j: int| 0 <= j < position(s, c) ==> s[j] != c,
        position(s, c) < s.len() ==> s[position(s, c) as int] == c,
    decreases s.len(),
{
    if s.len() > 0 && s[0] != c {
        let t = s.skip(1);
        lemma_position(t, c);
        assert forall|j: int| 0 <= j < position(s, c) implies s[j] != c by {
            if j > 0 {
                assert(t[j - 1] == s[j]);
            }
        }
    }
}

/// An index before which no `c` stands, and at which one stands or `s` ends, is
/// the position of `c`.
pub proof fn lemma_position_unique(s: Seq<char>, c: char, i: int)
    requires
        0 <= i <= s.len(),
        forall|j: int| 0 <= j < i ==> s[j] != c,
        i < s.len() ==> s[i] == c,
    ensures
        position(s, c) == i,
{
    lemma_position(s, c);
    let p = position(s, c) as int;
    if p < i {
        assert(s[p] != c);
    } else if i < p {
        assert(s[i] != c);
    }
}

/// The pieces of `s` between the occurrences of `sep`.
pub open spec fn split(s: Seq<char>, sep: char) -> Seq<Seq<char>>
    decreases s.len(),
    via split_decreases
{
    let i = position(s, sep) as int;
    if i >= s.len() {
        seq![s]
    } else {
        seq![s.take(i)] + split(s.skip(i + 1), sep)
    }
}

#[via_fn]
proof fn split_decreases(s: Seq<char>, sep: char) {
    lemma_position(s, sep);
}

/// A piece without separators in front of one is the first piece.
pub proof fn lemma_split_cons(piece: Seq<char>, sep: char, rest: Seq<char>)
    requires
        forall|j: int| 0 <= j < piece.len() ==> piece[j] != sep,
    ensures
        split(piece + seq![sep] + rest, sep) == seq![piece] + split(rest, sep),
{
    let whole = piece + seq![sep] + rest;
    lemma_position_unique(whole, sep, piece.len() as int);
    assert(whole.take(piece.len() as int) == piece);
    assert(whole.skip(piece.len() as int + 1) == rest);
}

/// Text without separators is its only piece.
pub proof fn lemma_split_one(piece: Seq<char>, sep: char)
    requires
        forall|j: int| 0 <= j < piece.len() ==> piece[j] != sep,
    ensures
        split(piece, sep) == seq![piece],
{
    lemma_position_unique(piece, sep, piece.len() as int);
}

/// The index of the first `c` in `cs` from `start` on.
fn find_from(cs: &Vec<char>, start: usize, c: char) -> (r: usize)
    requires
        start <= cs@.len(),
    ensures
        start <= r <= cs@.len(),
        r - start == position(cs@.skip(start as int), c),
{
    let n: usize = cs.len();
    let mut i: usize = start;
    let ghost rest = cs@.skip(start as int);
    while i < n && cs[i] != c
        invariant
            n == cs@.len(),
            start <= i <= n,
            rest == cs@.skip(start as int),
            forall|j: int| 0 <= j < i - start ==> rest[j] != c,
        decreases n - i,
    {
        i = i + 1;
    }
    proof {
        lemma_position_unique(rest, c, i - start);
    }
    i
}

/// The index of the first `c` in `s`, or the length of `s` where there is none.
pub fn find_char(s: &str, c: char) -> (r: usize)
    ensures
        r == position(s@, c),
{
    let cs = chars_of(s);
    assert(cs@.skip(0) == s@);
    find_from(&cs, 0, c)
}

/// The pieces of `s` between the occurrences of `sep`.
pub fn split_text(s: &str, sep: char) -> (r: Vec<String>)
    ensures
        texts(r@) == split(s@, sep),
{
    let cs = chars_of(s);
    let n: usize = cs.len();
    let mut out: Vec<String> = Vec::new();
    let mut start: usize = 0;
    assert(cs@.skip(0) == s@);
    loop
        invariant_except_break
            texts(out@) + split(cs@.skip(start as int), sep) == split(s@, sep),
        invariant
            n == cs@.len(),
            cs@ == s@,
            start <= n,
        ensures
            texts(out@) == split(s@, sep),
        decreases n - start,
    {
        let end: usize = find_from(&cs, start, sep);
        let ghost before = out@;
        let piece = s.substring_char(start, end).to_owned();
        out.push(piece);
        proof {
            let rest = cs@.skip(start as int);
            assert(rest.take(end - start) == cs@.subrange(start as int, end as int));
            assert(texts(out@) == texts(before).push(piece@));
            if end < n {
                assert(rest.skip(end - start + 1) == cs@.skip(end as int + 1));
                assert(texts(before) + (seq![piece@] + split(cs@.skip(end as int + 1), sep))
                    == texts(out@) + split(cs@.skip(end as int + 1), sep));
            } else {
                assert(rest == piece@);
            }
        }
        if end >= n {
            break;
        }
        start = end + 1;
    }
    out
}

/// `line` without the carriage return that it ends in, if it does.
pub open spec fn strip_cr(line: Seq<char>) -> Seq<char> {
    if line.len() > 0 && line.last() == '\r' {
        line.drop_last()
    } else {
        line
    }
}

/// The lines of `s`. A line ends in `\n` or `\r\n`, which is no part of it; the
/// ending of the last line is optional.
pub open spec fn lines(s: Seq<char>) -> Seq<Seq<char>>
    decreases s.len(),
    via lines_decreases
{
    let i = position(s, '\n') as int;
    if s.len() == 0 {
        seq![]
    } else if i >= s.len() {
        seq![s]
    } else {
        seq![strip_cr(s.take(i))] + lines(s.skip(i + 1))
    }
}

#[via_fn]
proof fn lines_decreases(s: Seq<char>) {
    lemma_position(s, '\n');
}

/// The lines of `s`.
pub fn lines_of(s: &str) -> (r: Vec<String>)
    ensures
        texts(r@) == lines(s@),
{
    let cs = chars_of(s);
    let n: usize = cs.len();
    let mut out: Vec<String> = Vec::new();
    let mut start: usize = 0;
    assert(cs@.skip(0) == s@);
    while start < n
        invariant
            n == cs@.len(),
            cs@ == s@,
            start <= n,
            texts(out@) + lines(cs@.skip(start as int)) == lines(s@),
        decreases n - start,
    {
        let end: usize = find_from(&cs, start, '\n');
        let ghost before = out@;
        let ghost rest = cs@.skip(start as int);
        let mut stop: usize = end;
        if end < n && start < end && cs[end - 1] == '\r' {
            stop = end - 1;
        }
        let piece = s.substring_char(start, stop).to_owned();
        out.push(piece);
        proof {
            assert(texts(out@) == texts(before).push(piece@));
            assert(rest.take(end - start) == cs@.subrange(start as int, end as int));
            if end < n {
                let line = rest.take(end - start);
                assert(piece@ == strip_cr(line)) by {
                    if line.len() > 0 && line.last() == '\r' {
                        assert(line.drop_last() == cs@.subrange(start as int, stop as int));
                    }
                }
                assert(rest.skip(end - start + 1) == cs@.skip(end as int + 1));
                assert(texts(before) + (seq![piece@] + lines(cs@.skip(end as int + 1)))
                    == texts(out@) + lines(cs@.skip(end as int + 1)));
            } else {
                assert(rest == piece@);
                assert(lines(cs@.skip(n as int)) == Seq::<Seq<char>>::empty());
            }
        }
        if end < n {
            start = end + 1;
        } else {
            start = n;
        }
    }
    assert(lines(cs@.skip(n as int)) == Seq::<Seq<char>>::empty());
    out
}

// ── lists of texts ────────────────────────────────────────────────────────────

/// The index of the first `x` in `list`, or the length of `list` where there is
/// none.
pub open spec fn index_of(list: Seq<Seq<char>>, x: Seq<char>) -> nat
    decreases list.len(),
{
    if list.len() == 0 || list[0] == x {
        0
    } else {
        1 + index_of(list.skip(1), x)
    }
}

/// `index_of` is where the first `x` stands.
pub proof fn lemma_index_of(list: Seq<Seq<char>>, x: Seq<char>)
    ensures
        index_of(list, x) <= list.len(),
        forall|j: int| 0 <= j < index_of(list, x) ==> list[j] != x,
        index_of(list, x) < list.len() ==> list[index_of(list, x) as int] == x,
        index_of(list, x) < list.len() <==> list.contains(x),
    decreases list.len(),
{
    if list.len() > 0 && list[0] != x {
        let rest = list.skip(1);
        lemma_index_of(rest, x);
        assert forall|j: int| 0 <= j < index_of(list, x) implies list[j] != x by {
            if j > 0 {
                assert(rest[j - 1] == list[j]);
            }
        }
        if list.contains(x) {
            let k = choose|k: int| 0 <= k < list.len() && list[k] == x;
            assert(rest[k - 1] == x);
        }
    }
}

/// The index of the first `x` in `list`, or the length of `list` where there is
/// none.
pub fn find_text(list: &[String], x: &str) -> (r: usize)
    ensures
        r == index_of(texts(list@), x@),
{
    let n: usize = list.len();
    let ghost views = texts(list@);
    assert(views.skip(0) == views);
    for i in 0..n
        invariant
            n == list@.len(),
            views == texts(list@),
            index_of(views, x@) == i + index_of(views.skip(i as int), x@),
    {
        assert(views.skip(i as int)[0] == list@[i as int]@);
        if same_text(list[i].as_str(), x) {
            return i;
        }
        assert(views.skip(i as int).skip(1) == views.skip(i as int + 1));
    }
    n
}

/// Whether `x` is one of the texts in `list`.
pub fn has_text(list: &[String], x: &str) -> (r: bool)
    ensures
        r == texts(list@).contains(x@),
{
    proof {
        lemma_index_of(texts(list@), x@);
    }
    find_text(list, x) < list.len()
}

/// Copies of the texts of `list` from `from` up to `to`.
pub fn copy_range(list: &[String], from: usize, to: usize) -> (r: Vec<String>)
    requires
        from <= to <= list@.len(),
    ensures
        texts(r@) == texts(list@).subrange(from as int, to as int),
{
    let mut out: Vec<String> = Vec::new();
    for i in from..to
        invariant
            from <= to <= list@.len(),
            texts(out@) == texts(list@).subrange(from as int, i as int),
    {
        let ghost before = out@;
        let text = list[i].clone();
        out.push(text);
        assert(texts(out@) == texts(before).push(text@));
        assert(texts(list@).subrange(from as int, i as int + 1) == texts(list@).subrange(
            from as int,
            i as int,
        ).push(text@));
    }
    out
}

// ── joining ───────────────────────────────────────────────────────────────────

/// The pieces one after the other, with `sep` between them.
pub open spec fn joined(pieces: Seq<Seq<char>>, sep: Seq<char>) -> Seq<char>
    decreases pieces.len(),
{
    if pieces.len() == 0 {
        seq![]
    } else if pieces.len() == 1 {
        pieces[0]
    } else {
        joined(pieces.drop_last(), sep) + sep + pieces.last()
    }
}

/// The pieces one after the other, with `sep` between them.
pub fn join_texts(pieces: &[String], sep: &str) -> (r: String)
    ensures
        r@ == joined(texts(pieces@), sep@),
{
    let mut out = String::new();
    let n: usize = pieces.len();
    for i in 0..n
        invariant
            n == pieces@.len(),
            out@ == joined(texts(pieces@).take(i as int), sep@),
    {
        if i > 0 {
            out.append(sep);
        }
        out.append(pieces[i].as_str());
        proof {
            let next = texts(pieces@).take(i as int + 1);
            assert(next.drop_last() == texts(pieces@).take(i as int));
            assert(next.last() == pieces@[i as int]@);
        }
    }
    assert(texts(pieces@).take(n as int) == texts(pieces@));
    out
}

// ── what holds of text ────────────────────────────────────────────────────────

/// Trimming takes white space away at both ends, all of it, and nothing else: white
/// space in front of or behind a text makes no difference to it.
pub proof fn law_trimmed(front: Seq<char>, s: Seq<char>, back: Seq<char>)
    requires
        forall|i: int| 0 <= i < front.len() ==> white_space(#[trigger] front[i]),
        forall|i: int| 0 <= i < back.len() ==> white_space(#[trigger] back[i]),
        s.len() > 0 ==> !white_space(s[0]) && !white_space(s.last()),
    ensures
        trimmed(front + s + back) == s,
{
    lemma_trim_front(front, s + back);
    assert(front + (s + back) == front + s + back);
    if s.len() == 0 {
        assert(s + back == back);
        lemma_trim_front(back, s);
        assert(back + s == back);
    } else {
        assert((s + back)[0] == s[0]);
        lemma_trim_back(s, back);
    }
}

proof fn lemma_trim_front(front: Seq<char>, s: Seq<char>)
    requires
        forall|i: int| 0 <= i < front.len() ==> white_space(#[trigger] front[i]),
    ensures
        trim_start(front + s) == trim_start(s),
    decreases front.len(),
{
    if front.len() == 0 {
        assert(front + s == s);
    } else {
        assert((front + s).skip(1) == front.skip(1) + s);
        assert forall|i: int| 0 <= i < front.skip(1).len() implies white_space(
            #[trigger] front.skip(1)[i],
        ) by {
            assert(front.skip(1)[i] == front[i + 1]);
        }
        lemma_trim_front(front.skip(1), s);
    }
}

proof fn lemma_trim_back(s: Seq<char>, back: Seq<char>)
    requires
        forall|i: int| 0 <= i < back.len() ==> white_space(#[trigger] back[i]),
    ensures
        trim_end(s + back) == trim_end(s),
    decreases back.len(),
{
    if back.len() == 0 {
        assert(s + back == s);
    } else {
        assert((s + back).drop_last() == s + back.drop_last());
        assert forall|i: int| 0 <= i < back.drop_last().len() implies white_space(
            #[trigger] back.drop_last()[i],
        ) by {
            assert(back.drop_last()[i] == back[i]);
        }
        lemma_trim_back(s, back.drop_last());
    }
}

/// Every text is some white space, what trimming leaves of it, and some white space;
/// what is left neither begins nor ends in white space.
pub proof fn law_trimmed_is_the_middle(s: Seq<char>)
    ensures
        exists|i: int, j: int|
            0 <= i <= j <= s.len() && trimmed(s) == #[trigger] s.subrange(i, j) && (forall|k: int|
                0 <= k < i || j <= k < s.len() ==> white_space(#[trigger] s[k])),
        trimmed(s).len() > 0 ==> !white_space(trimmed(s)[0]) && !white_space(trimmed(s).last()),
{
    let i = lemma_trim_start_skips(s);
    let t = s.skip(i);
    let j = lemma_trim_end_takes(t);
    assert(t.take(j) == s.subrange(i, i + j));
    assert forall|k: int| 0 <= k < i || i + j <= k < s.len() implies white_space(
        #[trigger] s[k],
    ) by {
        if k >= i + j {
            assert(t[k - i] == s[k]);
        }
    }
    if j > 0 {
        assert(trimmed(s)[0] == t[0]);
    }
}

proof fn lemma_trim_start_skips(s: Seq<char>) -> (i: int)
    ensures
        0 <= i <= s.len(),
        trim_start(s) == s.skip(i),
        forall|k: int| 0 <= k < i ==> white_space(#[trigger] s[k]),
        i < s.len() ==> !white_space(s[i]),
    decreases s.len(),
{
    if s.len() > 0 && white_space(s[0]) {
        let t = s.skip(1);
        let n = lemma_trim_start_skips(t);
        assert(t.skip(n) == s.skip(n + 1));
        assert forall|k: int| 0 <= k < n + 1 implies white_space(#[trigger] s[k]) by {
            if k > 0 {
                assert(t[k - 1] == s[k]);
            }
        }
        if n < t.len() {
            assert(t[n] == s[n + 1]);
        }
        n + 1
    } else {
        assert(s.skip(0) == s);
        0
    }
}

proof fn lemma_trim_end_takes(s: Seq<char>) -> (j: int)
    ensures
        0 <= j <= s.len(),
        trim_end(s) == s.take(j),
        forall|k: int| j <= k < s.len() ==> white_space(#[trigger] s[k]),
        j > 0 ==> !white_space(s[j - 1]),
    decreases s.len(),
{
    if s.len() > 0 && white_space(s.last()) {
        let t = s.drop_last();
        let n = lemma_trim_end_takes(t);
        assert(t.take(n) == s.take(n));
        assert forall|k: int| n <= k < s.len() implies white_space(#[trigger] s[k]) by {
            if k < t.len() {
                assert(t[k] == s[k]);
            }
        }
        if n > 0 {
            assert(t[n - 1] == s[n - 1]);
        }
        n
    } else {
        assert(s.take(s.len() as int) == s);
        s.len() as int
    }
}

/// The pieces of a text, put together again with the separator between them, are that
/// text, and no piece holds a separator.
pub proof fn law_split_pieces(s: Seq<char>, sep: char)
    ensures
        joined(split(s, sep), seq![sep]) == s,
        split(s, sep).len() > 0,
        forall|i: int| 0 <= i < split(s, sep).len() ==> !(#[trigger] split(s, sep)[i]).contains(sep),
    decreases s.len(),
{
    lemma_position(s, sep);
    let i = position(s, sep) as int;
    let pieces = split(s, sep);
    if i >= s.len() {
        assert(pieces == seq![s]);
        assert(!s.contains(sep));
    } else {
        let first = s.take(i);
        let rest = s.skip(i + 1);
        law_split_pieces(rest, sep);
        let others = split(rest, sep);
        assert(pieces == seq![first] + others);
        law_joined_front(first, others, seq![sep]);
        assert(first + seq![sep] + rest == s);
        assert forall|k: int| 0 <= k < pieces.len() implies !(#[trigger] pieces[k]).contains(sep) by {
            if k > 0 {
                assert(pieces[k] == others[k - 1]);
            }
        }
    }
}

/// Pieces are joined from the front as from the back: nothing is nothing, one piece is
/// itself, and a piece in front of others stands in front of them with the separator
/// between.
pub proof fn law_joined_front(first: Seq<char>, others: Seq<Seq<char>>, sep: Seq<char>)
    ensures
        joined(seq![], sep) == Seq::<char>::empty(),
        joined(seq![first], sep) == first,
        others.len() > 0 ==> joined(seq![first] + others, sep) == first + sep + joined(others, sep),
    decreases others.len(),
{
    if others.len() > 0 {
        let all = seq![first] + others;
        assert(all.drop_last() == seq![first] + others.drop_last());
        assert(all.last() == others.last());
        if others.len() == 1 {
            assert(others.drop_last() == Seq::<Seq<char>>::empty());
            assert(all.drop_last() == seq![first]);
        } else {
            law_joined_front(first, others.drop_last(), sep);
            assert(first + sep + joined(others.drop_last(), sep) + sep + others.last() == first + sep
                + (joined(others.drop_last(), sep) + sep + others.last()));
        }
    }
}

/// A line ends at a line break, which is no part of it, nor is a carriage return in front
/// of the break. What follows the break are the other lines; the last line needs none.
pub proof fn law_lines(line: Seq<char>, rest: Seq<char>)
    requires
        !line.contains('\n'),
    ensures
        lines(seq![]) == Seq::<Seq<char>>::empty(),
        line.len() > 0 ==> lines(line) == seq![line],
        lines(line + seq!['\r', '\n'] + rest) == seq![line] + lines(rest),
        (line.len() > 0 ==> line.last() != '\r') ==> lines(line + seq!['\n'] + rest) == seq![line]
            + lines(rest),
{
    assert forall|j: int| 0 <= j < line.len() implies line[j] != '\n' by {
        assert(line.contains(line[j]));
    }
    lemma_position_unique(line, '\n', line.len() as int);
    let a = line + seq!['\n'] + rest;
    lemma_position_unique(a, '\n', line.len() as int);
    assert(a.take(line.len() as int) == line);
    assert(a.skip(line.len() as int + 1) == rest);
    let b = line + seq!['\r', '\n'] + rest;
    let n = line.len() as int + 1;
    lemma_position_unique(b, '\n', n);
    assert(b.take(n) == line.push('\r'));
    assert(b.take(n).drop_last() == line);
    assert(b.skip(n + 1) == rest);
}

/// A text begins with a prefix exactly where something follows the prefix in it, and ends
/// with a suffix exactly where something precedes the suffix.
pub proof fn law_prefix_and_suffix(s: Seq<char>, part: Seq<char>, other: Seq<char>)
    ensures
        starts_with(part + other, part),
        ends_with(other + part, part),
        starts_with(s, part) ==> s == part + s.skip(part.len() as int),
        ends_with(s, part) ==> s == s.take(s.len() - part.len()) + part,
{
    assert((part + other).take(part.len() as int) == part);
    let e = other + part;
    assert(e.skip(e.len() - part.len()) == part);
    if starts_with(s, part) {
        assert(s == s.take(part.len() as int) + s.skip(part.len() as int));
    }
    if ends_with(s, part) {
        assert(s == s.take(s.len() - part.len()) + s.skip(s.len() - part.len()));
    }
}

/// The case of the twenty-six letters makes no difference, and every other difference
/// does.
pub proof fn law_letter_case(a: Seq<char>, b: Seq<char>, i: int, k: int)
    requires
        0 <= i < a.len(),
        0 <= k < 26,
    ensures
        same_ignoring_case(a, a),
        same_ignoring_case(a, b) ==> same_ignoring_case(b, a) && a.len() == b.len(),
        a[i] == ('a' as int + k) as char ==> same_ignoring_case(
            a,
            a.update(i, ('A' as int + k) as char),
        ),
        same_ignoring_case(a, b) ==> a[i] == b[i] || (exists|n: int|
            0 <= n < 26 && ((a[i] as int == 'a' as int + n && b[i] as int == #[trigger] ('A' as int
                + n)) || (b[i] as int == 'a' as int + n && a[i] as int == 'A' as int + n))),
{
    let upper = ('A' as int + k) as char;
    if a[i] == ('a' as int + k) as char {
        let c = a.update(i, upper);
        assert forall|j: int| 0 <= j < a.len() implies ascii_lower(#[trigger] a[j]) == ascii_lower(
            c[j],
        ) by {}
    }
    if same_ignoring_case(a, b) {
        assert forall|j: int| 0 <= j < b.len() implies ascii_lower(#[trigger] b[j]) == ascii_lower(
            a[j],
        ) by {
            assert(ascii_lower(a[j]) == ascii_lower(b[j]));
        }
        assert(ascii_lower(a[i]) == ascii_lower(b[i]));
        if a[i] != b[i] {
            let n: int = if 'A' <= a[i] <= 'Z' {
                a[i] as int - 'A' as int
            } else {
                b[i] as int - 'A' as int
            };
            assert('A' as int + n == a[i] as int || 'A' as int + n == b[i] as int);
        }
    }
}

/// Among the ASCII characters the blank and the five from the tab to the carriage return
/// are white space; what can be seen is not, and neither is the zero-width space.
pub proof fn law_white_space(c: char)
    ensures
        c <= '\u{7f}' ==> (white_space(c) <==> c == ' ' || c == '\t' || c == '\n' || c == '\u{b}'
            || c == '\u{c}' || c == '\r'),
        !white_space('\u{200b}'),
        !white_space('\u{feff}'),
        white_space('\u{85}') && white_space('\u{a0}') && white_space('\u{1680}') && white_space(
            '\u{2028}',
        ) && white_space('\u{2029}') && white_space('\u{202f}') && white_space('\u{205f}')
            && white_space('\u{3000}'),
        '\u{2000}' <= c <= '\u{200a}' ==> white_space(c),
        '\u{a1}' <= c <= '\u{167f}' || '\u{1681}' <= c <= '\u{1fff}' || c > '\u{3000}'
            ==> !white_space(c),
{
}

} // verus!
