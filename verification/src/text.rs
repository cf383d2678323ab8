//! Operations on text, each stated over the text's sequence of characters.

use crate::seqs::lemma_filter_push;
use vstd::prelude::*;

verus! {

/// Unicode's `White_Space` property: the characters that trimming removes and words are split on.
pub open spec fn white(c: char) -> bool {
    let n = c as u32;
    ||| 0x9 <= n <= 0xd
    ||| n == 0x20
    ||| n == 0x85
    ||| n == 0xa0
    ||| n == 0x1680
    ||| 0x2000 <= n <= 0x200a
    ||| n == 0x2028
    ||| n == 0x2029
    ||| n == 0x202f
    ||| n == 0x205f
    ||| n == 0x3000
}

/// The lower-case form of an ASCII capital; any other character unchanged.
pub open spec fn lower_char(c: char) -> char {
    if 'A' <= c && c <= 'Z' {
        (c as u32 + 32) as char
    } else {
        c
    }
}

/// A text with its ASCII capitals in lower case.
pub open spec fn lower(s: Seq<char>) -> Seq<char> {
    Seq::new(s.len(), |i: int| lower_char(s[i]))
}

/// Whether `c` has the `White_Space` property.
pub fn is_white(c: char) -> (r: bool)
    ensures
        r == white(c),
{
    let n: u32 = c as u32;
    (0x9 <= n && n <= 0xd) || n == 0x20 || n == 0x85 || n == 0xa0 || n == 0x1680 || (0x2000 <= n
        && n <= 0x200a) || n == 0x2028 || n == 0x2029 || n == 0x202f || n == 0x205f || n == 0x3000
}

/// The lower-case form of an ASCII capital.
pub fn to_lower_char(c: char) -> (r: char)
    ensures
        r == lower_char(c),
{
    if 'A' <= c && c <= 'Z' {
        (c as u8 + 32) as char
    } else {
        c
    }
}

/// `String::push` appends one character.
pub assume_specification[ String::push ](s: &mut String, c: char)
    ensures
        final(s)@ == old(s)@.push(c),
;

/// The characters of a text, in order.
pub fn chars_of(s: &str) -> (r: Vec<char>)
    ensures
        r@ == s@,
{
    let mut out: Vec<char> = Vec::new();
    for c in it: s.chars()
        invariant
            out@ == it.seq().take(it.index()),
            it.seq() == s@,
    {
        out.push(c);
    }
    out
}

/// The text made of characters `from` up to, not including, `to`.
pub fn text_of_range(chars: &Vec<char>, from: usize, to: usize) -> (r: String)
    requires
        from <= to <= chars@.len(),
    ensures
        r@ == chars@.subrange(from as int, to as int),
{
    let mut out = String::new();
    let mut i: usize = from;
    while i < to
        invariant
            from <= i <= to <= chars@.len(),
            out@ == chars@.subrange(from as int, i as int),
        decreases to - i,
    {
        out.push(chars[i]);
        i += 1;
    }
    out
}

/// `s` without the white characters at its start.
pub open spec fn trim_start(s: Seq<char>) -> Seq<char>
    decreases s.len(),
{
    if s.len() > 0 && white(s[0]) {
        trim_start(s.drop_first())
    } else {
        s
    }
}

/// `s` without the white characters at its end.
pub open spec fn trim_end(s: Seq<char>) -> Seq<char>
    decreases s.len(),
{
    if s.len() > 0 && white(s.last()) {
        trim_end(s.drop_last())
    } else {
        s
    }
}

/// `s` without the white characters at either end.
pub open spec fn trimmed(s: Seq<char>) -> Seq<char> {
    trim_end(trim_start(s))
}

/// `s` without the characters `c` at its end.
pub open spec fn without_trailing(s: Seq<char>, c: char) -> Seq<char>
    decreases s.len(),
{
    if s.len() > 0 && s.last() == c {
        without_trailing(s.drop_last(), c)
    } else {
        s
    }
}

/// The pieces of `s` between the characters that `sep` picks out; always at least one.
pub open spec fn pieces(s: Seq<char>, sep: spec_fn(char) -> bool) -> Seq<Seq<char>>
    decreases s.len(),
{
    if s.len() == 0 {
        seq![Seq::empty()]
    } else {
        let before = pieces(s.drop_last(), sep);
        if sep(s.last()) {
            before.push(Seq::empty())
        } else {
            before.drop_last().push(before.last().push(s.last()))
        }
    }
}

/// The sequences among `all` that are not empty, in order.
pub open spec fn non_empty(all: Seq<Seq<char>>) -> Seq<Seq<char>> {
    all.filter(|w: Seq<char>| w.len() > 0)
}

/// The words of `s`: the longest runs without a white character.
pub open spec fn words(s: Seq<char>) -> Seq<Seq<char>> {
    non_empty(pieces(s, |c: char| white(c)))
}

/// `part` stands in `s` at position `i`.
pub open spec fn stands_at(s: Seq<char>, part: Seq<char>, i: int) -> bool {
    0 <= i && i + part.len() <= s.len() && s.subrange(i, i + part.len()) == part
}

/// `part` stands somewhere in `s`.
pub open spec fn has_part(s: Seq<char>, part: Seq<char>) -> bool {
    exists|i: int| stands_at(s, part, i)
}

/// `i` is the first position in `s` at which `part` stands.
pub open spec fn first_at(s: Seq<char>, part: Seq<char>, i: int) -> bool {
    stands_at(s, part, i) && forall|j: int| 0 <= j < i ==> !stands_at(s, part, j)
}

/// What is before and after the first `sep` in `s`.
pub open spec fn split_at_first(s: Seq<char>, sep: Seq<char>) -> Option<(Seq<char>, Seq<char>)> {
    if has_part(s, sep) {
        let i = choose|i: int| first_at(s, sep, i);
        Some((s.take(i), s.skip(i + sep.len())))
    } else {
        None
    }
}

/// The last line of a text that is not empty. A line feed ends a line; one at the very end of the
/// text begins no further line.
pub open spec fn last_line(s: Seq<char>) -> Seq<char> {
    let body = if s.len() > 0 && s.last() == '\n' {
        s.drop_last()
    } else {
        s
    };
    pieces(body, |c: char| c == '\n').last()
}

/// How many characters come before the first `c`; all of them where there is none.
pub open spec fn chars_before(s: Seq<char>, c: char) -> nat
    decreases s.len(),
{
    if s.len() == 0 || s[0] == c {
        0
    } else {
        1 + chars_before(s.skip(1), c)
    }
}

/// The texts one after the other, with `sep` between neighbours.
pub open spec fn joined(parts: Seq<Seq<char>>, sep: Seq<char>) -> Seq<char>
    decreases parts.len(),
{
    if parts.len() == 0 {
        Seq::empty()
    } else if parts.len() == 1 {
        parts[0]
    } else {
        joined(parts.drop_last(), sep) + sep + parts.last()
    }
}

/// A decimal digit.
pub open spec fn digit(c: char) -> bool {
    '0' <= c && c <= '9'
}

/// Only decimal digits.
pub open spec fn all_digits(s: Seq<char>) -> bool {
    forall|i: int| 0 <= i < s.len() ==> digit(#[trigger] s[i])
}

/// The number that decimal digits write.
pub open spec fn number_of_digits(s: Seq<char>) -> nat
    decreases s.len(),
{
    if s.len() == 0 {
        0
    } else {
        10 * number_of_digits(s.drop_last()) + (s.last() as u32 - '0' as u32) as nat
    }
}

/// A natural number in decimal digits, without leading zeros.
pub open spec fn digits_of(n: nat) -> Seq<char>
    decreases n,
{
    if n < 10 {
        seq![('0' as u32 + n) as char]
    } else {
        digits_of(n / 10).push(('0' as u32 + n % 10) as char)
    }
}

/// An integer in decimal, with `-` before the digits of a negative one.
pub open spec fn decimal(n: int) -> Seq<char> {
    if n < 0 {
        seq!['-'] + digits_of((-n) as nat)
    } else {
        digits_of(n as nat)
    }
}

/// The texts of strings.
pub open spec fn texts(all: Seq<String>) -> Seq<Seq<char>> {
    Seq::new(all.len(), |i: int| all[i]@)
}

/// Whether two texts are the same.
pub fn same(a: &str, b: &str) -> (r: bool)
    ensures
        r == (a@ == b@),
{
    a.to_owned() == b.to_owned()
}

/// The text with its ASCII capitals in lower case.
pub fn to_lower(s: &str) -> (r: String)
    ensures
        r@ == lower(s@),
{
    let chars = chars_of(s);
    let mut out = String::new();
    for i in 0..chars.len()
        invariant
            chars@ == s@,
            out@ == lower(s@).take(i as int),
    {
        out.push(to_lower_char(chars[i]));
    }
    assert(lower(s@).take(s@.len() as int) =~= lower(s@));
    out
}

/// The text without the white characters at either end.
pub fn trim(s: &str) -> (r: String)
    ensures
        r@ == trimmed(s@),
{
    let chars = chars_of(s);
    let mut from: usize = 0;
    assert(s@.skip(0) =~= s@);
    while from < chars.len() && is_white(chars[from])
        invariant
            chars@ == s@,
            from <= chars@.len(),
            trim_start(s@) == trim_start(s@.skip(from as int)),
        decreases chars@.len() - from,
    {
        assert(s@.skip(from as int).drop_first() =~= s@.skip(from + 1));
        from += 1;
    }
    assert(trim_start(s@) == s@.skip(from as int));
    let mut to: usize = chars.len();
    assert(s@.subrange(from as int, to as int) =~= s@.skip(from as int));
    while from < to && is_white(chars[to - 1])
        invariant
            chars@ == s@,
            from <= to <= chars@.len(),
            trimmed(s@) == trim_end(s@.subrange(from as int, to as int)),
        decreases to,
    {
        assert(s@.subrange(from as int, to as int).drop_last() =~= s@.subrange(
            from as int,
            to - 1,
        ));
        to -= 1;
    }
    text_of_range(&chars, from, to)
}

/// The text without the characters `c` at its end.
pub fn trim_trailing(s: &str, c: char) -> (r: String)
    ensures
        r@ == without_trailing(s@, c),
{
    let chars = chars_of(s);
    let mut to: usize = chars.len();
    assert(s@.take(to as int) =~= s@);
    while 0 < to && chars[to - 1] == c
        invariant
            chars@ == s@,
            to <= chars@.len(),
            without_trailing(s@, c) == without_trailing(s@.take(to as int), c),
        decreases to,
    {
        assert(s@.take(to as int).drop_last() =~= s@.take(to - 1));
        to -= 1;
    }
    text_of_range(&chars, 0, to)
}

/// There is at least one piece.
pub proof fn lemma_pieces_len(s: Seq<char>, sep: spec_fn(char) -> bool)
    ensures
        pieces(s, sep).len() >= 1,
    decreases s.len(),
{
    if s.len() > 0 {
        lemma_pieces_len(s.drop_last(), sep);
    }
}

/// The pieces of a text between the characters `c`.
pub fn split_on(s: &str, c: char) -> (r: Vec<String>)
    ensures
        texts(r@) == pieces(s@, |x: char| x == c),
{
    let chars = chars_of(s);
    let ghost sep = |x: char| x == c;
    let mut out: Vec<String> = Vec::new();
    let mut current = String::new();
    for i in 0..chars.len()
        invariant
            chars@ == s@,
            sep == (|x: char| x == c),
            texts(out@).push(current@) == pieces(s@.take(i as int), sep),
    {
        let ghost before = texts(out@);
        assert(s@.take(i + 1).drop_last() =~= s@.take(i as int));
        let ghost was = pieces(s@.take(i as int), sep);
        assert(was.drop_last() =~= before);
        assert(was.last() == current@);
        if chars[i] == c {
            out.push(current);
            current = String::new();
            assert(texts(out@) =~= was);
        } else {
            current.push(chars[i]);
        }
        assert(texts(out@).push(current@) =~= pieces(s@.take(i + 1), sep));
    }
    assert(s@.take(s@.len() as int) =~= s@);
    let ghost before = out@;
    out.push(current);
    assert(texts(out@) =~= texts(before).push(current@));
    out
}

/// One more piece is kept where it is not empty.
pub proof fn lemma_non_empty_push(all: Seq<Seq<char>>, w: Seq<char>)
    ensures
        non_empty(all.push(w)) == if w.len() > 0 {
            non_empty(all).push(w)
        } else {
            non_empty(all)
        },
{
    lemma_filter_push(all, w, |x: Seq<char>| x.len() > 0);
}

/// The words of a text.
pub fn split_words(s: &str) -> (r: Vec<String>)
    ensures
        texts(r@) == words(s@),
{
    let chars = chars_of(s);
    let ghost sep = |x: char| white(x);
    let mut out: Vec<String> = Vec::new();
    let mut current = String::new();
    proof {
        reveal(Seq::filter);
        assert(pieces(s@.take(0), sep).drop_last() =~= Seq::empty());
        assert(texts(out@) =~= Seq::empty());
    }
    for i in 0..chars.len()
        invariant
            chars@ == s@,
            sep == (|x: char| white(x)),
            pieces(s@.take(i as int), sep).len() >= 1,
            texts(out@) == non_empty(pieces(s@.take(i as int), sep).drop_last()),
            current@ == pieces(s@.take(i as int), sep).last(),
    {
        let ghost before = texts(out@);
        assert(s@.take(i + 1).drop_last() =~= s@.take(i as int));
        let ghost was = pieces(s@.take(i as int), sep);
        let ghost now = pieces(s@.take(i + 1), sep);
        assert(was.drop_last().push(was.last()) =~= was);
        proof {
            lemma_non_empty_push(was.drop_last(), was.last());
        }
        if is_white(chars[i]) {
            assert(now == was.push(Seq::empty()));
            assert(now.drop_last() =~= was);
            if !current.as_str().is_empty() {
                out.push(current);
                assert(texts(out@) =~= before.push(was.last()));
            }
            current = String::new();
        } else {
            assert(now == was.drop_last().push(was.last().push(s@[i as int])));
            assert(now.drop_last() =~= was.drop_last());
            current.push(chars[i]);
        }
    }
    assert(s@.take(s@.len() as int) =~= s@);
    let ghost was = pieces(s@, sep);
    proof {
        assert(was.drop_last().push(was.last()) =~= was);
        lemma_non_empty_push(was.drop_last(), was.last());
    }
    let ghost before = texts(out@);
    if !current.as_str().is_empty() {
        out.push(current);
        assert(texts(out@) =~= before.push(was.last()));
    }
    out
}

/// Whether `part` stands in `chars` at position `i`.
fn part_at(chars: &Vec<char>, part: &Vec<char>, i: usize) -> (r: bool)
    requires
        i <= chars@.len(),
    ensures
        r == stands_at(chars@, part@, i as int),
{
    let len: usize = chars.len();
    if len - i < part.len() {
        return false;
    }
    for j in 0..part.len()
        invariant
            i + part@.len() <= len,
            len == chars@.len(),
            forall|k: int| 0 <= k < j ==> chars@[i + k] == part@[k],
    {
        if chars[i + j] != part[j] {
            assert(chars@.subrange(i as int, i + part@.len())[j as int] != part@[j as int]);
            return false;
        }
    }
    assert(chars@.subrange(i as int, i + part@.len()) =~= part@);
    true
}

/// Whether a text begins with another.
pub fn begins_with(s: &str, start: &str) -> (r: bool)
    ensures
        r == start@.is_prefix_of(s@),
{
    let r = part_at(&chars_of(s), &chars_of(start), 0);
    assert(stands_at(s@, start@, 0) == start@.is_prefix_of(s@));
    r
}

/// The first position at which `part` stands.
fn find_part(chars: &Vec<char>, part: &Vec<char>) -> (r: Option<usize>)
    ensures
        r matches Some(i) ==> first_at(chars@, part@, i as int),
        r is None ==> !has_part(chars@, part@),
{
    let mut i: usize = 0;
    loop
        invariant
            i <= chars@.len(),
            forall|j: int| 0 <= j < i ==> !stands_at(chars@, part@, j),
        decreases chars@.len() - i,
    {
        if part_at(chars, part, i) {
            return Some(i);
        }
        if i == chars.len() {
            return None;
        }
        i += 1;
    }
}

/// Whether a text has another in it.
pub fn has_text(s: &str, part: &str) -> (r: bool)
    ensures
        r == has_part(s@, part@),
{
    match find_part(&chars_of(s), &chars_of(part)) {
        Some(_) => true,
        None => false,
    }
}

/// There is one first position at most.
pub proof fn lemma_first_at_unique(s: Seq<char>, part: Seq<char>, i: int, j: int)
    requires
        first_at(s, part, i),
        first_at(s, part, j),
    ensures
        i == j,
{
}

/// What is before and after the first `sep`.
pub fn split_first(s: &str, sep: &str) -> (r: Option<(String, String)>)
    ensures
        r matches Some(parts) ==> split_at_first(s@, sep@) == Some((parts.0@, parts.1@)),
        r is None ==> split_at_first(s@, sep@) is None,
{
    let chars = chars_of(s);
    let part = chars_of(sep);
    let len: usize = chars.len();
    match find_part(&chars, &part) {
        Some(i) => {
            proof {
                let j = choose|j: int| first_at(s@, sep@, j);
                lemma_first_at_unique(s@, sep@, i as int, j);
                assert(s@.subrange(0, i as int) =~= s@.take(i as int));
                assert(s@.subrange(i + sep@.len(), s@.len() as int) =~= s@.skip(
                    i + sep@.len() as int,
                ));
            }
            let head = text_of_range(&chars, 0, i);
            let tail = text_of_range(&chars, i + part.len(), len);
            Some((head, tail))
        },
        None => None,
    }
}

/// The last line of a text that is not empty; `None` for the empty text.
pub fn final_line(s: &str) -> (r: Option<String>)
    ensures
        r is Some <==> s@.len() > 0,
        r matches Some(line) ==> line@ == last_line(s@),
{
    let chars = chars_of(s);
    if chars.len() == 0 {
        return None;
    }
    let end: usize = if chars[chars.len() - 1] == '\n' {
        chars.len() - 1
    } else {
        chars.len()
    };
    let body = text_of_range(&chars, 0, end);
    proof {
        lemma_pieces_len(body@, |c: char| c == '\n');
        assert(s@.subrange(0, s@.len() as int) =~= s@);
        assert(s@.subrange(0, s@.len() - 1) =~= s@.drop_last());
    }
    let lines = split_on(body.as_str(), '\n');
    proof {
        assert(texts(lines@).len() == lines@.len());
        assert(texts(lines@).last() == lines@.last()@);
    }
    Some(lines[lines.len() - 1].clone())
}

/// How many characters come before the first `c`; all of them where there is none.
pub fn count_before(chars: &Vec<char>, c: char) -> (r: usize)
    ensures
        r == chars_before(chars@, c),
        r <= chars@.len(),
{
    let mut i: usize = 0;
    assert(chars@.skip(0) =~= chars@);
    while i < chars.len() && chars[i] != c
        invariant
            i <= chars@.len(),
            chars_before(chars@, c) == i + chars_before(chars@.skip(i as int), c),
        decreases chars@.len() - i,
    {
        assert(chars@.skip(i as int).skip(1) =~= chars@.skip(i + 1));
        i += 1;
    }
    i
}

/// The texts one after the other, with `sep` between neighbours.
pub fn join(parts: &Vec<String>, sep: &str) -> (r: String)
    ensures
        r@ == joined(texts(parts@), sep@),
{
    let mut out = String::new();
    for i in 0..parts.len()
        invariant
            out@ == joined(texts(parts@).take(i as int), sep@),
    {
        let ghost all = texts(parts@);
        assert(all.take(i + 1).drop_last() =~= all.take(i as int));
        if i > 0 {
            out.append(sep);
        }
        out.append(parts[i].as_str());
        assert(i == 0 ==> out@ =~= parts@[0]@);
    }
    assert(texts(parts@).take(parts@.len() as int) =~= texts(parts@));
    out
}

/// The digit that stands for a number below ten.
fn digit_char(n: u64) -> (r: char)
    requires
        n < 10,
    ensures
        r == ('0' as u32 + n) as char,
{
    (48u8 + n as u8) as char
}

fn push_digits(out: &mut String, n: u64)
    ensures
        final(out)@ == old(out)@ + digits_of(n as nat),
    decreases n,
{
    if n >= 10 {
        push_digits(out, n / 10);
    }
    out.push(digit_char(n % 10));
    proof {
        assert(out@ =~= old(out)@ + digits_of(n as nat));
    }
}

/// A natural number in decimal.
pub fn natural_text(n: u64) -> (r: String)
    ensures
        r@ == decimal(n as int),
{
    let mut out = String::new();
    push_digits(&mut out, n);
    assert(out@ =~= digits_of(n as nat));
    out
}

/// An integer in decimal.
pub fn integer_text(n: i64) -> (r: String)
    ensures
        r@ == decimal(n as int),
{
    let mut out = String::new();
    if n < 0 {
        out.push('-');
        let size: u64 = if n == i64::MIN {
            9223372036854775808
        } else {
            (-n) as u64
        };
        push_digits(&mut out, size);
        assert(out@ =~= seq!['-'] + digits_of((-n) as nat));
    } else {
        push_digits(&mut out, n as u64);
        assert(out@ =~= digits_of(n as nat));
    }
    out
}

/// Whether there are only decimal digits in `chars` from position `from` on.
pub fn digits_from(chars: &Vec<char>, from: usize) -> (r: bool)
    requires
        from <= chars@.len(),
    ensures
        r == all_digits(chars@.skip(from as int)),
{
    for i in from..chars.len()
        invariant
            from <= chars@.len(),
            forall|j: int| from <= j < i ==> digit(#[trigger] chars@[j]),
    {
        if !('0' <= chars[i] && chars[i] <= '9') {
            assert(!digit(chars@.skip(from as int)[i - from]));
            return false;
        }
    }
    assert forall|k: int| 0 <= k < chars@.skip(from as int).len() implies digit(
        #[trigger] chars@.skip(from as int)[k],
    ) by {
        assert(digit(chars@[from + k]));
    }
    true
}

/// The number that a text writes in decimal, where it is one of at most `limit`: digits, with or
/// without a `+` before them.
pub open spec fn written_number(s: Seq<char>, limit: nat) -> Option<nat> {
    let digits = if s.len() > 0 && s[0] == '+' {
        s.skip(1)
    } else {
        s
    };
    if digits.len() > 0 && all_digits(digits) && number_of_digits(digits) <= limit {
        Some(number_of_digits(digits))
    } else {
        None
    }
}

/// More digits never write a smaller number.
proof fn lemma_number_grows(s: Seq<char>, k: int)
    requires
        all_digits(s),
        0 <= k <= s.len(),
    ensures
        number_of_digits(s.take(k)) <= number_of_digits(s),
    decreases s.len(),
{
    if k < s.len() {
        assert(s.drop_last().take(k) =~= s.take(k));
        assert(all_digits(s.drop_last()));
        lemma_number_grows(s.drop_last(), k);
        assert(digit(s[s.len() - 1]));
    } else {
        assert(s.take(k) =~= s);
    }
}

/// Reads a number of 16 bits.
pub fn read_u16(s: &str) -> (r: Option<u16>)
    ensures
        r matches Some(n) ==> written_number(s@, 0xffff) == Some(n as nat),
        r is None ==> written_number(s@, 0xffff) is None,
{
    let chars = chars_of(s);
    let len: usize = chars.len();
    let from: usize = if len > 0 && chars[0] == '+' {
        1
    } else {
        0
    };
    let ghost digits = s@.skip(from as int);
    assert(from == 0 ==> digits =~= s@);
    if from == len || !digits_from(&chars, from) {
        return None;
    }
    let mut n: u32 = 0;
    for i in from..len
        invariant
            chars@ == s@,
            len == chars@.len(),
            from <= len,
            digits == s@.skip(from as int),
            digits == if s@.len() > 0 && s@[0] == '+' {
                s@.skip(1)
            } else {
                s@
            },
            all_digits(digits),
            n <= 0xffff,
            n == number_of_digits(digits.take(i - from)),
    {
        assert(digits.take(i - from + 1).drop_last() =~= digits.take(i - from));
        assert(digit(digits[i - from]));
        let d: u32 = chars[i] as u32 - 48;
        n = 10 * n + d;
        if n > 0xffff {
            proof {
                lemma_number_grows(digits, i - from + 1);
            }
            return None;
        }
    }
    assert(digits.take(len - from) =~= digits);
    Some(n as u16)
}

/// One text comes before another in the order of the characters' numbers, the first difference
/// deciding.
pub open spec fn comes_before(a: Seq<char>, b: Seq<char>) -> bool
    decreases a.len(),
{
    if b.len() == 0 {
        false
    } else if a.len() == 0 {
        true
    } else if a[0] != b[0] {
        a[0] < b[0]
    } else {
        comes_before(a.skip(1), b.skip(1))
    }
}

/// Whether one text comes before another.
pub fn is_before(a: &str, b: &str) -> (r: bool)
    ensures
        r == comes_before(a@, b@),
{
    let x = chars_of(a);
    let y = chars_of(b);
    let mut i: usize = 0;
    assert(a@.skip(0) =~= a@);
    assert(b@.skip(0) =~= b@);
    while i < x.len() && i < y.len()
        invariant
            x@ == a@,
            y@ == b@,
            i <= x@.len(),
            i <= y@.len(),
            comes_before(a@, b@) == comes_before(a@.skip(i as int), b@.skip(i as int)),
        decreases x@.len() - i,
    {
        if x[i] != y[i] {
            return x[i] < y[i];
        }
        assert(a@.skip(i as int).skip(1) =~= a@.skip(i + 1));
        assert(b@.skip(i as int).skip(1) =~= b@.skip(i + 1));
        i += 1;
    }
    i < y.len()
}

/// No text comes before itself, and of two texts one at most comes before the other.
pub proof fn lemma_before_asymmetric(a: Seq<char>, b: Seq<char>)
    ensures
        comes_before(a, b) ==> !comes_before(b, a) && a != b,
    decreases a.len(),
{
    if a.len() > 0 && b.len() > 0 && a[0] == b[0] {
        lemma_before_asymmetric(a.skip(1), b.skip(1));
    }
}

/// A text that comes before another comes before a third one, or the third comes before the other.
pub proof fn lemma_before_either(a: Seq<char>, b: Seq<char>, c: Seq<char>)
    requires
        comes_before(a, c),
    ensures
        comes_before(a, b) || comes_before(b, c),
    decreases a.len(),
{
    if a.len() > 0 && b.len() > 0 && c.len() > 0 && a[0] == c[0] && a[0] == b[0] {
        lemma_before_either(a.skip(1), b.skip(1), c.skip(1));
    }
}

/// What `str::to_lowercase` makes of a text, by the tables of Unicode.
pub uninterp spec fn lowercase(s: Seq<char>) -> Seq<char>;

/// `str::to_lowercase` gives the text with its letters in lower case, of any script. What it is
/// depends on the text alone.
#[verifier::external_body]
pub(crate) fn to_lowercase(s: &str) -> (r: String)
    ensures
        r@ == lowercase(s@),
{
    s.to_lowercase()
}

// ---------------------------------------------------------------------------
// What holds of every text
// ---------------------------------------------------------------------------

/// Lower case touches the letters `A` to `Z` and nothing else, and keeps the length.
pub proof fn lower_case_touches_capitals_only(s: Seq<char>, i: int)
    requires
        0 <= i < s.len(),
    ensures
        lower(s).len() == s.len(),
        'A' <= s[i] && s[i] <= 'Z' ==> lower(s)[i] as u32 == s[i] as u32 + 32,
        !('A' <= s[i] && s[i] <= 'Z') ==> lower(s)[i] == s[i],
{
}

proof fn lemma_trim_start(s: Seq<char>)
    ensures
        exists|k: int| #[trigger] cut_before(s, k) && trim_start(s) == s.skip(k),
        trim_start(s).len() > 0 ==> !white(trim_start(s)[0]),
    decreases s.len(),
{
    if s.len() > 0 && white(s[0]) {
        let rest = s.drop_first();
        lemma_trim_start(rest);
        let k = choose|k: int| #[trigger] cut_before(rest, k) && trim_start(rest) == rest.skip(k);
        assert forall|i: int| 0 <= i < k + 1 implies white(#[trigger] s[i]) by {
            if i > 0 {
                assert(rest[i - 1] == s[i]);
            }
        }
        assert(cut_before(s, k + 1));
        assert(rest.skip(k) =~= s.skip(k + 1));
    } else {
        assert(cut_before(s, 0));
        assert(s.skip(0) =~= s);
    }
}

proof fn lemma_trim_end(s: Seq<char>)
    ensures
        exists|k: int| #[trigger] cut_after(s, k) && trim_end(s) == s.take(k),
        trim_end(s).len() > 0 ==> !white(trim_end(s).last()),
    decreases s.len(),
{
    if s.len() > 0 && white(s.last()) {
        let rest = s.drop_last();
        lemma_trim_end(rest);
        let k = choose|k: int| #[trigger] cut_after(rest, k) && trim_end(rest) == rest.take(k);
        assert forall|i: int| k <= i < s.len() implies white(#[trigger] s[i]) by {
            if i < rest.len() {
                assert(rest[i] == s[i]);
            }
        }
        assert(cut_after(s, k));
        assert(rest.take(k) =~= s.take(k));
    } else {
        assert(cut_after(s, s.len() as int));
        assert(s.take(s.len() as int) =~= s);
    }
}

/// There is nothing but white characters before position `k`.
pub open spec fn cut_before(s: Seq<char>, k: int) -> bool {
    0 <= k <= s.len() && forall|i: int| 0 <= i < k ==> white(#[trigger] s[i])
}

/// There is nothing but white characters from position `k` on.
pub open spec fn cut_after(s: Seq<char>, k: int) -> bool {
    0 <= k <= s.len() && forall|i: int| k <= i < s.len() ==> white(#[trigger] s[i])
}

/// Trimming cuts nothing but white characters off either end, and leaves none there.
pub proof fn trimming_cuts_white_ends_only(s: Seq<char>)
    ensures
        exists|from: int, to: int|
            from <= to && #[trigger] cut_before(s, from) && #[trigger] cut_after(s, to)
                && trimmed(s) == s.subrange(from, to),
        trimmed(s).len() > 0 ==> !white(trimmed(s)[0]) && !white(trimmed(s).last()),
{
    lemma_trim_start(s);
    let from = choose|k: int| #[trigger] cut_before(s, k) && trim_start(s) == s.skip(k);
    let rest = trim_start(s);
    lemma_trim_end(rest);
    let k = choose|k: int| #[trigger] cut_after(rest, k) && trim_end(rest) == rest.take(k);
    let to = from + k;
    assert forall|i: int| to <= i < s.len() implies white(#[trigger] s[i]) by {
        assert(rest[i - from] == s[i]);
    }
    assert(cut_after(s, to));
    assert(rest.take(k) =~= s.subrange(from, to));
}

/// A text without white ends is trimmed already.
pub proof fn trimmed_texts_stay_as_they_are(s: Seq<char>)
    requires
        s.len() > 0 ==> !white(s[0]) && !white(s.last()),
    ensures
        trimmed(s) == s,
{
}

/// Texts are joined one by one: each comes at the end, behind the separator.
pub proof fn joining_adds_at_the_end(parts: Seq<Seq<char>>, part: Seq<char>, sep: Seq<char>)
    ensures
        joined(Seq::empty(), sep) == Seq::<char>::empty(),
        parts.len() == 0 ==> joined(parts.push(part), sep) == part,
        parts.len() > 0 ==> joined(parts.push(part), sep) == joined(parts, sep) + sep + part,
{
    assert(parts.push(part).drop_last() =~= parts);
}

/// No text has a character in it.
pub open spec fn none_has(all: Seq<Seq<char>>, c: char) -> bool {
    forall|i: int| 0 <= i < all.len() ==> !(#[trigger] all[i]).contains(c)
}

/// No text has a white character in it.
pub open spec fn none_white(all: Seq<Seq<char>>) -> bool {
    forall|i: int, k: int|
        0 <= i < all.len() && 0 <= k < all[i].len() ==> !white(#[trigger] all[i][k])
}

/// Splitting is undone by joining, and no piece has the separator in it.
pub proof fn splitting_is_undone_by_joining(s: Seq<char>, c: char)
    ensures
        joined(pieces(s, |x: char| x == c), seq![c]) == s,
        none_has(pieces(s, |x: char| x == c), c),
    decreases s.len(),
{
    let sep = |x: char| x == c;
    let all = pieces(s, sep);
    if s.len() > 0 {
        let rest = s.drop_last();
        let before = pieces(rest, sep);
        splitting_is_undone_by_joining(rest, c);
        lemma_pieces_len(rest, sep);
        assert(joined(before, seq![c]) == rest);
        if s.last() == c {
            joining_adds_at_the_end(before, Seq::empty(), seq![c]);
            assert(joined(all, seq![c]) =~= s);
            assert forall|i: int| 0 <= i < all.len() implies !(#[trigger] all[i]).contains(c) by {
                if i < before.len() {
                    assert(all[i] == before[i]);
                }
            }
        } else {
            let head = before.drop_last();
            let last = before.last();
            assert(head.push(last) =~= before);
            joining_adds_at_the_end(head, last, seq![c]);
            joining_adds_at_the_end(head, last.push(s.last()), seq![c]);
            assert(rest.push(s.last()) =~= s);
            assert(all == head.push(last.push(s.last())));
            if head.len() > 0 {
                let start = joined(head, seq![c]) + seq![c];
                assert(start + last.push(s.last()) =~= (start + last).push(s.last()));
            }
            assert(joined(all, seq![c]) =~= s);
            assert forall|i: int| 0 <= i < all.len() implies !(#[trigger] all[i]).contains(c) by {
                if i < head.len() {
                    assert(all[i] == before[i]);
                } else {
                    assert(!before[before.len() - 1].contains(c));
                    assert(all[i] == last.push(s.last()));
                    if all[i].contains(c) {
                        let k = choose|k: int| 0 <= k < all[i].len() && all[i][k] == c;
                        assert(k < last.len());
                        assert(last[k] == c);
                    }
                }
            }
        }
    } else {
        assert(joined(all, seq![c]) =~= s);
    }
}

/// A part stands in any text that has it, whatever is around it, and in no other.
pub proof fn parts_are_found_wherever_they_stand(a: Seq<char>, part: Seq<char>, b: Seq<char>)
    ensures
        has_part(a + part + b, part),
        has_part(a, part) ==> exists|i: int|
            0 <= i && i + part.len() <= a.len() && a == #[trigger] a.take(i) + part + a.skip(
                i + part.len(),
            ),
{
    if has_part(a, part) {
        let i = choose|i: int| stands_at(a, part, i);
        assert(a.take(i) + a.subrange(i, i + part.len()) + a.skip(i + part.len()) =~= a);
    }
    let s = a + part + b;
    assert(s.subrange(a.len() as int, (a.len() + part.len()) as int) =~= part);
    assert(stands_at(s, part, a.len() as int));
}

/// Splitting at a separator loses nothing but the separator, and splits at the first one.
pub proof fn splitting_once_keeps_both_sides(s: Seq<char>, sep: Seq<char>)
    ensures
        match split_at_first(s, sep) {
            Some((before, after)) => s == before + sep + after && forall|i: int|
                0 <= i < before.len() ==> !stands_at(s, sep, i),
            None => !has_part(s, sep),
        },
{
    if has_part(s, sep) {
        let at = choose|i: int| stands_at(s, sep, i);
        lemma_first_exists(s, sep, at);
        let i = choose|i: int| first_at(s, sep, i);
        assert(s =~= s.take(i) + sep + s.skip(i + sep.len())) by {
            assert(s.subrange(i, i + sep.len()) == sep);
            assert forall|k: int| 0 <= k < s.len() implies s[k] == (s.take(i) + sep + s.skip(
                i + sep.len(),
            ))[k] by {
                if i <= k < i + sep.len() {
                    assert(s.subrange(i, i + sep.len())[k - i] == s[k]);
                }
            }
        }
    }
}

/// A text is split at the separator that comes first in it.
pub proof fn splitting_finds_the_first(before: Seq<char>, sep: Seq<char>, after: Seq<char>)
    requires
        forall|i: int| 0 <= i < before.len() ==> !stands_at(before + sep + after, sep, i),
    ensures
        split_at_first(before + sep + after, sep) == Some((before, after)),
{
    let s = before + sep + after;
    let at = before.len() as int;
    assert(s.subrange(at, at + sep.len()) =~= sep);
    assert(stands_at(s, sep, at));
    assert(first_at(s, sep, at));
    let i = choose|i: int| first_at(s, sep, i);
    lemma_first_at_unique(s, sep, i, at);
    assert(s.take(at) =~= before);
    assert(s.skip(at + sep.len()) =~= after);
}

proof fn lemma_first_exists(s: Seq<char>, part: Seq<char>, at: int)
    requires
        stands_at(s, part, at),
    ensures
        exists|i: int| first_at(s, part, i),
    decreases at,
{
    if first_at(s, part, at) {
    } else {
        let j = choose|j: int| 0 <= j < at && stands_at(s, part, j);
        lemma_first_exists(s, part, j);
    }
}

proof fn lemma_digits_of(n: nat)
    ensures
        digits_of(n).len() > 0,
        all_digits(digits_of(n)),
        number_of_digits(digits_of(n)) == n,
        n > 0 ==> digits_of(n)[0] != '0',
    decreases n,
{
    let digits = digits_of(n);
    if n < 10 {
        assert(digits.drop_last() =~= Seq::empty());
        assert(digits.last() as u32 == '0' as u32 + n);
        assert(number_of_digits(digits.drop_last()) == 0);
    } else {
        lemma_digits_of(n / 10);
        assert(digits.drop_last() =~= digits_of(n / 10));
        assert(digits[0] == digits_of(n / 10)[0]);
        assert(digits.last() as u32 == '0' as u32 + n % 10);
    }
}

/// A number in decimal is read back as it was, and a negative one has a sign before its size.
pub proof fn decimals_are_read_back(n: nat, limit: nat)
    requires
        n <= limit,
    ensures
        all_digits(decimal(n as int)),
        number_of_digits(decimal(n as int)) == n,
        written_number(decimal(n as int), limit) == Some(n),
        n > 0 ==> decimal(-n) == seq!['-'] + decimal(n as int),
        n > 0 ==> decimal(n as int)[0] != '0',
        n == 0 ==> decimal(n as int) == seq!['0'],
{
    lemma_digits_of(n);
    assert(digit(digits_of(n)[0]));
}

/// A digit more at the end makes ten times the number and the digit.
pub proof fn digits_count_in_tens(s: Seq<char>, d: char)
    requires
        digit(d),
    ensures
        number_of_digits(s.push(d)) == 10 * number_of_digits(s) + (d as u32 - 48),
        number_of_digits(Seq::empty()) == 0,
{
    assert(s.push(d).drop_last() =~= s);
}

/// Of two texts that differ, one comes before the other.
pub proof fn texts_are_in_order(a: Seq<char>, b: Seq<char>)
    ensures
        a == b || comes_before(a, b) || comes_before(b, a),
        a.len() > 0 && b.len() > 0 && a[0] < b[0] ==> comes_before(a, b),
        a.len() < b.len() && a == b.take(a.len() as int) ==> comes_before(a, b),
    decreases a.len(),
{
    if a.len() > 0 && b.len() > 0 && a[0] == b[0] {
        texts_are_in_order(a.skip(1), b.skip(1));
        assert(a =~= seq![a[0]] + a.skip(1));
        assert(b =~= seq![b[0]] + b.skip(1));
        if a.len() < b.len() && a == b.take(a.len() as int) {
            assert(a.skip(1) =~= b.skip(1).take(a.len() - 1));
        }
    } else if a.len() == 0 && b.len() == 0 {
        assert(a =~= b);
    } else if a.len() > 0 && b.len() > 0 && a.len() < b.len() && a == b.take(a.len() as int) {
        assert(a[0] == b.take(a.len() as int)[0]);
    }
}

proof fn lemma_one_piece(s: Seq<char>, c: char)
    requires
        !s.contains(c),
    ensures
        pieces(s, |x: char| x == c) == seq![s],
    decreases s.len(),
{
    if s.len() > 0 {
        let rest = s.drop_last();
        assert forall|i: int| 0 <= i < rest.len() implies rest[i] != c by {
            assert(s[i] == rest[i]);
        }
        lemma_one_piece(rest, c);
        let before = pieces(rest, |x: char| x == c);
        assert(s[s.len() - 1] == s.last());
        assert(s.last() != c);
        assert(rest.push(s.last()) =~= s);
        assert(before.drop_last() =~= Seq::empty());
        assert(before.last() == rest);
        assert(pieces(s, |x: char| x == c) =~= seq![s]);
    } else {
        assert(s =~= Seq::empty());
        assert(pieces(s, |x: char| x == c) =~= seq![s]);
    }
}

proof fn lemma_last_piece(a: Seq<char>, b: Seq<char>, c: char)
    requires
        !b.contains(c),
    ensures
        pieces(a + seq![c] + b, |x: char| x == c).last() == b,
        pieces(a + seq![c] + b, |x: char| x == c).len() > 1,
    decreases b.len(),
{
    let sep = |x: char| x == c;
    let s = a + seq![c] + b;
    if b.len() == 0 {
        assert(s.drop_last() =~= a);
        lemma_pieces_len(a, sep);
        assert(b =~= Seq::empty());
    } else {
        let rest = b.drop_last();
        assert forall|i: int| 0 <= i < rest.len() implies rest[i] != c by {
            assert(b[i] == rest[i]);
        }
        lemma_last_piece(a, rest, c);
        assert(s.drop_last() =~= a + seq![c] + rest);
        assert(b[b.len() - 1] == b.last());
        assert(rest.push(b.last()) =~= b);
    }
}

/// What follows the last line feed is the last line.
pub proof fn the_last_line_follows_the_last_line_feed(a: Seq<char>, b: Seq<char>)
    requires
        b.len() > 0,
        !b.contains('\n'),
    ensures
        last_line(a + seq!['\n'] + b) == b,
        last_line(b) == b,
{
    lemma_last_piece(a, b, '\n');
    lemma_one_piece(b, '\n');
    let s = a + seq!['\n'] + b;
    assert(s.last() == b.last());
    assert(b[b.len() - 1] == b.last());
}

/// Words are not empty and have no white character in them, and between them nothing else is lost.
pub proof fn words_hold_all_but_white(s: Seq<char>)
    ensures
        none_white(words(s)),
        forall|i: int| 0 <= i < words(s).len() ==> (#[trigger] words(s)[i]).len() > 0,
        joined(words(s), Seq::empty()) == s.filter(|c: char| !white(c)),
{
    let sep = |c: char| white(c);
    lemma_pieces_not_white(s);
    lemma_non_empty(pieces(s, sep));
    let all = pieces(s, sep);
    assert forall|i: int, k: int| 0 <= i < words(s).len() && 0 <= k < words(s)[i].len() implies
        !white(#[trigger] words(s)[i][k]) by {
        let j = choose|j: int| 0 <= j < all.len() && all[j] == non_empty(all)[i];
        assert(!white(all[j][k]));
    }
}

proof fn lemma_pieces_not_white(s: Seq<char>)
    ensures
        none_white(pieces(s, |c: char| white(c))),
        joined(pieces(s, |c: char| white(c)), Seq::empty()) == s.filter(|c: char| !white(c)),
    decreases s.len(),
{
    let sep = |c: char| white(c);
    let keep = |c: char| !white(c);
    let all = pieces(s, sep);
    reveal(Seq::filter);
    if s.len() > 0 {
        let rest = s.drop_last();
        let before = pieces(rest, sep);
        lemma_pieces_not_white(rest);
        lemma_pieces_len(rest, sep);
        if white(s.last()) {
            joining_adds_at_the_end(before, Seq::empty(), Seq::empty());
            assert(joined(all, Seq::empty()) =~= joined(before, Seq::empty()));
            assert forall|i: int, k: int| 0 <= i < all.len() && 0 <= k < all[i].len() implies
                !white(#[trigger] all[i][k]) by {
                assert(all[i] == before[i]);
                assert(!white(before[i][k]));
            }
        } else {
            let head = before.drop_last();
            let last = before.last();
            assert(head.push(last) =~= before);
            joining_adds_at_the_end(head, last, Seq::empty());
            joining_adds_at_the_end(head, last.push(s.last()), Seq::empty());
            assert(joined(all, Seq::empty()) =~= joined(before, Seq::empty()).push(s.last()));
            assert forall|i: int, k: int| 0 <= i < all.len() && 0 <= k < all[i].len() implies
                !white(#[trigger] all[i][k]) by {
                if i < head.len() {
                    assert(all[i] == before[i]);
                    assert(!white(before[i][k]));
                } else if k < last.len() {
                    assert(!white(before[before.len() - 1][k]));
                }
            }
        }
    } else {
        assert(joined(all, Seq::empty()) =~= s.filter(keep));
    }
}

proof fn lemma_non_empty(all: Seq<Seq<char>>)
    ensures
        joined(non_empty(all), Seq::empty()) == joined(all, Seq::empty()),
        forall|i: int|
            0 <= i < non_empty(all).len() ==> (#[trigger] non_empty(all)[i]).len() > 0
                && all.contains(non_empty(all)[i]),
    decreases all.len(),
{
    if all.len() > 0 {
        let rest = all.drop_last();
        let last = all.last();
        lemma_non_empty(rest);
        assert(rest.push(last) =~= all);
        lemma_non_empty_push(rest, last);
        joining_adds_at_the_end(rest, last, Seq::empty());
        joining_adds_at_the_end(non_empty(rest), last, Seq::empty());
        assert(joined(non_empty(all), Seq::empty()) =~= joined(all, Seq::empty())) by {
            if non_empty(rest).len() == 0 {
                assert(non_empty(rest) =~= Seq::empty());
            }
            if rest.len() == 0 {
                assert(rest =~= Seq::empty());
            }
        }
        assert forall|i: int| 0 <= i < non_empty(all).len() implies (#[trigger] non_empty(
            all,
        )[i]).len() > 0 && all.contains(non_empty(all)[i]) by {
            if i < non_empty(rest).len() {
                let w = non_empty(rest)[i];
                assert(non_empty(all)[i] == w);
                let k = choose|k: int| 0 <= k < rest.len() && rest[k] == w;
                assert(all[k] == w);
            } else {
                assert(all[all.len() - 1] == last);
            }
        }
    } else {
        reveal(Seq::filter);
    }
}

/// Pieces part exactly at the separators: one in between parts the pieces of what is before it from
/// those of what is behind it, and a text without any is one piece.
pub proof fn pieces_part_at_separators(
    a: Seq<char>,
    c: char,
    b: Seq<char>,
    sep: spec_fn(char) -> bool,
)
    requires
        sep(c),
    ensures
        pieces(a + seq![c] + b, sep) == pieces(a, sep) + pieces(b, sep),
        (forall|i: int| 0 <= i < b.len() ==> !sep(#[trigger] b[i])) ==> pieces(b, sep) == seq![b],
    decreases b.len(),
{
    let s = a + seq![c] + b;
    if b.len() == 0 {
        assert(s.drop_last() =~= a);
        assert(pieces(s, sep) =~= pieces(a, sep) + pieces(b, sep));
        assert(b =~= Seq::empty());
        assert(pieces(b, sep) =~= seq![b]);
    } else {
        let rest = b.drop_last();
        pieces_part_at_separators(a, c, rest, sep);
        lemma_pieces_len(a, sep);
        lemma_pieces_len(rest, sep);
        assert(s.drop_last() =~= a + seq![c] + rest);
        assert(s.last() == b.last());
        assert(pieces(s, sep) =~= pieces(a, sep) + pieces(b, sep));
        if forall|i: int| 0 <= i < b.len() ==> !sep(#[trigger] b[i]) {
            assert forall|i: int| 0 <= i < rest.len() implies !sep(#[trigger] rest[i]) by {
                assert(rest[i] == b[i]);
            }
            assert(b[b.len() - 1] == b.last());
            assert(rest.push(b.last()) =~= b);
            assert(pieces(b, sep) =~= seq![b]);
        }
    }
}

/// What two lists have that is not empty is what the one has and then what the other has.
pub proof fn lemma_non_empty_both(a: Seq<Seq<char>>, b: Seq<Seq<char>>)
    ensures
        non_empty(a + b) == non_empty(a) + non_empty(b),
    decreases b.len(),
{
    reveal(Seq::filter);
    if b.len() == 0 {
        assert(a + b =~= a);
        assert(non_empty(b) =~= Seq::empty());
        assert(non_empty(a) + non_empty(b) =~= non_empty(a));
    } else {
        let rest = b.drop_last();
        lemma_non_empty_both(a, rest);
        assert(a + b =~= (a + rest).push(b.last()));
        assert(b =~= rest.push(b.last()));
        lemma_non_empty_push(a + rest, b.last());
        lemma_non_empty_push(rest, b.last());
        assert(non_empty(a + b) =~= non_empty(a) + non_empty(b));
    }
}

/// Words part exactly at white characters: one in between parts the words before it from those behind
/// it, and a text without any is one word unless it is empty.
pub proof fn words_part_at_white(a: Seq<char>, c: char, b: Seq<char>)
    requires
        white(c),
    ensures
        words(a + seq![c] + b) == words(a) + words(b),
        (forall|i: int| 0 <= i < b.len() ==> !white(#[trigger] b[i])) ==> words(b) == if b.len()
            == 0 {
            Seq::empty()
        } else {
            seq![b]
        },
{
    let sep = |x: char| white(x);
    pieces_part_at_separators(a, c, b, sep);
    lemma_non_empty_both(pieces(a, sep), pieces(b, sep));
    if forall|i: int| 0 <= i < b.len() ==> !white(#[trigger] b[i]) {
        assert(pieces(b, sep) =~= Seq::<Seq<char>>::empty().push(b));
        lemma_non_empty_push(Seq::empty(), b);
        reveal(Seq::filter);
        assert(non_empty(Seq::empty()) =~= Seq::empty());
        assert(words(b) =~= if b.len() == 0 {
            Seq::empty()
        } else {
            seq![b]
        });
    }
}

/// The white characters are those that Unicode lists: tab, line feed, line tabulation, form feed,
/// carriage return, the spaces, next line, and the line and paragraph separators.
pub proof fn white_characters_are_those_of_unicode(c: char)
    ensures
        white(c) <==> seq![
            0x9u32,
            0xa,
            0xb,
            0xc,
            0xd,
            0x20,
            0x85,
            0xa0,
            0x1680,
            0x2000,
            0x2001,
            0x2002,
            0x2003,
            0x2004,
            0x2005,
            0x2006,
            0x2007,
            0x2008,
            0x2009,
            0x200a,
            0x2028,
            0x2029,
            0x202f,
            0x205f,
            0x3000,
        ].contains(c as u32),
{
    let all = seq![
        0x9u32,
        0xa,
        0xb,
        0xc,
        0xd,
        0x20,
        0x85,
        0xa0,
        0x1680,
        0x2000,
        0x2001,
        0x2002,
        0x2003,
        0x2004,
        0x2005,
        0x2006,
        0x2007,
        0x2008,
        0x2009,
        0x200a,
        0x2028,
        0x2029,
        0x202f,
        0x205f,
        0x3000,
    ];
    let n = c as u32;
    if white(c) {
        let at: int = if n <= 0xd {
            n - 9
        } else if n == 0x20 {
            5
        } else if n == 0x85 {
            6
        } else if n == 0xa0 {
            7
        } else if n == 0x1680 {
            8
        } else if n <= 0x200a {
            n - 0x2000 + 9
        } else if n == 0x2028 {
            20
        } else if n == 0x2029 {
            21
        } else if n == 0x202f {
            22
        } else if n == 0x205f {
            23
        } else {
            24
        };
        assert(all[at] == n);
    }
}

/// What is left without the characters at the end does not end with one, and nothing else is lost.
pub proof fn trailing_characters_are_cut(s: Seq<char>, c: char)
    ensures
        ({
            let left = without_trailing(s, c);
            &&& left.is_prefix_of(s)
            &&& left.len() > 0 ==> left.last() != c
            &&& forall|i: int| left.len() <= i < s.len() ==> #[trigger] s[i] == c
        }),
    decreases s.len(),
{
    if s.len() > 0 && s.last() == c {
        let rest = s.drop_last();
        trailing_characters_are_cut(rest, c);
        let left = without_trailing(s, c);
        assert forall|i: int| left.len() <= i < s.len() implies #[trigger] s[i] == c by {
            if i < rest.len() {
                assert(rest[i] == s[i]);
            }
        }
    }
}

/// The characters before the first of a kind are not of that kind, and it comes right behind them
/// where there is one.
pub proof fn characters_are_counted_up_to_the_first(s: Seq<char>, c: char)
    ensures
        ({
            let n = chars_before(s, c) as int;
            &&& n <= s.len()
            &&& n < s.len() ==> s[n] == c
            &&& forall|i: int| 0 <= i < n ==> #[trigger] s[i] != c
        }),
    decreases s.len(),
{
    if s.len() > 0 && s[0] != c {
        let rest = s.skip(1);
        characters_are_counted_up_to_the_first(rest, c);
        let n = chars_before(s, c) as int;
        assert(chars_before(rest, c) == n - 1);
        assert forall|i: int| 0 <= i < n implies #[trigger] s[i] != c by {
            if i > 0 {
                assert(rest[i - 1] == s[i]);
            }
        }
    }
}

/// A text is read as a number exactly where it is digits, with or without a plus before them, that
/// write no more than the limit; and then as the number that they write.
pub proof fn numbers_are_read_exactly(digits: Seq<char>, limit: nat)
    ensures
        ({
            let fit = digits.len() > 0 && (forall|i: int|
                0 <= i < digits.len() ==> '0' <= #[trigger] digits[i] <= '9') && number_of_digits(
                digits,
            ) <= limit;
            &&& fit ==> written_number(digits, limit) == Some(number_of_digits(digits))
            &&& fit ==> written_number(seq!['+'] + digits, limit) == Some(number_of_digits(digits))
            &&& !fit ==> written_number(seq!['+'] + digits, limit) is None
            &&& !fit && !seq!['+'].is_prefix_of(digits) ==> written_number(digits, limit) is None
        }),
{
    assert((seq!['+'] + digits).skip(1) =~= digits);
    assert((seq!['+'] + digits)[0] == '+');
    if all_digits(digits) {
        assert forall|i: int| 0 <= i < digits.len() implies '0' <= #[trigger] digits[i] <= '9' by {
            assert(digit(digits[i]));
        }
        if digits.len() > 0 {
            assert(digit(digits[0]));
        }
    }
    if digits.len() > 0 && digits[0] == '+' {
        assert(seq!['+'] =~= digits.take(1));
        assert(!('0' <= digits[0]));
    }
}

/// Texts are compared character by character: what they begin with alike decides nothing, and nothing
/// comes before the empty text.
pub proof fn texts_are_compared_from_the_start(x: char, a: Seq<char>, b: Seq<char>)
    ensures
        comes_before(seq![x] + a, seq![x] + b) == comes_before(a, b),
        !comes_before(a, Seq::empty()),
        comes_before(a, b) ==> !comes_before(b, a),
{
    assert((seq![x] + a).skip(1) =~= a);
    assert((seq![x] + b).skip(1) =~= b);
    if comes_before(a, b) {
        lemma_before_asymmetric(a, b);
    }
}

/// A line feed at the very end belongs to the last line and begins no other.
pub proof fn a_line_feed_at_the_end_ends_the_last_line(a: Seq<char>, b: Seq<char>)
    requires
        !b.contains('\n'),
    ensures
        last_line(a + seq!['\n'] + b + seq!['\n']) == b,
        last_line(b + seq!['\n']) == b,
        last_line(Seq::empty()) == Seq::<char>::empty(),
{
    lemma_last_piece(a, b, '\n');
    lemma_one_piece(b, '\n');
    let s = a + seq!['\n'] + b + seq!['\n'];
    assert(s.drop_last() =~= a + seq!['\n'] + b);
    assert((b + seq!['\n']).drop_last() =~= b);
}

/// Texts are viewed one by one, in order.
pub proof fn views_of_texts_keep_their_order(all: Seq<String>, i: int)
    ensures
        texts(all).len() == all.len(),
        0 <= i < all.len() ==> texts(all)[i] == all[i]@,
{
}

} // verus!
