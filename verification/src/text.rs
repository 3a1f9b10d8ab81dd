//! Text as sequences of characters: lines, trimming, prefixes, the length in
//! UTF-8 and decimal numbers.
use vstd::prelude::*;
use vstd::string::*;
use vstd::utf8::*;

verus! {

/// The character `c` has the Unicode property White_Space.
pub open spec fn is_white_space(c: char) -> bool {
    let v = c as u32;
    ||| 0x09 <= v <= 0x0d
    ||| v == 0x20
    ||| v == 0x85
    ||| v == 0xa0
    ||| v == 0x1680
    ||| 0x2000 <= v <= 0x200a
    ||| v == 0x2028
    ||| v == 0x2029
    ||| v == 0x202f
    ||| v == 0x205f
    ||| v == 0x3000
}

/// `s` without its leading white space.
pub open spec fn trim_start(s: Seq<char>) -> Seq<char>
    decreases s.len(),
{
    if s.len() > 0 && is_white_space(s[0]) {
        trim_start(s.drop_first())
    } else {
        s
    }
}

/// `s` without its trailing white space.
pub open spec fn trim_end(s: Seq<char>) -> Seq<char>
    decreases s.len(),
{
    if s.len() > 0 && is_white_space(s.last()) {
        trim_end(s.drop_last())
    } else {
        s
    }
}

/// `s` without white space at either end.
pub open spec fn trimmed(s: Seq<char>) -> Seq<char> {
    trim_end(trim_start(s))
}

/// The index of the first newline of `s`, or the length of `s` if it has none.
pub open spec fn line_end(s: Seq<char>) -> int
    decreases s.len(),
{
    if s.len() == 0 || s[0] == '\n' {
        0
    } else {
        1 + line_end(s.drop_first())
    }
}

/// The bounds of `line_end`, and what it stands for.
pub proof fn lemma_line_end(s: Seq<char>)
    ensures
        0 <= line_end(s) <= s.len(),
        line_end(s) < s.len() ==> s[line_end(s)] == '\n',
        forall|i: int| 0 <= i < line_end(s) ==> s[i] != '\n',
    decreases s.len(),
{
    if s.len() > 0 && s[0] != '\n' {
        let rest = s.drop_first();
        lemma_line_end(rest);
        assert forall|i: int| 0 <= i < line_end(s) implies s[i] != '\n' by {
            if i > 0 {
                assert(rest[i - 1] == s[i]);
            }
        }
    }
}

/// The index of the first newline is the only one with a newline and none before it.
proof fn lemma_line_end_is(s: Seq<char>, k: int)
    requires
        0 <= k <= s.len(),
        k < s.len() ==> s[k] == '\n',
        forall|i: int| 0 <= i < k ==> s[i] != '\n',
    ensures
        line_end(s) == k,
{
    lemma_line_end(s);
}

/// The pieces of `s` between its newlines: one more than it has newlines.
pub open spec fn split_lines(s: Seq<char>) -> Seq<Seq<char>>
    decreases s.len(),
{
    proof {
        lemma_line_end(s);
    }
    let end = line_end(s);
    if end == s.len() {
        seq![s]
    } else {
        seq![s.take(end)] + split_lines(s.skip(end + 1))
    }
}

/// `lines` one after the other with a newline between two of them.
pub open spec fn join_lines(lines: Seq<Seq<char>>) -> Seq<char>
    decreases lines.len(),
{
    if lines.len() == 0 {
        Seq::empty()
    } else if lines.len() == 1 {
        lines[0]
    } else {
        lines[0] + seq!['\n'] + join_lines(lines.drop_first())
    }
}

/// `line` without one carriage return at its end.
pub open spec fn strip_return(line: Seq<char>) -> Seq<char> {
    if line.len() > 0 && line.last() == '\r' {
        line.drop_last()
    } else {
        line
    }
}

/// The lines of `s`, each ended by a newline or by a carriage return and a
/// newline. The last line may lack its ending.
pub open spec fn text_lines(s: Seq<char>) -> Seq<Seq<char>> {
    let pieces = split_lines(s);
    let ended = pieces.drop_last().map_values(|line: Seq<char>| strip_return(line));
    if pieces.last().len() == 0 {
        ended
    } else {
        ended.push(pieces.last())
    }
}

/// The decimal digit for `d`.
pub open spec fn digit(d: nat) -> char {
    if d == 0 {
        '0'
    } else if d == 1 {
        '1'
    } else if d == 2 {
        '2'
    } else if d == 3 {
        '3'
    } else if d == 4 {
        '4'
    } else if d == 5 {
        '5'
    } else if d == 6 {
        '6'
    } else if d == 7 {
        '7'
    } else if d == 8 {
        '8'
    } else {
        '9'
    }
}

/// `n` in decimal, without leading zeros.
pub open spec fn decimal_nat(n: nat) -> Seq<char>
    decreases n,
{
    if n < 10 {
        seq![digit(n)]
    } else {
        decimal_nat(n / 10).push(digit(n % 10))
    }
}

/// `n` in decimal, with a minus sign if it is negative.
pub open spec fn decimal(n: int) -> Seq<char> {
    if n < 0 {
        seq!['-'] + decimal_nat((-n) as nat)
    } else {
        decimal_nat(n as nat)
    }
}

/// The number of bytes that `s` takes in UTF-8.
pub open spec fn utf8_len(s: Seq<char>) -> nat {
    encode_utf8(s).len()
}

/// The longest end of `s` that takes at most `max` bytes in UTF-8.
pub open spec fn utf8_tail(s: Seq<char>, max: nat) -> Seq<char>
    decreases s.len(),
{
    if s.len() == 0 || utf8_len(s) <= max {
        s
    } else {
        utf8_tail(s.drop_first(), max)
    }
}

/// UTF-8 encodes the parts of a text one after the other.
proof fn lemma_encode_concat(a: Seq<char>, b: Seq<char>)
    ensures
        encode_utf8(a + b) == encode_utf8(a) + encode_utf8(b),
    decreases a.len(),
{
    if a.len() == 0 {
        assert(a + b =~= b);
    } else {
        lemma_encode_concat(a.drop_first(), b);
        assert((a + b).drop_first() =~= a.drop_first() + b);
    }
}

/// The end of the encoding of the first `k` characters is a character boundary.
proof fn lemma_char_boundary(s: Seq<char>, k: int)
    requires
        0 <= k <= s.len(),
    ensures
        is_char_boundary(encode_utf8(s), utf8_len(s.take(k)) as int),
    decreases k,
{
    encode_utf8_valid_utf8(s);
    if k == 0 {
        assert(s.take(0) =~= Seq::<char>::empty());
    } else {
        let rest = s.drop_first();
        encode_utf8_first_scalar(s);
        lemma_char_boundary(rest, k - 1);
        assert(s.take(k).drop_first() =~= rest.take(k - 1));
        assert(pop_first_scalar(encode_utf8(s)) =~= encode_utf8(rest));
        lemma_encode_concat(s.take(k), s.skip(k));
        assert(s =~= s.take(k) + s.skip(k));
    }
}

/// Two texts with one encoding are one text.
proof fn lemma_encode_injective(a: Seq<char>, b: Seq<char>)
    requires
        encode_utf8(a) == encode_utf8(b),
    ensures
        a == b,
{
    encode_utf8_decode_utf8(a);
    encode_utf8_decode_utf8(b);
}

/// The number of bytes of `c` in UTF-8.
fn char_width(c: char) -> (n: usize)
    ensures
        n == encode_scalar(c as u32).len(),
        1 <= n <= 4,
{
    let v = c as u32;
    if v <= 0x7f {
        1
    } else if v <= 0x7ff {
        2
    } else if v <= 0xffff {
        3
    } else {
        4
    }
}

/// The length in bytes of the first `k` characters grows with the next one.
proof fn lemma_width_step(s: Seq<char>, k: int)
    requires
        0 <= k < s.len(),
    ensures
        utf8_len(s.take(k + 1)) == utf8_len(s.take(k)) + encode_scalar(s[k] as u32).len(),
        utf8_len(s.take(k)) + utf8_len(s.skip(k)) == utf8_len(s),
        utf8_len(s.take(k + 1)) + utf8_len(s.skip(k + 1)) == utf8_len(s),
{
    assert(s.take(k + 1) =~= s.take(k) + seq![s[k]]);
    lemma_encode_concat(s.take(k), seq![s[k]]);
    assert(seq![s[k]].drop_first() =~= Seq::<char>::empty());
    reveal_with_fuel(encode_utf8, 2);
    lemma_encode_concat(s.take(k), s.skip(k));
    assert(s =~= s.take(k) + s.skip(k));
    lemma_encode_concat(s.take(k + 1), s.skip(k + 1));
    assert(s =~= s.take(k + 1) + s.skip(k + 1));
}

/// Splits `s` behind its first `k` characters, which take `at` bytes.
fn split_after<'a>(s: &'a str, at: usize, Ghost(k): Ghost<int>) -> (r: (&'a str, &'a str))
    requires
        0 <= k <= s@.len(),
        at == utf8_len(s@.take(k)),
    ensures
        r.0@ == s@.take(k),
        r.1@ == s@.skip(k),
{
    proof {
        lemma_char_boundary(s@, k);
        lemma_encode_concat(s@.take(k), s@.skip(k));
        assert(s@ =~= s@.take(k) + s@.skip(k));
    }
    let r = s.split_at(at);
    proof {
        assert(encode_utf8(r.0@) =~= encode_utf8(s@.take(k)));
        assert(encode_utf8(r.1@) =~= encode_utf8(s@.skip(k)));
        lemma_encode_injective(r.0@, s@.take(k));
        lemma_encode_injective(r.1@, s@.skip(k));
    }
    r
}

/// The byte offset of the first newline of `s`, if it has one.
fn newline_offset(s: &str) -> (r: Option<usize>)
    ensures
        r matches Some(at) ==> line_end(s@) < s@.len() && at == utf8_len(s@.take(line_end(s@))),
        r is None ==> line_end(s@) == s@.len(),
{
    let total = s.as_bytes().len();
    let mut offset: usize = 0;
    proof {
        assert(s@.take(0) =~= Seq::<char>::empty());
    }
    for c in it: s.chars()
        invariant
            it.seq() == s@,
            total == utf8_len(s@),
            offset == utf8_len(s@.take(it.index())),
            forall|i: int| 0 <= i < it.index() ==> s@[i] != '\n',
    {
        if c == '\n' {
            proof {
                lemma_line_end_is(s@, it.index());
            }
            return Some(offset);
        }
        proof {
            lemma_width_step(s@, it.index());
        }
        offset = offset + char_width(c);
    }
    proof {
        lemma_line_end_is(s@, s@.len() as int);
    }
    None
}

/// Whether `c` has the Unicode property White_Space.
fn white_space(c: char) -> (b: bool)
    ensures
        b == is_white_space(c),
{
    let v = c as u32;
    (0x09 <= v && v <= 0x0d) || v == 0x20 || v == 0x85 || v == 0xa0 || v == 0x1680 || (0x2000 <= v
        && v <= 0x200a) || v == 0x2028 || v == 0x2029 || v == 0x202f || v == 0x205f || v == 0x3000
}

/// `trim_start` drops exactly the white space before the first other character.
proof fn lemma_trim_start_is(s: Seq<char>, k: int)
    requires
        0 <= k <= s.len(),
        forall|i: int| 0 <= i < k ==> is_white_space(s[i]),
        k < s.len() ==> !is_white_space(s[k]),
    ensures
        trim_start(s) == s.skip(k),
    decreases k,
{
    if k == 0 {
        assert(s.skip(0) =~= s);
    } else {
        lemma_trim_start_is(s.drop_first(), k - 1);
        assert(s.drop_first().skip(k - 1) =~= s.skip(k));
    }
}

/// `trim_end` drops exactly the white space behind the last other character.
proof fn lemma_trim_end_is(s: Seq<char>, k: int)
    requires
        0 <= k <= s.len(),
        forall|i: int| k <= i < s.len() ==> is_white_space(s[i]),
        k > 0 ==> !is_white_space(s[k - 1]),
    ensures
        trim_end(s) == s.take(k),
    decreases s.len(),
{
    if k == s.len() {
        assert(s.take(k) =~= s);
    } else {
        lemma_trim_end_is(s.drop_last(), k);
        assert(s.drop_last().take(k) =~= s.take(k));
    }
}

/// `s` without its leading white space.
fn trim_text_start<'a>(s: &'a str) -> (r: &'a str)
    ensures
        r@ == trim_start(s@),
{
    let total = s.as_bytes().len();
    let mut offset: usize = 0;
    proof {
        assert(s@.take(0) =~= Seq::<char>::empty());
        assert(s@.take(s@.len() as int) =~= s@);
    }
    for c in it: s.chars()
        invariant
            it.seq() == s@,
            total == utf8_len(s@),
            offset == utf8_len(s@.take(it.index())),
            forall|i: int| 0 <= i < it.index() ==> is_white_space(s@[i]),
    {
        if !white_space(c) {
            proof {
                lemma_trim_start_is(s@, it.index());
            }
            let ghost k = it.index();
            return split_after(s, offset, Ghost(k)).1;
        }
        proof {
            lemma_width_step(s@, it.index());
        }
        offset = offset + char_width(c);
    }
    proof {
        lemma_trim_start_is(s@, s@.len() as int);
    }
    split_after(s, total, Ghost(s@.len() as int)).1
}

/// `s` without its trailing white space.
fn trim_text_end<'a>(s: &'a str) -> (r: &'a str)
    ensures
        r@ == trim_end(s@),
{
    let total = s.as_bytes().len();
    let mut offset: usize = 0;
    let mut kept: usize = 0;
    let ghost mut count: int = 0;
    proof {
        assert(s@.take(0) =~= Seq::<char>::empty());
    }
    for c in it: s.chars()
        invariant
            it.seq() == s@,
            total == utf8_len(s@),
            offset == utf8_len(s@.take(it.index())),
            0 <= count <= it.index(),
            kept == utf8_len(s@.take(count)),
            forall|i: int| count <= i < it.index() ==> is_white_space(s@[i]),
            count > 0 ==> !is_white_space(s@[count - 1]),
    {
        proof {
            lemma_width_step(s@, it.index());
        }
        offset = offset + char_width(c);
        if !white_space(c) {
            kept = offset;
            proof {
                count = it.index() + 1;
            }
        }
    }
    proof {
        lemma_trim_end_is(s@, count);
    }
    split_after(s, kept, Ghost(count)).0
}

/// `s` without white space at either end.
pub(crate) fn trim_text<'a>(s: &'a str) -> (r: &'a str)
    ensures
        r@ == trimmed(s@),
{
    trim_text_end(trim_text_start(s))
}

/// What follows `prefix` in `s`, if `s` begins with it.
pub(crate) fn strip_prefix<'a>(s: &'a str, prefix: &str) -> (r: Option<&'a str>)
    ensures
        r is Some <==> prefix@.is_prefix_of(s@),
        r matches Some(rest) ==> rest@ == s@.skip(prefix@.len() as int),
{
    let total = s.as_bytes().len();
    let mut offset: usize = 0;
    let mut rest = s.chars();
    proof {
        assert(s@.take(0) =~= Seq::<char>::empty());
        assert(s@.skip(0) =~= s@);
    }
    for p in it: prefix.chars()
        invariant
            it.seq() == prefix@,
            total == utf8_len(s@),
            it.index() <= s@.len(),
            offset == utf8_len(s@.take(it.index())),
            vstd::std_specs::iter::IteratorSpec::remaining(&rest) == s@.skip(it.index()),
            forall|i: int| 0 <= i < it.index() ==> s@[i] == prefix@[i],
    {
        let ghost k = it.index();
        match rest.next() {
            Some(c) => {
                if c != p {
                    assert(s@[k] != prefix@[k]);
                    return None;
                }
                proof {
                    lemma_width_step(s@, k);
                    assert(s@.skip(k).drop_first() =~= s@.skip(k + 1));
                }
                offset = offset + char_width(c);
            },
            None => {
                assert(s@.skip(k).len() == 0);
                return None;
            },
        }
    }
    let ghost k = prefix@.len() as int;
    assert(prefix@ =~= s@.subrange(0, k));
    Some(split_after(s, offset, Ghost(k)).1)
}

/// Whether `s` begins with `prefix`.
pub(crate) fn begins_with(s: &str, prefix: &str) -> (b: bool)
    ensures
        b == prefix@.is_prefix_of(s@),
{
    strip_prefix(s, prefix).is_some()
}

/// Whether `a` and `b` hold the same characters.
pub(crate) fn same_text(a: &str, b: &str) -> (same: bool)
    ensures
        same == (a@ == b@),
{
    match strip_prefix(a, b) {
        Some(rest) => {
            proof {
                if rest@.len() == 0 {
                    assert(a@ =~= b@);
                }
            }
            rest.is_empty()
        },
        None => {
            proof {
                if a@ == b@ {
                    assert(b@ =~= a@.subrange(0, b@.len() as int));
                }
            }
            false
        },
    }
}

/// The views of `lines`.
pub open spec fn views(lines: Seq<&str>) -> Seq<Seq<char>> {
    lines.map_values(|line: &str| line@)
}

/// The views of `strings`.
pub open spec fn string_views(strings: Seq<String>) -> Seq<Seq<char>> {
    strings.map_values(|string: String| string@)
}

/// The pieces of `s` between its newlines.
pub(crate) fn split_text<'a>(s: &'a str) -> (lines: Vec<&'a str>)
    ensures
        views(lines@) == split_lines(s@),
        lines@.len() >= 1,
{
    let mut lines: Vec<&'a str> = Vec::new();
    let mut rest: &'a str = s;
    proof {
        assert(views(lines@) + split_lines(rest@) =~= split_lines(s@));
    }
    loop
        invariant
            views(lines@) + split_lines(rest@) == split_lines(s@),
        decreases rest@.len(),
    {
        proof {
            lemma_line_end(rest@);
        }
        let ghost before = lines@;
        match newline_offset(rest) {
            Some(at) => {
                let ghost end = line_end(rest@);
                let (line, tail) = split_after(rest, at, Ghost(end));
                proof {
                    lemma_width_step(tail@, 0);
                    assert(tail@.take(0) =~= Seq::<char>::empty());
                    assert(tail@.take(1) =~= seq!['\n']);
                    assert(utf8_len(tail@.take(1)) == 1);
                    assert(tail@.skip(1) =~= rest@.skip(end + 1));
                }
                let (newline, next) = split_after(tail, 1, Ghost(1int));
                lines.push(line);
                proof {
                    assert(split_lines(rest@) == seq![line@] + split_lines(next@));
                    assert(views(lines@) =~= views(before).push(line@));
                    assert(views(before) + (seq![line@] + split_lines(next@)) =~= views(lines@)
                        + split_lines(next@));
                }
                rest = next;
            },
            None => {
                lines.push(rest);
                proof {
                    assert(views(lines@) =~= views(before) + seq![rest@]);
                }
                return lines;
            },
        }
    }
}

/// `lines` one after the other with a newline between two of them.
pub(crate) fn join_text(lines: &Vec<&str>) -> (text: String)
    ensures
        text@ == join_lines(views(lines@)),
{
    let mut text = String::new();
    let mut i: usize = 0;
    let ghost all = views(lines@);
    proof {
        reveal_strlit("\n");
        assert(all.skip(0) =~= all);
        if lines@.len() > 0 {
            assert(text@ + join_lines(all.skip(0)) =~= join_lines(all));
        }
    }
    while i < lines.len()
        invariant
            i <= lines@.len(),
            all == views(lines@),
            "\n"@ =~= seq!['\n'],
            i == 0 ==> text@ == Seq::<char>::empty(),
            i == lines@.len() ==> text@ == join_lines(all),
            0 < i < lines@.len() ==> text@ + "\n"@ + join_lines(all.skip(i as int)) == join_lines(all),
        decreases lines@.len() - i,
    {
        let ghost before = text@;
        let ghost rest = all.skip(i as int);
        proof {
            assert(rest.drop_first() =~= all.skip(i + 1));
            assert(rest[0] == lines@[i as int]@);
            if i == 0 {
                assert(rest =~= all);
            }
        }
        if i > 0 {
            text.append("\n");
        }
        text.append(lines[i]);
        proof {
            let head = if i > 0 { before + "\n"@ } else { Seq::<char>::empty() };
            assert(text@ =~= head + rest[0]);
            if i + 1 == lines@.len() {
                assert(head + rest[0] =~= join_lines(all));
            } else {
                assert(head + (rest[0] + seq!['\n'] + join_lines(all.skip(i + 1))) =~= text@
                    + "\n"@ + join_lines(all.skip(i + 1)));
                assert(head + join_lines(rest) =~= join_lines(all));
            }
        }
        i = i + 1;
    }
    text
}

/// `line` without one carriage return at its end.
fn strip_return_text<'a>(line: &'a str) -> (r: &'a str)
    ensures
        r@ == strip_return(line@),
{
    let total = line.as_bytes().len();
    let mut offset: usize = 0;
    let mut before_last: usize = 0;
    let mut ends_in_return = false;
    proof {
        assert(line@.take(0) =~= Seq::<char>::empty());
    }
    for c in it: line.chars()
        invariant
            it.seq() == line@,
            total == utf8_len(line@),
            offset == utf8_len(line@.take(it.index())),
            it.index() > 0 ==> before_last == utf8_len(line@.take(it.index() - 1)),
            ends_in_return == (it.index() > 0 && line@[it.index() - 1] == '\r'),
    {
        proof {
            lemma_width_step(line@, it.index());
        }
        before_last = offset;
        offset = offset + char_width(c);
        ends_in_return = c == '\r';
    }
    if ends_in_return {
        proof {
            assert(line@.take(line@.len() - 1) =~= line@.drop_last());
        }
        split_after(line, before_last, Ghost(line@.len() - 1)).0
    } else {
        line
    }
}

/// The lines of `s`, each ended by a newline or by a carriage return and a
/// newline.
pub(crate) fn lines_of<'a>(s: &'a str) -> (lines: Vec<&'a str>)
    ensures
        views(lines@) == text_lines(s@),
{
    let mut pieces = split_text(s);
    let ghost all = views(pieces@);
    let mut lines: Vec<&'a str> = Vec::new();
    let mut i: usize = 0;
    while i < pieces.len() - 1
        invariant
            1 <= pieces@.len(),
            i <= pieces@.len() - 1,
            all == views(pieces@),
            views(lines@) == all.take(i as int).map_values(|line: Seq<char>| strip_return(line)),
        decreases pieces@.len() - i,
    {
        let ghost before = lines@;
        lines.push(strip_return_text(pieces[i]));
        proof {
            assert(views(lines@) =~= views(before).push(strip_return(all[i as int])));
            assert(all.take(i + 1).map_values(|line: Seq<char>| strip_return(line)) =~= all.take(
                i as int,
            ).map_values(|line: Seq<char>| strip_return(line)).push(strip_return(all[i as int])));
        }
        i = i + 1;
    }
    let last = pieces[i];
    let ghost before = lines@;
    proof {
        assert(all.take(i as int) =~= all.drop_last());
        assert(last@ == all.last());
    }
    if !last.is_empty() {
        lines.push(last);
        proof {
            assert(views(lines@) =~= views(before).push(last@));
        }
    }
    lines
}

/// The longest end of `s` that takes at most `max` bytes in UTF-8.
pub(crate) fn tail_of<'a>(s: &'a str, max: usize) -> (r: &'a str)
    ensures
        r@ == utf8_tail(s@, max as nat),
{
    let total = s.as_bytes().len();
    let mut offset: usize = 0;
    proof {
        assert(s@.take(0) =~= Seq::<char>::empty());
        assert(s@.skip(0) =~= s@);
        assert(s@.take(s@.len() as int) =~= s@);
    }
    for c in it: s.chars()
        invariant
            it.seq() == s@,
            total == utf8_len(s@),
            offset == utf8_len(s@.take(it.index())),
            offset <= total,
            utf8_tail(s@.skip(it.index()), max as nat) == utf8_tail(s@, max as nat),
    {
        let ghost k = it.index();
        proof {
            lemma_width_step(s@, k);
            assert(s@.skip(k).drop_first() =~= s@.skip(k + 1));
        }
        if total - offset <= max {
            return split_after(s, offset, Ghost(k)).1;
        }
        offset = offset + char_width(c);
    }
    split_after(s, total, Ghost(s@.len() as int)).1
}

/// The decimal digit for `d`, as a text.
fn digit_text(d: u32) -> (r: &'static str)
    requires
        d < 10,
    ensures
        r@ == seq![digit(d as nat)],
{
    proof {
        reveal_strlit("0");
        reveal_strlit("1");
        reveal_strlit("2");
        reveal_strlit("3");
        reveal_strlit("4");
        reveal_strlit("5");
        reveal_strlit("6");
        reveal_strlit("7");
        reveal_strlit("8");
        reveal_strlit("9");
    }
    if d == 0 {
        "0"
    } else if d == 1 {
        "1"
    } else if d == 2 {
        "2"
    } else if d == 3 {
        "3"
    } else if d == 4 {
        "4"
    } else if d == 5 {
        "5"
    } else if d == 6 {
        "6"
    } else if d == 7 {
        "7"
    } else if d == 8 {
        "8"
    } else {
        "9"
    }
}

/// Appends `n` in decimal to `out`.
fn append_decimal_nat(out: &mut String, n: u32)
    ensures
        final(out)@ == old(out)@ + decimal_nat(n as nat),
    decreases n,
{
    if n >= 10 {
        append_decimal_nat(out, n / 10);
    }
    out.append(digit_text(n % 10));
    proof {
        if n >= 10 {
            assert(old(out)@ + decimal_nat((n / 10) as nat) + seq![digit((n % 10) as nat)]
                =~= old(out)@ + decimal_nat(n as nat));
        }
    }
}

/// Appends `n` in decimal to `out`.
pub(crate) fn append_decimal(out: &mut String, n: i32)
    ensures
        final(out)@ == old(out)@ + decimal(n as int),
{
    if n < 0 {
        proof {
            reveal_strlit("-");
        }
        out.append("-");
        let magnitude: u32 = (-(n as i64)) as u32;
        append_decimal_nat(out, magnitude);
        proof {
            assert("-"@ =~= seq!['-']);
            assert(old(out)@ + "-"@ + decimal_nat(magnitude as nat) =~= old(out)@ + decimal(
                n as int,
            ));
        }
    } else {
        append_decimal_nat(out, n as u32);
    }
}

/// Joining the pieces of a text between its newlines gives the text back.
pub proof fn join_of_split_is_the_text(s: Seq<char>)
    ensures
        join_lines(split_lines(s)) == s,
        split_lines(s).len() >= 1,
    decreases s.len(),
{
    lemma_line_end(s);
    let end = line_end(s);
    if end < s.len() {
        let rest = s.skip(end + 1);
        join_of_split_is_the_text(rest);
        let lines = split_lines(s);
        assert(lines.drop_first() =~= split_lines(rest));
        assert(s.take(end) + seq!['\n'] + rest =~= s);
    }
}

/// No piece of a text between its newlines holds a newline.
pub proof fn split_lines_hold_no_newline(s: Seq<char>)
    ensures
        forall|i: int| 0 <= i < split_lines(s).len() ==> !(#[trigger] split_lines(s)[i]).contains('\n'),
    decreases s.len(),
{
    lemma_line_end(s);
    let end = line_end(s);
    if end < s.len() {
        let rest = s.skip(end + 1);
        split_lines_hold_no_newline(rest);
        assert forall|i: int| 0 <= i < split_lines(s).len() implies !(
        #[trigger] split_lines(s)[i]).contains('\n') by {
            if i > 0 {
                assert(split_lines(s)[i] == split_lines(rest)[i - 1]);
            }
        }
    }
}

/// Splitting at newlines finds the lines again that were joined, if there was
/// at least one and none of them holds a newline.
pub proof fn split_of_join_is_the_lines(lines: Seq<Seq<char>>)
    requires
        lines.len() >= 1,
        forall|i: int| 0 <= i < lines.len() ==> !(#[trigger] lines[i]).contains('\n'),
    ensures
        split_lines(join_lines(lines)) == lines,
    decreases lines.len(),
{
    let joined = join_lines(lines);
    let first = lines[0];
    assert forall|i: int| 0 <= i < first.len() implies first[i] != '\n' by {
        assert(!lines[0].contains('\n'));
    }
    if lines.len() == 1 {
        lemma_line_end_is(joined, joined.len() as int);
        assert(lines =~= seq![first]);
    } else {
        let rest = lines.drop_first();
        assert forall|i: int| 0 <= i < rest.len() implies !(#[trigger] rest[i]).contains('\n') by {
            assert(rest[i] == lines[i + 1]);
        }
        split_of_join_is_the_lines(rest);
        lemma_line_end_is(joined, first.len() as int);
        assert(joined.take(first.len() as int) =~= first);
        assert(joined.skip(first.len() as int + 1) =~= join_lines(rest));
        assert(seq![first] + rest =~= lines);
    }
}

/// What `utf8_tail` keeps is an end of the text, fits, and one more character
/// in front of it would not fit.
pub proof fn utf8_tail_is_the_longest_end(s: Seq<char>, max: nat)
    ensures
        utf8_tail(s, max).is_suffix_of(s),
        utf8_len(utf8_tail(s, max)) <= max,
        utf8_tail(s, max).len() < s.len() ==> utf8_len(
            s.skip(s.len() - utf8_tail(s, max).len() - 1),
        ) > max,
    decreases s.len(),
{
    if s.len() == 0 || utf8_len(s) <= max {
        assert(s.subrange(0, s.len() as int) =~= s);
    } else {
        let rest = s.drop_first();
        utf8_tail_is_the_longest_end(rest, max);
        let kept = utf8_tail(s, max);
        assert(kept =~= s.subrange(s.len() - kept.len(), s.len() as int));
        if kept.len() < rest.len() {
            assert(rest.skip(rest.len() - kept.len() - 1) =~= s.skip(s.len() - kept.len() - 1));
        } else {
            assert(s.skip(0) =~= s);
        }
    }
}

/// `trimmed` takes nothing more away from a trimmed text.
pub proof fn trimming_twice_is_trimming_once(s: Seq<char>)
    ensures
        trimmed(trimmed(s)) == trimmed(s),
        trimmed(s).len() > 0 ==> !is_white_space(trimmed(s)[0]) && !is_white_space(
            trimmed(s).last(),
        ),
{
    lemma_trim_start_ends(s);
    lemma_trim_end_ends(trim_start(s));
}

/// What `trim_start` leaves does not begin with white space.
proof fn lemma_trim_start_ends(s: Seq<char>)
    ensures
        trim_start(s).len() > 0 ==> !is_white_space(trim_start(s)[0]),
    decreases s.len(),
{
    if s.len() > 0 && is_white_space(s[0]) {
        lemma_trim_start_ends(s.drop_first());
    }
}

/// What `trim_end` leaves does not end in white space, and begins as before.
proof fn lemma_trim_end_ends(s: Seq<char>)
    ensures
        trim_end(s).len() > 0 ==> !is_white_space(trim_end(s).last()) && trim_end(s)[0] == s[0],
    decreases s.len(),
{
    if s.len() > 0 && is_white_space(s.last()) {
        lemma_trim_end_ends(s.drop_last());
    }
}

/// A trimmed text is a part of the text.
pub proof fn trimmed_text_is_a_part(s: Seq<char>)
    ensures
        exists|from: int, to: int|
            0 <= from <= to <= s.len() && trimmed(s) == #[trigger] s.subrange(from, to),
{
    let from = lemma_trim_start_part(s);
    let rest = trim_start(s);
    let to = lemma_trim_end_part(rest);
    assert(trimmed(s) =~= s.subrange(from, from + to));
}

/// `trim_start` leaves an end of the text.
proof fn lemma_trim_start_part(s: Seq<char>) -> (from: int)
    ensures
        0 <= from <= s.len(),
        trim_start(s) == s.skip(from),
    decreases s.len(),
{
    if s.len() > 0 && is_white_space(s[0]) {
        let rest = lemma_trim_start_part(s.drop_first());
        assert(s.drop_first().skip(rest) =~= s.skip(rest + 1));
        rest + 1
    } else {
        assert(s.skip(0) =~= s);
        0
    }
}

/// `trim_end` leaves a beginning of the text.
proof fn lemma_trim_end_part(s: Seq<char>) -> (to: int)
    ensures
        0 <= to <= s.len(),
        trim_end(s) == s.take(to),
    decreases s.len(),
{
    if s.len() > 0 && is_white_space(s.last()) {
        let to = lemma_trim_end_part(s.drop_last());
        assert(s.drop_last().take(to) =~= s.take(to));
        to
    } else {
        assert(s.take(s.len() as int) =~= s);
        s.len() as int
    }
}

/// `needle` stands somewhere in `s`.
pub open spec fn occurs_in(needle: Seq<char>, s: Seq<char>) -> bool {
    exists|at: int|
        0 <= at && at + needle.len() <= s.len() && #[trigger] s.subrange(at, at + needle.len())
            == needle
}

/// What stands in joined lines and is no more than a part of one line stands
/// in one of the lines.
pub proof fn what_occurs_in_joined_lines_occurs_in_a_line(
    needle: Seq<char>,
    lines: Seq<Seq<char>>,
)
    requires
        needle.len() > 0,
        !needle.contains('\n'),
        occurs_in(needle, join_lines(lines)),
    ensures
        exists|i: int| 0 <= i < lines.len() && occurs_in(needle, #[trigger] lines[i]),
    decreases lines.len(),
{
    let joined = join_lines(lines);
    let at = choose|at: int|
        0 <= at && at + needle.len() <= joined.len() && #[trigger] joined.subrange(
            at,
            at + needle.len(),
        ) == needle;
    let found = joined.subrange(at, at + needle.len());
    if lines.len() == 1 {
        assert(occurs_in(needle, lines[0]));
    } else if lines.len() > 1 {
        let first = lines[0];
        let rest = lines.drop_first();
        let tail = join_lines(rest);
        let n = first.len() as int;
        if at + needle.len() <= n {
            assert(first.subrange(at, at + needle.len()) =~= needle);
            assert(occurs_in(needle, lines[0]));
        } else if at > n {
            let shifted = at - n - 1;
            assert(tail.subrange(shifted, shifted + needle.len()) =~= needle);
            what_occurs_in_joined_lines_occurs_in_a_line(needle, rest);
            let i = choose|i: int| 0 <= i < rest.len() && occurs_in(needle, #[trigger] rest[i]);
            assert(lines[i + 1] == rest[i]);
        } else {
            assert(joined[n] == '\n');
            assert(needle[n - at] == '\n');
            assert(needle.contains(needle[n - at]));
        }
    }
}

/// White space is these characters and no other.
pub proof fn these_characters_are_white_space(c: char)
    ensures
        is_white_space(c) <==> {
            ||| c == '\t' || c == '\n' || c == '\u{b}' || c == '\u{c}' || c == '\r'
            ||| c == ' ' || c == '\u{85}' || c == '\u{a0}' || c == '\u{1680}'
            ||| '\u{2000}' <= c <= '\u{200a}'
            ||| c == '\u{2028}' || c == '\u{2029}' || c == '\u{202f}'
            ||| c == '\u{205f}' || c == '\u{3000}'
        },
{
}

/// Trimming takes the white space off both ends, all of it, and nothing else.
pub proof fn trimming_takes_the_white_space_off_the_ends(s: Seq<char>, from: int, to: int)
    requires
        0 <= from <= to <= s.len(),
        forall|i: int| 0 <= i < from ==> is_white_space(#[trigger] s[i]),
        forall|i: int| to <= i < s.len() ==> is_white_space(#[trigger] s[i]),
        from < to ==> !is_white_space(s[from]) && !is_white_space(s[to - 1]),
    ensures
        trimmed(s) == s.subrange(from, to),
{
    if from < to {
        lemma_trim_start_is(s, from);
        let rest = s.skip(from);
        assert forall|i: int| to - from <= i < rest.len() implies is_white_space(rest[i]) by {
            assert(rest[i] == s[from + i]);
        }
        lemma_trim_end_is(rest, to - from);
        assert(rest.take(to - from) =~= s.subrange(from, to));
    } else {
        lemma_trim_start_is(s, s.len() as int);
        assert(s.skip(s.len() as int) =~= s.subrange(from, to));
    }
}

/// One newline stands between two lines that are joined, and none around them.
pub proof fn joined_lines_have_one_newline_between_them(a: Seq<Seq<char>>, b: Seq<Seq<char>>)
    ensures
        a.len() > 0 && b.len() > 0 ==> join_lines(a + b) == join_lines(a) + seq!['\n']
            + join_lines(b),
        a.len() == 1 ==> join_lines(a) == a[0],
        a.len() == 0 ==> join_lines(a).len() == 0,
    decreases a.len(),
{
    if a.len() == 1 && b.len() > 0 {
        assert((a + b).drop_first() =~= b);
    } else if a.len() > 1 && b.len() > 0 {
        joined_lines_have_one_newline_between_them(a.drop_first(), b);
        assert((a + b).drop_first() =~= a.drop_first() + b);
        assert(join_lines(a + b) =~= join_lines(a) + seq!['\n'] + join_lines(b));
    }
}

/// Splitting cuts at the first newline.
proof fn lemma_split_first(line: Seq<char>, rest: Seq<char>)
    requires
        !line.contains('\n'),
    ensures
        split_lines(line + seq!['\n'] + rest) == seq![line] + split_lines(rest),
        split_lines(line) == seq![line],
        split_lines(rest).len() >= 1,
{
    let s = line + seq!['\n'] + rest;
    let n = line.len() as int;
    assert forall|i: int| 0 <= i < n implies line[i] != '\n' by {
        assert(line.contains(line[i]));
    }
    lemma_line_end_is(s, n);
    lemma_line_end_is(line, n);
    assert(s.take(n) =~= line);
    assert(s.skip(n + 1) =~= rest);
    join_of_split_is_the_text(rest);
}

/// A line ends at its newline, which takes one carriage return before it along.
/// What stands behind the last newline is a line too, unless it is empty.
pub proof fn lines_end_at_their_newlines(line: Seq<char>, rest: Seq<char>)
    requires
        !line.contains('\n'),
    ensures
        text_lines(line + seq!['\r', '\n'] + rest) == seq![line] + text_lines(rest),
        line.len() == 0 || line.last() != '\r' ==> text_lines(line + seq!['\n'] + rest)
            == seq![line] + text_lines(rest),
        line.len() > 0 ==> text_lines(line) == seq![line],
        line.len() == 0 ==> text_lines(line).len() == 0,
{
    let returned = line.push('\r');
    assert forall|i: int| 0 <= i < returned.len() implies returned[i] != '\n' by {
        if i < line.len() {
            assert(line.contains(line[i]));
        }
    }
    assert(line + seq!['\r', '\n'] + rest =~= returned + seq!['\n'] + rest);
    assert(returned.drop_last() =~= line);
    lemma_split_first(returned, rest);
    lemma_split_first(line, rest);
    lemma_text_lines_first(returned, rest);
    lemma_text_lines_first(line, rest);
    assert(text_lines(line) =~= if line.len() > 0 {
        seq![line]
    } else {
        Seq::empty()
    });
}

/// The first piece gives the first line.
proof fn lemma_text_lines_first(piece: Seq<char>, rest: Seq<char>)
    requires
        !piece.contains('\n'),
    ensures
        text_lines(piece + seq!['\n'] + rest) == seq![strip_return(piece)] + text_lines(rest),
{
    lemma_split_first(piece, rest);
    let pieces = split_lines(rest);
    let all = seq![piece] + pieces;
    assert(all.last() == pieces.last());
    assert(all.drop_last() =~= seq![piece] + pieces.drop_last());
    assert(text_lines(piece + seq!['\n'] + rest) =~= seq![strip_return(piece)] + text_lines(rest));
}

/// The number that a row of decimal digits says.
pub open spec fn digits_value(digits: Seq<char>) -> int
    decreases digits.len(),
{
    if digits.len() == 0 {
        0
    } else {
        10 * digits_value(digits.drop_last()) + (digits.last() as int - '0' as int)
    }
}

/// A number in decimal says that number, without a leading zero. A negative one
/// has a minus sign before its digits.
pub proof fn a_decimal_says_its_number(n: nat)
    ensures
        digits_value(decimal(n as int)) == n,
        decimal(n as int).len() > 0,
        forall|i: int| 0 <= i < decimal(n as int).len() ==> '0' <= #[trigger] decimal(n as int)[i]
            <= '9',
        n > 0 ==> decimal(n as int)[0] != '0',
        n == 0 ==> decimal(n as int) == seq!['0'],
        n > 0 ==> decimal(-n) == seq!['-'] + decimal(n as int),
    decreases n,
{
    reveal_with_fuel(digits_value, 2);
    if n >= 10 {
        a_decimal_says_its_number(n / 10);
        let whole = decimal(n as int);
        let front = decimal((n / 10) as int);
        assert(whole =~= front.push(digit(n % 10)));
        assert(whole.drop_last() =~= front);
        assert(whole[0] == front[0]);
    } else {
        assert(decimal(n as int).drop_last() =~= Seq::<char>::empty());
    }
}

/// The lengths of two texts in UTF-8 add up.
pub proof fn utf8_lengths_add_up(a: Seq<char>, b: Seq<char>)
    ensures
        utf8_len(a + b) == utf8_len(a) + utf8_len(b),
{
    lemma_encode_concat(a, b);
}

/// A character of ASCII takes one byte in UTF-8.
pub proof fn ascii_takes_one_byte_each(s: Seq<char>)
    requires
        forall|i: int| 0 <= i < s.len() ==> (#[trigger] s[i] as u32) < 128,
    ensures
        utf8_len(s) == s.len(),
    decreases s.len(),
{
    if s.len() > 0 {
        let rest = s.drop_first();
        assert forall|i: int| 0 <= i < rest.len() implies (#[trigger] rest[i] as u32) < 128 by {
            assert(rest[i] == s[i + 1]);
        }
        assert((s[0] as u32) < 128);
        ascii_takes_one_byte_each(rest);
        assert(encode_scalar(s[0] as u32).len() == 1);
    }
}

/// No line of a text holds a newline.
pub proof fn text_lines_hold_no_newline(s: Seq<char>)
    ensures
        forall|i: int| 0 <= i < text_lines(s).len() ==> !(#[trigger] text_lines(s)[i]).contains('\n'),
{
    split_lines_hold_no_newline(s);
    join_of_split_is_the_text(s);
    let pieces = split_lines(s);
    assert forall|i: int| 0 <= i < text_lines(s).len() implies !(#[trigger] text_lines(s)[i]).contains(
        '\n',
    ) by {
        let line = text_lines(s)[i];
        assert(!pieces[i].contains('\n'));
        if i < pieces.len() - 1 {
            assert(line == strip_return(pieces[i]));
            if line.contains('\n') {
                let j = choose|j: int| 0 <= j < line.len() && line[j] == '\n';
                assert(pieces[i][j] == '\n');
            }
        }
    }
}

/// Only the empty text has no lines.
pub proof fn a_text_without_lines_is_empty(s: Seq<char>)
    ensures
        text_lines(s).len() == 0 <==> s.len() == 0,
{
    join_of_split_is_the_text(s);
    lemma_line_end(s);
    let pieces = split_lines(s);
    if s.len() == 0 {
        assert(pieces =~= seq![s]);
    } else if pieces.len() == 1 {
        assert(join_lines(pieces) == pieces[0]);
        assert(pieces.last() == s);
    }
}

/// The views of texts are theirs, one for one.
pub proof fn views_are_one_for_one(lines: Seq<&str>, strings: Seq<String>)
    ensures
        views(lines).len() == lines.len(),
        forall|i: int| 0 <= i < lines.len() ==> #[trigger] views(lines)[i] == lines[i]@,
        string_views(strings).len() == strings.len(),
        forall|i: int| 0 <= i < strings.len() ==> #[trigger] string_views(strings)[i] == strings[i]@,
{
}

/// A character takes one to four bytes in UTF-8, by its code point.
pub proof fn a_character_takes_its_bytes(c: char)
    ensures
        utf8_len(seq![c]) == (if (c as u32) < 0x80 {
            1nat
        } else if (c as u32) < 0x800 {
            2nat
        } else if (c as u32) < 0x10000 {
            3nat
        } else {
            4nat
        }),
{
    assert(seq![c].drop_first() =~= Seq::<char>::empty());
    reveal_with_fuel(encode_utf8, 2);
}

} // verus!
