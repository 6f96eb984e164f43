//! Text of the firmware protocol: splitting replies into lines and words,
//! recognizing acknowledgements, identity answers and position reports.

use crate::gcode::{axis_letter, axis_letter_lower, Axis};
use vstd::prelude::*;

verus! {

/// Unicode `White_Space`, the characters that `char::is_whitespace` accepts.
pub open spec fn is_space(c: char) -> bool {
    let u = c as u32;
    ||| 0x09 <= u <= 0x0D
    ||| u == 0x20
    ||| u == 0x85
    ||| u == 0xA0
    ||| u == 0x1680
    ||| 0x2000 <= u <= 0x200A
    ||| u == 0x2028
    ||| u == 0x2029
    ||| u == 0x202F
    ||| u == 0x205F
    ||| u == 0x3000
}

/// Whether `c` separates pieces: whitespace when splitting into words, the
/// line feed when splitting into lines.
pub open spec fn is_separator(c: char, by_space: bool) -> bool {
    if by_space {
        is_space(c)
    } else {
        c == '\n'
    }
}

/// The pieces of `s` between separators, in order, empty pieces included:
/// `n` separators give `n + 1` pieces.
pub open spec fn split(s: Seq<char>, by_space: bool) -> Seq<Seq<char>>
    decreases s.len(),
{
    if s.len() == 0 {
        seq![Seq::empty()]
    } else {
        let front = split(s.drop_last(), by_space);
        if is_separator(s.last(), by_space) {
            front.push(Seq::empty())
        } else {
            front.drop_last().push(front.last().push(s.last()))
        }
    }
}

/// The non-empty pieces among `pieces`, in order.
pub open spec fn nonempty(pieces: Seq<Seq<char>>) -> Seq<Seq<char>>
    decreases pieces.len(),
{
    if pieces.len() == 0 {
        pieces
    } else {
        let front = nonempty(pieces.drop_last());
        if pieces.last().len() > 0 {
            front.push(pieces.last())
        } else {
            front
        }
    }
}

/// The lines of `s`: the pieces between line feeds. A final empty piece
/// stands for the text after a trailing line feed; it holds no word.
pub open spec fn lines(s: Seq<char>) -> Seq<Seq<char>> {
    split(s, false)
}

/// The whitespace-separated words of `s`, as `str::split_whitespace` gives
/// them.
pub open spec fn words(s: Seq<char>) -> Seq<Seq<char>> {
    nonempty(split(s, true))
}

/// `w` is `ok` in any letter case.
pub open spec fn is_ok_word(w: Seq<char>) -> bool {
    &&& w.len() == 2
    &&& w[0] == 'o' || w[0] == 'O'
    &&& w[1] == 'k' || w[1] == 'K'
}

/// The line says exactly `ok` (any case), surrounding whitespace ignored.
pub open spec fn is_ok_line(line: Seq<char>) -> bool {
    words(line).len() == 1 && is_ok_word(words(line)[0])
}

/// Some line of `s` is an `ok` acknowledgement.
pub open spec fn holds_ok_line(s: Seq<char>) -> bool {
    exists|i: int| 0 <= i < lines(s).len() && #[trigger] is_ok_line(lines(s)[i])
}

/// The views of a vector of character vectors.
pub open spec fn views(v: Seq<Vec<char>>) -> Seq<Seq<char>> {
    v.map_values(|p: Vec<char>| p@)
}

proof fn lemma_split_nonempty(s: Seq<char>, by_space: bool)
    ensures
        split(s, by_space).len() >= 1,
    decreases s.len(),
{
    if s.len() > 0 {
        lemma_split_nonempty(s.drop_last(), by_space);
    }
}

/// Whether `c` is whitespace, as `char::is_whitespace` decides.
pub fn is_space_char(c: char) -> (r: bool)
    ensures
        r == is_space(c),
{
    let u = c as u32;
    (0x09 <= u && u <= 0x0D) || u == 0x20 || u == 0x85 || u == 0xA0 || u == 0x1680 || (0x2000
        <= u && u <= 0x200A) || u == 0x2028 || u == 0x2029 || u == 0x202F || u == 0x205F || u
        == 0x3000
}

fn is_separator_char(c: char, by_space: bool) -> (r: bool)
    ensures
        r == is_separator(c, by_space),
{
    if by_space {
        is_space_char(c)
    } else {
        c == '\n'
    }
}

/// The characters of `s`, in order.
pub fn chars_of(s: &str) -> (v: Vec<char>)
    ensures
        v@ == s@,
{
    let mut v: Vec<char> = Vec::new();
    for c in it: s.chars()
        invariant
            v@ == it.seq().take(it.index() as int),
            it.seq() == s@,
    {
        v.push(c);
    }
    v
}

/// The lines of `s`, as [`lines`] defines them.
pub fn split_lines(s: &[char]) -> (out: Vec<Vec<char>>)
    ensures
        views(out@) == lines(s@),
{
    let mut out: Vec<Vec<char>> = Vec::new();
    let mut cur: Vec<char> = Vec::new();
    let mut k: usize = 0;
    assert(s@.take(0) =~= Seq::<char>::empty());
    assert(views(out@).push(cur@) =~= split(s@.take(0), false));
    while k < s.len()
        invariant
            k <= s.len(),
            views(out@).push(cur@) == split(s@.take(k as int), false),
        decreases s.len() - k,
    {
        let c = s[k];
        let ghost before = s@.take(k as int);
        let ghost prev_out = out@;
        let ghost prev_cur = cur@;
        assert(s@.take(k + 1).drop_last() =~= before);
        if c == '\n' {
            out.push(cur);
            cur = Vec::new();
            assert(views(out@) =~= views(prev_out).push(prev_cur));
            assert(views(out@).push(cur@) =~= split(s@.take(k + 1), false));
        } else {
            cur.push(c);
            assert(views(prev_out).push(prev_cur).drop_last() =~= views(prev_out));
            assert(views(out@).push(cur@) =~= split(s@.take(k + 1), false));
        }
        k = k + 1;
    }
    assert(s@.take(s.len() as int) =~= s@);
    let ghost prev_out = out@;
    out.push(cur);
    assert(views(out@) =~= views(prev_out).push(cur@));
    out
}

/// The whitespace-separated words of `s`, as [`words`] defines them.
pub fn split_words(s: &[char]) -> (out: Vec<Vec<char>>)
    ensures
        views(out@) == words(s@),
{
    let mut out: Vec<Vec<char>> = Vec::new();
    let mut cur: Vec<char> = Vec::new();
    let mut k: usize = 0;
    assert(s@.take(0) =~= Seq::<char>::empty());
    assert(split(s@.take(0), true).drop_last() =~= Seq::<Seq<char>>::empty());
    while k < s.len()
        invariant
            k <= s.len(),
            split(s@.take(k as int), true).len() >= 1,
            split(s@.take(k as int), true).last() == cur@,
            nonempty(split(s@.take(k as int), true).drop_last()) == views(out@),
        decreases s.len() - k,
    {
        let c = s[k];
        let ghost before = s@.take(k as int);
        let ghost front = split(before, true);
        let ghost prev_out = out@;
        let ghost prev_cur = cur@;
        assert(s@.take(k + 1).drop_last() =~= before);
        assert(s@.take(k + 1).last() == c);
        if is_space_char(c) {
            let ghost after = split(s@.take(k + 1), true);
            assert(after == front.push(Seq::empty()));
            assert(after.drop_last() =~= front);
            assert(front =~= front.drop_last().push(prev_cur));
            if cur.len() > 0 {
                out.push(cur);
                assert(views(out@) =~= views(prev_out).push(prev_cur));
            }
            cur = Vec::new();
            assert(cur@ =~= Seq::<char>::empty());
        } else {
            cur.push(c);
            let ghost after = split(s@.take(k + 1), true);
            assert(after.drop_last() =~= front.drop_last());
        }
        k = k + 1;
    }
    assert(s@.take(s.len() as int) =~= s@);
    let ghost pieces = split(s@, true);
    assert(pieces =~= pieces.drop_last().push(cur@));
    if cur.len() > 0 {
        let ghost prev_out = out@;
        out.push(cur);
        assert(views(out@) =~= views(prev_out).push(pieces.last()));
    }
    out
}

/// Whether the line `l` is an `ok` acknowledgement.
fn ok_line(l: &[char]) -> (r: bool)
    ensures
        r == is_ok_line(l@),
{
    let ws = split_words(l);
    if ws.len() != 1 {
        return false;
    }
    let w = &ws[0];
    assert(w@ == words(l@)[0]);
    w.len() == 2 && (w[0] == 'o' || w[0] == 'O') && (w[1] == 'k' || w[1] == 'K')
}

/// Whether `chars` holds a line that is exactly `ok`.
pub fn ok_line_in(chars: &[char]) -> (r: bool)
    ensures
        r == holds_ok_line(chars@),
{
    let ls = split_lines(chars);
    let mut i: usize = 0;
    while i < ls.len()
        invariant
            i <= ls.len(),
            views(ls@) == lines(chars@),
            forall|j: int| 0 <= j < i ==> !is_ok_line(#[trigger] lines(chars@)[j]),
        decreases ls.len() - i,
    {
        assert(ls[i as int]@ == lines(chars@)[i as int]);
        if ok_line(ls[i].as_slice()) {
            return true;
        }
        i = i + 1;
    }
    false
}

/// Returns `true` when `buffer` contains a line that is exactly the `ok`
/// acknowledgement (case-insensitive, surrounding whitespace ignored).
///
/// An echoed command such as `G0 X10 FEEDBACK:ok` does not count: only a
/// line of its own saying `ok` does. The text after the last line feed is a
/// line too, so an `ok` without a final line feed is recognized.
pub fn has_ok_line(buffer: &str) -> (r: bool)
    ensures
        r == holds_ok_line(buffer@),
{
    let chars = chars_of(buffer);
    ok_line_in(chars.as_slice())
}

/// Splitting text that follows a line feed: the lines of `a + b` are those
/// of `a` before its final (empty) line, then those of `b`.
proof fn lemma_lines_after_line_feed(a: Seq<char>, b: Seq<char>)
    requires
        a.len() > 0,
        a.last() == '\n',
    ensures
        lines(a + b) == lines(a).drop_last() + lines(b),
        lines(a).last() == Seq::<char>::empty(),
    decreases b.len(),
{
    if b.len() == 0 {
        assert(a + b =~= a);
        assert(lines(a).drop_last().push(Seq::<char>::empty()) =~= lines(a));
        assert(lines(a).drop_last() + lines(b) =~= lines(a));
    } else {
        let b0 = b.drop_last();
        lemma_lines_after_line_feed(a, b0);
        lemma_split_nonempty(b0, false);
        assert((a + b).drop_last() =~= a + b0);
        assert((a + b).last() == b.last());
        let head = lines(a).drop_last();
        let rest = lines(b0);
        if b.last() == '\n' {
            assert((head + rest).push(Seq::<char>::empty()) =~= head + rest.push(
                Seq::<char>::empty(),
            ));
        } else {
            assert((head + rest).last() == rest.last());
            assert((head + rest).drop_last() =~= head + rest.drop_last());
            assert((head + rest).drop_last().push((head + rest).last().push(b.last())) =~= head
                + rest.drop_last().push(rest.last().push(b.last())));
        }
    }
}

/// An empty line is no acknowledgement.
proof fn lemma_empty_line_is_not_ok()
    ensures
        !is_ok_line(Seq::<char>::empty()),
{
    let pieces = split(Seq::<char>::empty(), true);
    assert(pieces =~= seq![Seq::<char>::empty()]);
    assert(pieces.drop_last() =~= Seq::<Seq<char>>::empty());
    assert(nonempty(pieces.drop_last()) =~= Seq::<Seq<char>>::empty());
    assert(words(Seq::<char>::empty()).len() == 0);
}

/// Text that ends with a line feed and the text that follows it are read
/// line by line on their own: their concatenation holds an `ok` line exactly
/// when one of the two parts does.
pub proof fn lemma_ok_line_over_concatenation(a: Seq<char>, b: Seq<char>)
    requires
        a.len() > 0,
        a.last() == '\n',
    ensures
        holds_ok_line(a + b) == (holds_ok_line(a) || holds_ok_line(b)),
{
    lemma_lines_after_line_feed(a, b);
    lemma_empty_line_is_not_ok();
    let la = lines(a);
    let head = la.drop_last();
    let lb = lines(b);
    let all = lines(a + b);
    assert(all == head + lb);
    if holds_ok_line(a + b) {
        let i = choose|i: int| 0 <= i < all.len() && #[trigger] is_ok_line(all[i]);
        if i < head.len() {
            assert(la[i] == all[i]);
        } else {
            assert(lb[i - head.len()] == all[i]);
        }
    }
    if holds_ok_line(a) {
        let i = choose|i: int| 0 <= i < la.len() && #[trigger] is_ok_line(la[i]);
        assert(i != la.len() - 1);
        assert(all[i] == la[i]);
    }
    if holds_ok_line(b) {
        let i = choose|i: int| 0 <= i < lb.len() && #[trigger] is_ok_line(lb[i]);
        assert(all[head.len() + i] == lb[i]);
    }
}

/// `c` is an ASCII decimal digit.
pub open spec fn is_digit(c: char) -> bool {
    '0' as u32 <= c as u32 <= '9' as u32
}

/// Every character of `s` is a decimal digit.
pub open spec fn all_digits(s: Seq<char>) -> bool {
    forall|i: int| 0 <= i < s.len() ==> is_digit(#[trigger] s[i])
}

/// The code of the ASCII lower-case form of `c`.
pub open spec fn ascii_lower(c: char) -> u32 {
    if 'A' as u32 <= c as u32 <= 'Z' as u32 {
        (c as u32 + 32) as u32
    } else {
        c as u32
    }
}

/// `s` spells `word` (given in lower case), ignoring ASCII case.
pub open spec fn spells(s: Seq<char>, word: Seq<char>) -> bool {
    s.len() == word.len() && forall|i: int|
        0 <= i < s.len() ==> ascii_lower(#[trigger] s[i]) == word[i] as u32
}

/// `s` without a leading `+` or `-`.
pub open spec fn unsigned(s: Seq<char>) -> Seq<char> {
    if s.len() > 0 && (s[0] == '+' || s[0] == '-') {
        s.drop_first()
    } else {
        s
    }
}

/// `Digit+ | Digit+ '.' Digit* | Digit* '.' Digit+`
pub open spec fn mantissa(m: Seq<char>) -> bool {
    ||| m.len() > 0 && all_digits(m)
    ||| m.len() >= 2 && exists|p: int|
        0 <= p < m.len() && #[trigger] m[p] == '.' && all_digits(m.take(p)) && all_digits(
            m.skip(p + 1),
        )
}

/// `'e' Sign? Digit+`, the `e` in either case.
pub open spec fn exponent(e: Seq<char>) -> bool {
    e.len() >= 2 && ascii_lower(e[0]) == 'e' as u32 && unsigned(e.drop_first()).len() > 0
        && all_digits(unsigned(e.drop_first()))
}

/// The texts that `str::parse::<f32>` accepts, by the grammar its
/// documentation gives: `Sign? ('inf' | 'infinity' | 'nan' | Number)` with
/// `Number ::= Mantissa Exp?`, letters in any case, no surrounding
/// whitespace.
pub open spec fn float_syntax(s: Seq<char>) -> bool {
    let b = unsigned(s);
    ||| spells(b, seq!['i', 'n', 'f'])
    ||| spells(b, seq!['i', 'n', 'f', 'i', 'n', 'i', 't', 'y'])
    ||| spells(b, seq!['n', 'a', 'n'])
    ||| exists|k: int|
        0 <= k <= b.len() && #[trigger] mantissa(b.take(k)) && (k == b.len() || exponent(
            b.skip(k),
        ))
}

fn is_digit_char(c: char) -> (r: bool)
    ensures
        r == is_digit(c),
{
    '0' as u32 <= c as u32 && c as u32 <= '9' as u32
}

fn all_digits_vec(s: &[char]) -> (r: bool)
    ensures
        r == all_digits(s@),
{
    let mut i: usize = 0;
    while i < s.len()
        invariant
            i <= s@.len(),
            forall|j: int| 0 <= j < i ==> is_digit(#[trigger] s@[j]),
        decreases s.len() - i,
    {
        if !is_digit_char(s[i]) {
            return false;
        }
        i = i + 1;
    }
    true
}

fn spells_word(s: &[char], word: &[char]) -> (r: bool)
    ensures
        r == spells(s@, word@),
{
    if s.len() != word.len() {
        return false;
    }
    let mut i: usize = 0;
    while i < s.len()
        invariant
            i <= s@.len(),
            s@.len() == word@.len(),
            forall|j: int| 0 <= j < i ==> ascii_lower(#[trigger] s@[j]) == word@[j] as u32,
        decreases s.len() - i,
    {
        let c = s[i] as u32;
        let lowered = if 'A' as u32 <= c && c <= 'Z' as u32 {
            c + 32
        } else {
            c
        };
        if lowered != word[i] as u32 {
            return false;
        }
        i = i + 1;
    }
    true
}

fn unsigned_part(s: &[char]) -> (r: Vec<char>)
    ensures
        r@ == unsigned(s@),
{
    if s.len() > 0 && (s[0] == '+' || s[0] == '-') {
        let r = tail(s, 1);
        assert(r@ =~= s@.drop_first());
        r
    } else {
        let r = tail(s, 0);
        assert(r@ =~= s@);
        r
    }
}

fn mantissa_ok(m: &[char]) -> (r: bool)
    ensures
        r == mantissa(m@),
{
    let mut p: usize = 0;
    while p < m.len() && m[p] != '.'
        invariant
            p <= m@.len(),
            forall|j: int| 0 <= j < p ==> m@[j] != '.',
        decreases m.len() - p,
    {
        p = p + 1;
    }
    if p == m.len() {
        let r = m.len() > 0 && all_digits_vec(m);
        assert(!(exists|q: int| 0 <= q < m@.len() && #[trigger] m@[q] == '.'));
        r
    } else {
        let before = head(m, p);
        let after = tail(m, p + 1);
        let r = m.len() >= 2 && all_digits_vec(before.as_slice()) && all_digits_vec(
            after.as_slice(),
        );
        assert(!is_digit(m@[p as int]));
        assert(!all_digits(m@));
        proof {
            if r {
                assert(m@[p as int] == '.');
            } else if mantissa(m@) {
                let q = choose|q: int|
                    0 <= q < m@.len() && #[trigger] m@[q] == '.' && all_digits(m@.take(q))
                        && all_digits(m@.skip(q + 1));
                if q > p {
                    assert(m@.take(q)[p as int] == '.');
                }
                assert(q == p);
            }
        }
        r
    }
}

fn exponent_ok(e: &[char]) -> (r: bool)
    ensures
        r == exponent(e@),
{
    if e.len() < 2 {
        return false;
    }
    let c = e[0] as u32;
    if !(c == 'e' as u32 || c == 'E' as u32) {
        return false;
    }
    let rest = tail(e, 1);
    assert(rest@ =~= e@.drop_first());
    let digits = unsigned_part(rest.as_slice());
    digits.len() > 0 && all_digits_vec(digits.as_slice())
}

/// Whether `s` is a number as `str::parse::<f32>` reads them, by the
/// grammar of its documentation.
pub fn is_float_text(s: &[char]) -> (r: bool)
    ensures
        r == float_syntax(s@),
{
    let b = unsigned_part(s);
    let inf = vec!['i', 'n', 'f'];
    let infinity = vec!['i', 'n', 'f', 'i', 'n', 'i', 't', 'y'];
    let nan = vec!['n', 'a', 'n'];
    assert(inf@ =~= seq!['i', 'n', 'f']);
    assert(infinity@ =~= seq!['i', 'n', 'f', 'i', 'n', 'i', 't', 'y']);
    assert(nan@ =~= seq!['n', 'a', 'n']);
    if spells_word(b.as_slice(), inf.as_slice()) || spells_word(b.as_slice(), infinity.as_slice())
        || spells_word(b.as_slice(), nan.as_slice()) {
        return true;
    }
    let mut k: usize = 0;
    while k < b.len() && (is_digit_char(b[k]) || b[k] == '.')
        invariant
            k <= b@.len(),
            forall|j: int| 0 <= j < k ==> is_digit(#[trigger] b@[j]) || b@[j] == '.',
        decreases b.len() - k,
    {
        k = k + 1;
    }
    let m = head(b.as_slice(), k);
    let ok = if !mantissa_ok(m.as_slice()) {
        false
    } else if k == b.len() {
        true
    } else {
        let e = tail(b.as_slice(), k);
        exponent_ok(e.as_slice())
    };
    proof {
        if ok {
            assert(mantissa(b@.take(k as int)));
        } else if exists|k2: int|
            0 <= k2 <= b@.len() && #[trigger] mantissa(b@.take(k2)) && (k2 == b@.len()
                || exponent(b@.skip(k2))) {
            let k2 = choose|k2: int|
                0 <= k2 <= b@.len() && #[trigger] mantissa(b@.take(k2)) && (k2 == b@.len()
                    || exponent(b@.skip(k2)));
            lemma_mantissa_chars(b@.take(k2));
            if k2 > k {
                assert(b@.take(k2)[k as int] == b@[k as int]);
            }
            if k2 < k {
                assert(b@.skip(k2)[0] == b@[k2]);
                assert(ascii_lower(b@[k2]) == 'e' as u32);
            }
            assert(k2 == k);
        }
    }
    ok
}

proof fn lemma_mantissa_chars(m: Seq<char>)
    requires
        mantissa(m),
    ensures
        forall|j: int| 0 <= j < m.len() ==> is_digit(#[trigger] m[j]) || m[j] == '.',
{
    if !(m.len() > 0 && all_digits(m)) {
        let p = choose|p: int|
            0 <= p < m.len() && #[trigger] m[p] == '.' && all_digits(m.take(p)) && all_digits(
                m.skip(p + 1),
            );
        assert forall|j: int| 0 <= j < m.len() implies is_digit(#[trigger] m[j]) || m[j] == '.' by {
            if j < p {
                assert(m.take(p)[j] == m[j]);
            } else if j > p {
                assert(m.skip(p + 1)[j - p - 1] == m[j]);
            }
        }
    }
}

/// Builds a `String` from its characters (`String::from_iter`). Claimed:
/// the string holds exactly these characters, in order.
#[verifier::external_body]
pub(crate) fn text_of(chars: &[char]) -> (s: String)
    ensures
        s@ == chars@,
{
    chars.iter().collect()
}

/// `w` is a field `<axis>:<value>` of a position report, the axis letter
/// in either case and the value a number that `str::parse::<f32>` reads:
/// `str::split_once(':')` splits `w` into the one-letter key and the value.
pub open spec fn is_axis_field(w: Seq<char>, axis: Axis) -> bool {
    &&& w.len() >= 2
    &&& w[0] == axis_letter(axis) || w[0] == axis_letter_lower(axis)
    &&& w[1] == ':'
    &&& float_syntax(w.skip(2))
}

/// The value of the last field for `axis` among `ws`, if there is one: a
/// later field for the same axis overrides an earlier one.
pub open spec fn last_field(ws: Seq<Seq<char>>, axis: Axis) -> Option<Seq<char>>
    decreases ws.len(),
{
    if ws.len() == 0 {
        None
    } else if is_axis_field(ws.last(), axis) {
        Some(ws.last().skip(2))
    } else {
        last_field(ws.drop_last(), axis)
    }
}

/// The X, Y and Z value texts of a line, if it has a field for each.
pub open spec fn line_position(line: Seq<char>) -> Option<(Seq<char>, Seq<char>, Seq<char>)> {
    let ws = words(line);
    match (last_field(ws, Axis::X), last_field(ws, Axis::Y), last_field(ws, Axis::Z)) {
        (Some(x), Some(y), Some(z)) => Some((x, y, z)),
        _ => None,
    }
}

/// The position of the first line among `ls` that holds a full triplet.
pub open spec fn first_position(ls: Seq<Seq<char>>) -> Option<(Seq<char>, Seq<char>, Seq<char>)>
    decreases ls.len(),
{
    if ls.len() == 0 {
        None
    } else if line_position(ls[0]) is Some {
        line_position(ls[0])
    } else {
        first_position(ls.drop_first())
    }
}

/// The position report in `text`: the X, Y and Z value texts of its first
/// line that holds all three.
pub open spec fn position_report(text: Seq<char>) -> Option<(Seq<char>, Seq<char>, Seq<char>)> {
    first_position(lines(text))
}

/// The X, Y and Z values of a position report, as the firmware wrote them;
/// each one is in the grammar [`float_syntax`].
pub struct PositionText {
    /// The X value.
    pub x: String,
    /// The Y value.
    pub y: String,
    /// The Z value.
    pub z: String,
}

impl View for PositionText {
    type V = (Seq<char>, Seq<char>, Seq<char>);

    open spec fn view(&self) -> (Seq<char>, Seq<char>, Seq<char>) {
        (self.x@, self.y@, self.z@)
    }
}

/// The characters of `s` from index `from` on.
fn tail(s: &[char], from: usize) -> (t: Vec<char>)
    requires
        from <= s@.len(),
    ensures
        t@ == s@.skip(from as int),
{
    let mut t: Vec<char> = Vec::new();
    let mut i = from;
    while i < s.len()
        invariant
            from <= i <= s@.len(),
            t@ == s@.subrange(from as int, i as int),
        decreases s.len() - i,
    {
        t.push(s[i]);
        i = i + 1;
    }
    assert(t@ =~= s@.skip(from as int));
    t
}

/// The characters of `s` before index `end`.
fn head(s: &[char], end: usize) -> (t: Vec<char>)
    requires
        end <= s@.len(),
    ensures
        t@ == s@.take(end as int),
{
    let mut t: Vec<char> = Vec::new();
    let mut i: usize = 0;
    while i < end
        invariant
            i <= end <= s@.len(),
            t@ == s@.take(i as int),
        decreases end - i,
    {
        t.push(s[i]);
        i = i + 1;
        assert(t@ =~= s@.take(i as int));
    }
    t
}

fn axis_field(w: &[char], axis: Axis) -> (r: bool)
    ensures
        r == is_axis_field(w@, axis),
{
    if w.len() < 2 {
        return false;
    }
    let (upper, lower) = match axis {
        Axis::X => ('X', 'x'),
        Axis::Y => ('Y', 'y'),
        Axis::Z => ('Z', 'z'),
    };
    if (w[0] == upper || w[0] == lower) && w[1] == ':' {
        let value = tail(w, 2);
        is_float_text(value.as_slice())
    } else {
        false
    }
}

/// The index of the word holding the last field for `axis`, if any.
fn last_field_index(ws: &Vec<Vec<char>>, axis: Axis) -> (r: Option<usize>)
    ensures
        match r {
            Some(i) => i < ws@.len() && is_axis_field(ws@[i as int]@, axis) && last_field(
                views(ws@),
                axis,
            ) == Some(ws@[i as int]@.skip(2)),
            None => last_field(views(ws@), axis) is None,
        },
{
    let mut i = ws.len();
    assert(views(ws@).take(i as int) =~= views(ws@));
    while i > 0
        invariant
            i <= ws@.len(),
            last_field(views(ws@), axis) == last_field(views(ws@).take(i as int), axis),
        decreases i,
    {
        let ghost front = views(ws@).take(i as int);
        assert(front.last() == ws@[i - 1]@);
        assert(front.drop_last() =~= views(ws@).take(i - 1));
        if axis_field(ws[i - 1].as_slice(), axis) {
            return Some(i - 1);
        }
        i = i - 1;
    }
    None
}

/// The X, Y and Z value texts of `line`, if it holds a field for each.
fn position_in_line(line: &[char]) -> (r: Option<PositionText>)
    ensures
        match r {
            Some(p) => line_position(line@) == Some(p@),
            None => line_position(line@) is None,
        },
{
    let ws = split_words(line);
    let ix = last_field_index(&ws, Axis::X);
    let iy = last_field_index(&ws, Axis::Y);
    let iz = last_field_index(&ws, Axis::Z);
    match (ix, iy, iz) {
        (Some(ix), Some(iy), Some(iz)) => {
            let x = tail(ws[ix].as_slice(), 2);
            let y = tail(ws[iy].as_slice(), 2);
            let z = tail(ws[iz].as_slice(), 2);
            Some(PositionText {
                x: text_of(x.as_slice()),
                y: text_of(y.as_slice()),
                z: text_of(z.as_slice()),
            })
        },
        _ => None,
    }
}

/// The position report in `chars`, as [`position_report`] defines it.
pub fn position_in(chars: &[char]) -> (r: Option<PositionText>)
    ensures
        match r {
            Some(p) => position_report(chars@) == Some(p@),
            None => position_report(chars@) is None,
        },
{
    let ls = split_lines(chars);
    let mut i: usize = 0;
    assert(views(ls@).skip(0) =~= views(ls@));
    while i < ls.len()
        invariant
            i <= ls@.len(),
            views(ls@) == lines(chars@),
            position_report(chars@) == first_position(views(ls@).skip(i as int)),
        decreases ls.len() - i,
    {
        let ghost rest = views(ls@).skip(i as int);
        assert(rest[0] == ls@[i as int]@);
        assert(rest.drop_first() =~= views(ls@).skip(i + 1));
        let found = position_in_line(ls[i].as_slice());
        if found.is_some() {
            return found;
        }
        i = i + 1;
    }
    None
}

/// Parses a firmware `Position` reply into the texts of its X, Y and Z
/// values.
///
/// The reply format is `X:<val> Y:<val> Z:<val> W:<val> U:<val>`. Each line
/// is scanned for `KEY:VALUE` words; the first line holding numeric `X`,
/// `Y` and `Z` fields gives the result, any other axis (`W`, `U`) being
/// ignored. A line lacking a full triplet is never taken for a position.
pub fn parse_position(text: &str) -> (r: Option<PositionText>)
    ensures
        match r {
            Some(p) => position_report(text@) == Some(p@),
            None => position_report(text@) is None,
        },
{
    let chars = chars_of(text);
    position_in(chars.as_slice())
}

/// The text of `s` before its last line feed; empty when there is none. A
/// partial line still being received is left out.
pub open spec fn complete_part(s: Seq<char>) -> Seq<char>
    decreases s.len(),
{
    if s.len() == 0 {
        s
    } else if s.last() == '\n' {
        s.drop_last()
    } else {
        complete_part(s.drop_last())
    }
}

/// The characters of `s` before its last line feed.
pub fn complete_lines(s: &[char]) -> (r: Vec<char>)
    ensures
        r@ == complete_part(s@),
{
    let mut i = s.len();
    assert(s@.take(i as int) =~= s@);
    while i > 0
        invariant
            i <= s@.len(),
            complete_part(s@) == complete_part(s@.take(i as int)),
        decreases i,
    {
        assert(s@.take(i as int).drop_last() =~= s@.take(i - 1));
        if s[i - 1] == '\n' {
            return head(s, i - 1);
        }
        i = i - 1;
    }
    assert(s@.take(0) =~= Seq::<char>::empty());
    Vec::new()
}

/// Text holding no line feed has no complete line, and the complete part of
/// a text is everything before its last line feed: for any `a` and any `b`
/// without a line feed, the complete part of `a`, a line feed, then `b` is
/// `a`, whatever line feeds `a` itself holds.
pub proof fn lemma_complete_part_ends_at_last_line_feed(a: Seq<char>, b: Seq<char>)
    requires
        !b.contains('\n'),
    ensures
        complete_part(b) == Seq::<char>::empty(),
        complete_part(a + seq!['\n'] + b) == a,
    decreases b.len(),
{
    if b.len() > 0 {
        let b0 = b.drop_last();
        assert(!b0.contains('\n')) by {
            if b0.contains('\n') {
                let j = choose|j: int| 0 <= j < b0.len() && b0[j] == '\n';
                assert(b[j] == '\n');
            }
        }
        assert(b.last() != '\n') by {
            assert(b[b.len() - 1] == b.last());
        }
        lemma_complete_part_ends_at_last_line_feed(a, b0);
        assert((a + seq!['\n'] + b).drop_last() =~= a + seq!['\n'] + b0);
        assert((a + seq!['\n'] + b).last() == b.last());
    } else {
        assert(a + seq!['\n'] + b =~= a.push('\n'));
        assert(a.push('\n').drop_last() =~= a);
    }
}

/// The identity answer of a Delta robot, in upper case.
pub open spec fn yes_delta() -> Seq<char> {
    seq!['Y', 'E', 'S', 'D', 'E', 'L', 'T', 'A']
}

/// `pattern` occurs in `s` starting at index `i`.
pub open spec fn occurs_at(s: Seq<char>, pattern: Seq<char>, i: int) -> bool {
    0 <= i && i + pattern.len() <= s.len() && s.subrange(i, i + pattern.len()) == pattern
}

/// `pattern` occurs somewhere in `s`.
pub open spec fn occurs_in(s: Seq<char>, pattern: Seq<char>) -> bool {
    exists|i: int| #[trigger] occurs_at(s, pattern, i)
}

/// What `str::to_uppercase` gives for the text `s` (full Unicode case
/// mapping): the name of a result that depends on the text alone.
pub uninterp spec fn uppercase(s: Seq<char>) -> Seq<char>;

/// The code of the ASCII upper-case form of `c`.
pub open spec fn ascii_upper(c: char) -> u32 {
    if 'a' as u32 <= c as u32 <= 'z' as u32 {
        (c as u32 - 32) as u32
    } else {
        c as u32
    }
}

/// Calls `str::to_uppercase` on the text of `s`. Claimed: the result is a
/// function of the text alone, and an ASCII text maps letter by letter to
/// its ASCII upper case. Not stated: the full Unicode case mapping of other
/// characters, which can change a text's length.
#[verifier::external_body]
fn to_upper(s: &[char]) -> (u: Vec<char>)
    ensures
        u@ == uppercase(s@),
        vstd::utf8::is_ascii_chars(s@) ==> u@.len() == s@.len() && forall|i: int|
            0 <= i < s@.len() ==> #[trigger] u@[i] as u32 == ascii_upper(s@[i]),
{
    let text: String = s.iter().collect();
    text.to_uppercase().chars().collect()
}

/// The response holds the identity answer `YesDelta`, in any letter case.
pub open spec fn reports_identity(response: Seq<char>) -> bool {
    occurs_in(uppercase(response), yes_delta())
}

/// Whether `pattern` occurs in `s`.
pub fn find_pattern(s: &[char], pattern: &[char]) -> (r: bool)
    requires
        pattern@.len() > 0,
    ensures
        r == occurs_in(s@, pattern@),
{
    if pattern.len() > s.len() {
        return false;
    }
    let last = s.len() - pattern.len();
    let mut i: usize = 0;
    while i <= last
        invariant
            0 < pattern@.len() <= s@.len(),
            last == s.len() - pattern.len(),
            forall|j: int| 0 <= j < i ==> !occurs_at(s@, pattern@, j),
        decreases last + 1 - i,
    {
        let mut k: usize = 0;
        let mut same = true;
        while k < pattern.len()
            invariant
                i <= last,
                0 < pattern@.len() <= s@.len(),
                last == s.len() - pattern.len(),
                k <= pattern@.len(),
                same == forall|m: int| 0 <= m < k ==> s@[i + m] == pattern@[m],
            decreases pattern.len() - k,
        {
            assert(i + k < s@.len());
            if s[i + k] != pattern[k] {
                same = false;
            }
            k = k + 1;
        }
        if same {
            assert(s@.subrange(i as int, i + pattern@.len()) =~= pattern@);
            assert(occurs_at(s@, pattern@, i as int));
            return true;
        }
        assert(!occurs_at(s@, pattern@, i as int)) by {
            if occurs_at(s@, pattern@, i as int) {
                let m = choose|m: int| 0 <= m < pattern@.len() && s@[i + m] != pattern@[m];
                assert(s@.subrange(i as int, i + pattern@.len())[m] == s@[i + m]);
            }
        }
        i = i + 1;
    }
    assert forall|j: int| !occurs_at(s@, pattern@, j) by {
        if occurs_at(s@, pattern@, j) {
            assert(0 <= j <= last);
        }
    }
    false
}

/// Whether `response` holds the identity answer `YesDelta` (any case).
pub fn identity_in(response: &[char]) -> (r: bool)
    ensures
        r == reports_identity(response@),
        vstd::utf8::is_ascii_chars(response@) ==> (r <==> exists|i: int|
            #[trigger] yes_delta_in_ascii_upper_at(response@, i)),
{
    let upper = to_upper(response);
    let pattern = vec!['Y', 'E', 'S', 'D', 'E', 'L', 'T', 'A'];
    assert(pattern@ =~= yes_delta());
    let r = find_pattern(upper.as_slice(), pattern.as_slice());
    proof {
        if vstd::utf8::is_ascii_chars(response@) {
            lemma_ascii_identity(response@, upper@);
        }
    }
    r
}

/// `YESDELTA` occurs at index `i` of the ASCII upper case of `s`.
pub open spec fn yes_delta_in_ascii_upper_at(s: Seq<char>, i: int) -> bool {
    0 <= i && i + 8 <= s.len() && forall|k: int|
        0 <= k < 8 ==> ascii_upper(#[trigger] s[i + k]) == yes_delta()[k] as u32
}

proof fn lemma_ascii_identity(s: Seq<char>, u: Seq<char>)
    requires
        u.len() == s.len(),
        forall|i: int| 0 <= i < s.len() ==> #[trigger] u[i] as u32 == ascii_upper(s[i]),
    ensures
        occurs_in(u, yes_delta()) <==> exists|i: int| #[trigger] yes_delta_in_ascii_upper_at(s, i),
{
    if occurs_in(u, yes_delta()) {
        let i = choose|i: int| #[trigger] occurs_at(u, yes_delta(), i);
        assert forall|k: int| 0 <= k < 8 implies ascii_upper(#[trigger] s[i + k]) == yes_delta()[k] as u32 by {
            assert(u.subrange(i, i + 8)[k] == u[i + k]);
            assert(u[i + k] as u32 == ascii_upper(s[i + k]));
        }
        assert(yes_delta_in_ascii_upper_at(s, i));
    }
    if exists|i: int| #[trigger] yes_delta_in_ascii_upper_at(s, i) {
        let i = choose|i: int| #[trigger] yes_delta_in_ascii_upper_at(s, i);
        assert forall|k: int| 0 <= k < 8 implies #[trigger] u.subrange(i, i + 8)[k] == yes_delta()[k] by {
            assert(ascii_upper(s[i + k]) == yes_delta()[k] as u32);
            assert(u[i + k] as u32 == ascii_upper(s[i + k]));
            let c = u[i + k];
            let d = yes_delta()[k];
            vstd::utf8::char_u32_cast(c, c as u32);
            vstd::utf8::char_u32_cast(d, d as u32);
        }
        assert(u.subrange(i, i + 8) =~= yes_delta());
        assert(occurs_at(u, yes_delta(), i));
    }
}

} // verus!
