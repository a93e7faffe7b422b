//! Text as sequences of characters: words, lines, numbers and lookups.

use vstd::prelude::*;
use vstd::string::*;

verus! {

/// `String::push` appends one character.
pub assume_specification[ String::push ](s: &mut String, c: char)
    ensures
        final(s)@ == old(s)@.push(c),
;

/// The characters with the Unicode property `White_Space`.
pub open spec fn white_space(c: char) -> bool {
    let n = c as u32;
    ||| 0x9 <= n <= 0xd
    ||| n == 0x20
    ||| n == 0x85
    ||| n == 0xa0
    ||| n == 0x1680
    ||| 0x2000 <= n <= 0x200a
    ||| n == 0x2028
    ||| n == 0x2029
    ||| n == 0x202f
    ||| n == 0x205f
    ||| n == 0x3000
}

/// Whether a character is white space.
pub fn is_white_space(c: char) -> (r: bool)
    ensures
        r == white_space(c),
{
    let n: u32 = c as u32;
    (0x9 <= n && n <= 0xd) || n == 0x20 || n == 0x85 || n == 0xa0 || n == 0x1680 || (0x2000 <= n
        && n <= 0x200a) || n == 0x2028 || n == 0x2029 || n == 0x202f || n == 0x205f || n == 0x3000
}

/// The characters of a text, one per slot.
pub fn chars_of(s: &str) -> (r: Vec<char>)
    ensures
        r@ == s@,
{
    let mut r: Vec<char> = Vec::new();
    for c in it: s.chars()
        invariant
            it.seq() == s@,
            r@ == it.seq().take(it.index() as int),
    {
        r.push(c);
    }
    r
}

/// Whether two texts are the same.
pub fn same(a: &str, b: &str) -> (r: bool)
    ensures
        r == (a@ == b@),
{
    let x = a.as_bytes();
    let y = b.as_bytes();
    proof {
        vstd::utf8::encode_utf8_decode_utf8(a@);
        vstd::utf8::encode_utf8_decode_utf8(b@);
    }
    if x.len() != y.len() {
        return false;
    }
    let n: usize = x.len();
    let mut i: usize = 0;
    while i < n
        invariant
            n == x@.len(),
            n == y@.len(),
            i <= n,
            x@ == a.spec_bytes(),
            y@ == b.spec_bytes(),
            forall|j: int| 0 <= j < i ==> x@[j] == y@[j],
        decreases n - i,
    {
        if x[i] != y[i] {
            return false;
        }
        i = i + 1;
    }
    assert(x@ =~= y@);
    true
}

/// Whether `s` begins with `p`.
pub fn has_prefix(s: &str, p: &str) -> (r: bool)
    ensures
        r == p@.is_prefix_of(s@),
{
    let x = chars_of(s);
    let y = chars_of(p);
    if y.len() > x.len() {
        return false;
    }
    let mut i: usize = 0;
    while i < y.len()
        invariant
            x@ == s@,
            y@ == p@,
            i <= y.len() <= x.len(),
            forall|j: int| 0 <= j < i ==> x@[j] == y@[j],
        decreases y.len() - i,
    {
        if x[i] != y[i] {
            assert(p@[i as int] != s@.subrange(0, p@.len() as int)[i as int]);
            return false;
        }
        i = i + 1;
    }
    assert(p@ =~= s@.subrange(0, p@.len() as int));
    true
}

/// Whether `s` ends with `p`.
pub fn has_suffix(s: &str, p: &str) -> (r: bool)
    ensures
        r == p@.is_suffix_of(s@),
{
    let n: usize = s.unicode_len();
    let k: usize = p.unicode_len();
    if k > n {
        return false;
    }
    same(s.substring_char(n - k, n), p)
}

/// `s` without the leading `p`, where it begins with it.
pub open spec fn without_prefix(s: Seq<char>, p: Seq<char>) -> Option<Seq<char>> {
    if p.is_prefix_of(s) {
        Some(s.skip(p.len() as int))
    } else {
        None
    }
}

/// The rest of `s` behind the prefix `p`; `None` where `s` does not begin with it.
pub fn strip_prefix(s: &str, p: &str) -> (r: Option<String>)
    ensures
        r.deep_view() == without_prefix(s@, p@),
{
    if has_prefix(s, p) {
        let n: usize = s.unicode_len();
        let k: usize = p.unicode_len();
        assert(s@.subrange(k as int, n as int) =~= s@.skip(p@.len() as int));
        Some(s.substring_char(k, n).to_owned())
    } else {
        None
    }
}

/// Whether `needle` stands somewhere in `hay`.
pub open spec fn occurs(hay: Seq<char>, needle: Seq<char>) -> bool {
    exists|i: int|
        0 <= i && i + needle.len() <= hay.len() && #[trigger] hay.subrange(i, i + needle.len())
            == needle
}

/// Whether `needle` stands somewhere in `hay`.
pub fn contains(hay: &str, needle: &str) -> (r: bool)
    ensures
        r == occurs(hay@, needle@),
{
    let x = chars_of(hay);
    let y = chars_of(needle);
    if y.len() > x.len() {
        return false;
    }
    let last: usize = x.len() - y.len();
    let mut i: usize = 0;
    while i <= last
        invariant
            x@ == hay@,
            y@ == needle@,
            last == x.len() - y.len(),
            i <= last + 1,
            forall|k: int|
                0 <= k < i ==> #[trigger] hay@.subrange(k, k + needle@.len()) != needle@,
        decreases last + 1 - i,
    {
        let mut j: usize = 0;
        while j < y.len() && x[i + j] == y[j]
            invariant
                x@ == hay@,
                y@ == needle@,
                i + y.len() <= x.len(),
                j <= y.len(),
                forall|k: int| 0 <= k < j ==> x@[i + k] == y@[k],
            decreases y.len() - j,
        {
            j = j + 1;
        }
        if j == y.len() {
            assert(hay@.subrange(i as int, i + needle@.len()) =~= needle@);
            return true;
        }
        assert(hay@.subrange(i as int, i + needle@.len())[j as int] != needle@[j as int]);
        if i == last {
            return false;
        }
        i = i + 1;
    }
    false
}

/// `s` from its first character that is not white space on.
pub open spec fn trim_start(s: Seq<char>) -> Seq<char>
    decreases s.len(),
{
    if s.len() > 0 && white_space(s[0]) {
        trim_start(s.skip(1))
    } else {
        s
    }
}

/// `s` up to its last character that is not white space.
pub open spec fn trim_end(s: Seq<char>) -> Seq<char>
    decreases s.len(),
{
    if s.len() > 0 && white_space(s.last()) {
        trim_end(s.drop_last())
    } else {
        s
    }
}

/// `s` without the white space at both ends.
pub open spec fn trimmed(s: Seq<char>) -> Seq<char> {
    trim_end(trim_start(s))
}

/// The first position from `from` on that holds no white space, or `to`.
fn skip_space(x: &Vec<char>, from: usize, to: usize) -> (r: usize)
    requires
        from <= to <= x.len(),
    ensures
        from <= r <= to,
        trim_start(x@.subrange(from as int, to as int)) == x@.subrange(r as int, to as int),
        r < to ==> !white_space(x@[r as int]),
{
    let mut i: usize = from;
    while i < to && is_white_space(x[i])
        invariant
            from <= i <= to <= x.len(),
            trim_start(x@.subrange(from as int, to as int)) == trim_start(
                x@.subrange(i as int, to as int),
            ),
        decreases to - i,
    {
        assert(x@.subrange(i as int, to as int).skip(1) =~= x@.subrange(i + 1, to as int));
        i = i + 1;
    }
    i
}

/// The text without the white space at both ends.
pub fn trim(s: &str) -> (r: &str)
    ensures
        r@ == trimmed(s@),
{
    let x = chars_of(s);
    let start: usize = skip_space(&x, 0, x.len());
    assert(x@.subrange(0, x.len() as int) =~= s@);
    let mut end: usize = x.len();
    while end > start && is_white_space(x[end - 1])
        invariant
            x@ == s@,
            start <= end <= x.len(),
            trim_start(s@) == s@.subrange(start as int, x.len() as int),
            trimmed(s@) == trim_end(s@.subrange(start as int, end as int)),
        decreases end,
    {
        assert(s@.subrange(start as int, end as int).drop_last() =~= s@.subrange(
            start as int,
            end - 1,
        ));
        end = end - 1;
    }
    s.substring_char(start, end)
}

/// Whether the text holds nothing but white space.
pub fn is_blank(s: &str) -> (r: bool)
    ensures
        r == (trimmed(s@).len() == 0),
{
    trim(s).is_empty()
}

/// How many characters stand before the first white space.
pub open spec fn word_len(s: Seq<char>) -> nat
    decreases s.len(),
{
    if s.len() > 0 && !white_space(s[0]) {
        1 + word_len(s.skip(1))
    } else {
        0
    }
}

/// The pieces of a text between white space.
pub open spec fn words(s: Seq<char>) -> Seq<Seq<char>>
    decreases s.len(),
    via words_decreases
{
    let t = trim_start(s);
    if t.len() == 0 {
        Seq::empty()
    } else {
        let n = word_len(t) as int;
        seq![t.take(n)] + words(t.skip(n))
    }
}

#[via_fn]
proof fn words_decreases(s: Seq<char>) {
    lemma_trim_start(s);
    lemma_word_len(trim_start(s));
}

proof fn lemma_trim_start(s: Seq<char>)
    ensures
        trim_start(s).len() <= s.len(),
        trim_start(s).len() > 0 ==> !white_space(trim_start(s)[0]),
    decreases s.len(),
{
    if s.len() > 0 && white_space(s[0]) {
        lemma_trim_start(s.skip(1));
    }
}

proof fn lemma_word_len(s: Seq<char>)
    ensures
        word_len(s) <= s.len(),
        s.len() > 0 && !white_space(s[0]) ==> word_len(s) > 0,
    decreases s.len(),
{
    if s.len() > 0 && !white_space(s[0]) {
        lemma_word_len(s.skip(1));
    }
}

/// The position behind the word that begins at `from`.
fn word_end(x: &Vec<char>, from: usize, to: usize) -> (r: usize)
    requires
        from <= to <= x.len(),
    ensures
        from <= r <= to,
        word_len(x@.subrange(from as int, to as int)) == r - from,
{
    let mut i: usize = from;
    while i < to && !is_white_space(x[i])
        invariant
            from <= i <= to <= x.len(),
            word_len(x@.subrange(from as int, to as int)) == (i - from) + word_len(
                x@.subrange(i as int, to as int),
            ),
        decreases to - i,
    {
        assert(x@.subrange(i as int, to as int).skip(1) =~= x@.subrange(i + 1, to as int));
        i = i + 1;
    }
    i
}

/// The first word of `x[from..to]` as a range, and an empty one where there is
/// none.
pub(crate) fn next_word(x: &Vec<char>, from: usize, to: usize) -> (r: (usize, usize))
    requires
        from <= to <= x.len(),
    ensures
        from <= r.0 <= r.1 <= to,
        r.0 == r.1 <==> words(x@.subrange(from as int, to as int)).len() == 0,
        r.0 < r.1 ==> words(x@.subrange(from as int, to as int)) == seq![
            x@.subrange(r.0 as int, r.1 as int),
        ] + words(x@.subrange(r.1 as int, to as int)),
{
    let ghost whole = x@.subrange(from as int, to as int);
    let start: usize = skip_space(x, from, to);
    let end: usize = word_end(x, start, to);
    proof {
        let t = x@.subrange(start as int, to as int);
        lemma_word_len(t);
        assert(trim_start(whole) == t);
        if start < end {
            assert(t.take(end - start) =~= x@.subrange(start as int, end as int));
            assert(t.skip(end - start) =~= x@.subrange(end as int, to as int));
        }
    }
    (start, end)
}

/// How many characters stand before the first line feed.
pub open spec fn line_len(s: Seq<char>) -> nat
    decreases s.len(),
{
    if s.len() > 0 && s[0] != '\n' {
        1 + line_len(s.skip(1))
    } else {
        0
    }
}

/// The lines of a text. A line feed ends a line; what follows the last one is a
/// line too unless it is empty.
pub open spec fn lines(s: Seq<char>) -> Seq<Seq<char>>
    decreases s.len(),
{
    let n = line_len(s) as int;
    if s.len() == 0 {
        Seq::empty()
    } else if n < s.len() {
        seq![s.take(n)] + lines(s.skip(n + 1))
    } else {
        seq![s]
    }
}

/// The position of the first line feed of `x` from `from` on, or its length.
pub(crate) fn line_end(x: &Vec<char>, from: usize) -> (r: usize)
    requires
        from <= x.len(),
    ensures
        from <= r <= x.len(),
        line_len(x@.skip(from as int)) == r - from,
{
    let mut i: usize = from;
    while i < x.len() && x[i] != '\n'
        invariant
            from <= i <= x.len(),
            line_len(x@.skip(from as int)) == (i - from) + line_len(x@.skip(i as int)),
        decreases x.len() - i,
    {
        assert(x@.skip(i as int).skip(1) =~= x@.skip(i + 1));
        i = i + 1;
    }
    i
}

/// The first word of the first line; empty where there is none.
pub open spec fn leading_word(s: Seq<char>) -> Seq<char> {
    if lines(s).len() > 0 && words(lines(s)[0]).len() > 0 {
        words(lines(s)[0])[0]
    } else {
        Seq::empty()
    }
}

/// The first word of the first line; empty where there is none.
pub fn first_word(s: &str) -> (r: &str)
    ensures
        r@ == leading_word(s@),
{
    let x = chars_of(s);
    let end: usize = line_end(&x, 0);
    let w = next_word(&x, 0, end);
    proof {
        assert(x@.skip(0) =~= s@);
        if s@.len() > 0 {
            assert(lines(s@)[0] =~= x@.subrange(0, end as int));
        }
    }
    let r = s.substring_char(w.0, w.1);
    assert(r@ =~= leading_word(s@));
    r
}

/// The digit for a number below ten.
pub open spec fn digit(d: nat) -> char {
    if d == 0 {
        '0'
    } else if d == 1 {
        '1'
    } else if d == 2 {
        '2'
    } else if d == 3 {
        '3'
    } else if d == 4 {
        '4'
    } else if d == 5 {
        '5'
    } else if d == 6 {
        '6'
    } else if d == 7 {
        '7'
    } else if d == 8 {
        '8'
    } else {
        '9'
    }
}

/// A number in decimal, without leading zeros.
pub open spec fn decimal(n: nat) -> Seq<char>
    decreases n,
{
    if n < 10 {
        seq![digit(n)]
    } else {
        decimal(n / 10).push(digit(n % 10))
    }
}

/// A number in decimal, filled up with zeros on the left to `width` digits.
pub open spec fn padded(n: nat, width: nat) -> Seq<char> {
    let d = decimal(n);
    if d.len() < width {
        Seq::new((width - d.len()) as nat, |i: int| '0') + d
    } else {
        d
    }
}

fn digit_of(d: u64) -> (r: char)
    requires
        d < 10,
    ensures
        r == digit(d as nat),
{
    match d {
        0 => '0',
        1 => '1',
        2 => '2',
        3 => '3',
        4 => '4',
        5 => '5',
        6 => '6',
        7 => '7',
        8 => '8',
        _ => '9',
    }
}

/// Appends a number in decimal.
pub fn push_decimal(s: &mut String, n: u64)
    ensures
        final(s)@ == old(s)@ + decimal(n as nat),
    decreases n,
{
    if n < 10 {
        s.push(digit_of(n));
        assert(old(s)@.push(digit(n as nat)) =~= old(s)@ + seq![digit(n as nat)]);
    } else {
        push_decimal(s, n / 10);
        let ghost mid = s@;
        s.push(digit_of(n % 10));
        assert(mid.push(digit((n % 10) as nat)) =~= old(s)@ + decimal((n / 10) as nat).push(
            digit((n % 10) as nat),
        ));
    }
}

/// A number in decimal.
pub fn decimal_text(n: u64) -> (r: String)
    ensures
        r@ == decimal(n as nat),
{
    let mut s = String::new();
    push_decimal(&mut s, n);
    assert(Seq::<char>::empty() + decimal(n as nat) =~= decimal(n as nat));
    s
}

proof fn lemma_decimal_len(n: nat)
    ensures
        n < 10 ==> decimal(n).len() == 1,
        10 <= n < 100 ==> decimal(n).len() == 2,
        100 <= n < 1000 ==> decimal(n).len() == 3,
        1000 <= n < 10000 ==> decimal(n).len() == 4,
        10000 <= n ==> decimal(n).len() > 4,
    decreases n,
{
    reveal_with_fuel(decimal, 5);
    if n >= 100000 {
        lemma_decimal_len(n / 10);
    }
}

/// A number that fits is written with exactly the digits that it is filled up
/// to.
pub proof fn padded_fills_up(n: nat)
    ensures
        n < 100 ==> padded(n, 2).len() == 2,
        n < 10000 ==> padded(n, 4).len() == 4,
{
    lemma_decimal_len(n);
}

/// Appends a number in decimal, filled up with a zero to two digits.
pub fn push_two_digits(s: &mut String, n: u64)
    ensures
        final(s)@ == old(s)@ + padded(n as nat, 2),
{
    let ghost before = s@;
    proof {
        lemma_decimal_len(n as nat);
    }
    if n < 10 {
        s.push('0');
    }
    push_decimal(s, n);
    assert(s@ =~= before + padded(n as nat, 2));
}

/// Appends a number in decimal, filled up with zeros to four digits.
pub fn push_four_digits(s: &mut String, n: u64)
    ensures
        final(s)@ == old(s)@ + padded(n as nat, 4),
{
    let ghost before = s@;
    proof {
        lemma_decimal_len(n as nat);
    }
    if n < 1000 {
        s.push('0');
    }
    if n < 100 {
        s.push('0');
    }
    if n < 10 {
        s.push('0');
    }
    push_decimal(s, n);
    assert(s@ =~= before + padded(n as nat, 4));
}

/// The parts one behind the other, with `sep` between two of them.
pub open spec fn joined(parts: Seq<Seq<char>>, sep: Seq<char>) -> Seq<char>
    decreases parts.len(),
{
    if parts.len() == 0 {
        Seq::empty()
    } else if parts.len() == 1 {
        parts[0]
    } else {
        joined(parts.drop_last(), sep) + sep + parts.last()
    }
}

/// The parts one behind the other, with `sep` between two of them.
pub fn join(parts: &Vec<String>, sep: &str) -> (r: String)
    ensures
        r@ == joined(parts.deep_view(), sep@),
{
    let mut r = String::new();
    let mut i: usize = 0;
    while i < parts.len()
        invariant
            i <= parts.len(),
            r@ == joined(parts.deep_view().take(i as int), sep@),
        decreases parts.len() - i,
    {
        let ghost next = parts.deep_view().take(i + 1);
        assert(next.drop_last() =~= parts.deep_view().take(i as int));
        assert(next.last() == parts@[i as int]@);
        if i > 0 {
            r.append(sep);
        }
        r.append(parts[i].as_str());
        if i == 0 {
            assert(r@ =~= next[0]);
        }
        i = i + 1;
    }
    assert(parts.deep_view().take(parts.len() as int) =~= parts.deep_view());
    r
}

/// A copy of an optional text.
pub fn copy_of(o: &Option<String>) -> (r: Option<String>)
    ensures
        r.deep_view() == o.deep_view(),
{
    match o {
        Some(s) => Some(s.clone()),
        None => None,
    }
}

/// An optional text, borrowed.
pub fn borrowed(o: &Option<String>) -> (r: Option<&str>)
    ensures
        r.deep_view() == o.deep_view(),
{
    match o {
        Some(s) => Some(s.as_str()),
        None => None,
    }
}

/// The text, or the empty one.
pub open spec fn or_empty(o: Option<Seq<char>>) -> Seq<char> {
    match o {
        Some(s) => s,
        None => Seq::empty(),
    }
}

/// A copy of the text, or the empty one.
pub fn text_or_empty(o: &Option<String>) -> (r: String)
    ensures
        r@ == or_empty(o.deep_view()),
{
    match o {
        Some(s) => s.clone(),
        None => String::new(),
    }
}

/// A text or an error, as values.
pub open spec fn both(r: Result<String, String>) -> Result<Seq<char>, Seq<char>> {
    match r {
        Ok(t) => Ok(t@),
        Err(e) => Err(e@),
    }
}

/// Whether one of the texts is `s`.
pub fn is_listed(list: &Vec<String>, s: &str) -> (r: bool)
    ensures
        r == list.deep_view().contains(s@),
{
    let mut i: usize = 0;
    while i < list.len()
        invariant
            i <= list.len(),
            forall|j: int| 0 <= j < i ==> list.deep_view()[j] != s@,
        decreases list.len() - i,
    {
        if same(list[i].as_str(), s) {
            assert(list.deep_view()[i as int] == s@);
            return true;
        }
        i = i + 1;
    }
    false
}

/// The text that bytes stand for when what is no UTF-8 in them is replaced.
pub uninterp spec fn lossy_utf8(bytes: Seq<u8>) -> Seq<char>;

/// Whether bytes that are UTF-8 are read as the text that they encode.
pub open spec fn utf8_is_read(bytes: Seq<u8>) -> bool {
    vstd::utf8::valid_utf8(bytes) ==> lossy_utf8(bytes) == vstd::utf8::decode_utf8(bytes)
}

/// `String::from_utf8_lossy`. Bytes that are UTF-8 give the text they encode;
/// what replaces other bytes is left to the name `lossy_utf8`.
#[verifier::external_body]
pub(crate) fn utf8_lossy(bytes: &[u8]) -> (r: String)
    ensures
        r@ == lossy_utf8(bytes@),
        vstd::utf8::valid_utf8(bytes@) ==> r@ == vstd::utf8::decode_utf8(bytes@),
{
    String::from_utf8_lossy(bytes).into_owned()
}

/// The text that UTF-16 code units stand for: a high surrogate followed by a low
/// one is one character, any other surrogate the replacement character.
pub open spec fn decode_utf16(units: Seq<u16>) -> Seq<char>
    decreases units.len(),
{
    if units.len() == 0 {
        Seq::empty()
    } else if units[0] < 0xd800 || 0xdfff < units[0] {
        seq![units[0] as char] + decode_utf16(units.skip(1))
    } else if units[0] < 0xdc00 && units.len() > 1 && 0xdc00 <= units[1] <= 0xdfff {
        seq![pair_scalar(units[0], units[1])] + decode_utf16(units.skip(2))
    } else {
        seq!['\u{fffd}'] + decode_utf16(units.skip(1))
    }
}

/// The character that a high and a low surrogate encode.
pub open spec fn pair_scalar(high: u16, low: u16) -> char {
    (0x10000 + (high - 0xd800) * 0x400 + (low - 0xdc00)) as char
}

/// `String::from_utf16_lossy` decodes UTF-16, with the replacement character
/// for each surrogate that has no partner.
#[verifier::external_body]
pub(crate) fn utf16_lossy(units: &Vec<u16>) -> (r: String)
    ensures
        r@ == decode_utf16(units@),
{
    String::from_utf16_lossy(units)
}

/// White space is what Unicode counts as such: these characters and no others.
pub proof fn white_space_is_listed(c: char)
    ensures
        white_space(c)
            <==> "\t\n\u{b}\u{c}\r \u{85}\u{a0}\u{1680}\u{2000}\u{2001}\u{2002}\u{2003}\u{2004}\u{2005}\u{2006}\u{2007}\u{2008}\u{2009}\u{200a}\u{2028}\u{2029}\u{202f}\u{205f}\u{3000}"@.contains(
        c),
{
    reveal_strlit(
        "\t\n\u{b}\u{c}\r \u{85}\u{a0}\u{1680}\u{2000}\u{2001}\u{2002}\u{2003}\u{2004}\u{2005}\u{2006}\u{2007}\u{2008}\u{2009}\u{200a}\u{2028}\u{2029}\u{202f}\u{205f}\u{3000}",
    );
    let all =
        "\t\n\u{b}\u{c}\r \u{85}\u{a0}\u{1680}\u{2000}\u{2001}\u{2002}\u{2003}\u{2004}\u{2005}\u{2006}\u{2007}\u{2008}\u{2009}\u{200a}\u{2028}\u{2029}\u{202f}\u{205f}\u{3000}"@;
    let n = c as u32;
    assert(all.len() == 25);
    if white_space(c) {
        let i: int = if n <= 0xd {
            n - 9
        } else if n == 0x20 {
            5
        } else if n == 0x85 {
            6
        } else if n == 0xa0 {
            7
        } else if n == 0x1680 {
            8
        } else if n <= 0x200a {
            n - 0x2000 + 9
        } else if n == 0x2028 {
            20
        } else if n == 0x2029 {
            21
        } else if n == 0x202f {
            22
        } else if n == 0x205f {
            23
        } else {
            24
        };
        assert(all[i] == c);
    }
}

/// Whether a text holds white space only.
pub open spec fn all_white(s: Seq<char>) -> bool {
    forall|i: int| 0 <= i < s.len() ==> white_space(#[trigger] s[i])
}

/// Whether a text holds no white space.
pub open spec fn no_white(s: Seq<char>) -> bool {
    forall|i: int| 0 <= i < s.len() ==> !white_space(#[trigger] s[i])
}

proof fn lemma_trim_start_cuts(s: Seq<char>) -> (n: int)
    ensures
        0 <= n <= s.len(),
        trim_start(s) == s.skip(n),
        all_white(s.take(n)),
        n < s.len() ==> !white_space(s[n]),
    decreases s.len(),
{
    if s.len() > 0 && white_space(s[0]) {
        let n = lemma_trim_start_cuts(s.skip(1));
        assert(s.skip(1).skip(n) =~= s.skip(n + 1));
        assert forall|i: int| 0 <= i < n + 1 implies white_space(#[trigger] s.take(n + 1)[i]) by {
            if i > 0 {
                assert(s.skip(1).take(n)[i - 1] == s[i]);
            }
        }
        n + 1
    } else {
        assert(s.skip(0) =~= s);
        0
    }
}

proof fn lemma_trim_end_cuts(s: Seq<char>) -> (n: int)
    ensures
        0 <= n <= s.len(),
        trim_end(s) == s.take(n),
        all_white(s.skip(n)),
        n > 0 ==> !white_space(s[n - 1]),
    decreases s.len(),
{
    if s.len() > 0 && white_space(s.last()) {
        let n = lemma_trim_end_cuts(s.drop_last());
        assert(s.drop_last().take(n) =~= s.take(n));
        assert forall|i: int| 0 <= i < s.len() - n implies white_space(
            #[trigger] s.skip(n)[i],
        ) by {
            if i < s.len() - n - 1 {
                assert(s.drop_last().skip(n)[i] == s.skip(n)[i]);
            }
        }
        n
    } else {
        assert(s.take(s.len() as int) =~= s);
        s.len() as int
    }
}

/// Trimming cuts white space off both ends, all of it and nothing else: what is
/// cut off is white space, and what is left neither begins nor ends with any.
pub proof fn trim_cuts_white_space_only(s: &str, r: &str)
    requires
        call_ensures(trim, (s,), r),
    ensures
        exists|a: Seq<char>, b: Seq<char>|
            #![trigger a + r@ + b]
            s@ == a + r@ + b && all_white(a) && all_white(b),
        r@.len() > 0 ==> !white_space(r@[0]) && !white_space(r@.last()),
{
    let n = lemma_trim_start_cuts(s@);
    let t = s@.skip(n);
    let m = lemma_trim_end_cuts(t);
    let a = s@.take(n);
    let b = t.skip(m);
    assert(s@ =~= a + r@ + b);
    if m > 0 {
        assert(r@[0] == s@[n]);
        assert(r@.last() == t[m - 1]);
    }
}

/// A text is blank exactly where it holds nothing but white space.
pub proof fn blank_is_all_white(s: Seq<char>)
    ensures
        trimmed(s).len() == 0 <==> all_white(s),
{
    let n = lemma_trim_start_cuts(s);
    let t = s.skip(n);
    let m = lemma_trim_end_cuts(t);
    if m == 0 {
        assert forall|i: int| 0 <= i < s.len() implies white_space(#[trigger] s[i]) by {
            if i < n {
                assert(s.take(n)[i] == s[i]);
            } else {
                assert(t.skip(0)[i - n] == s[i]);
            }
        }
    } else {
        assert(t[m - 1] == s[n + m - 1]);
    }
}

/// White space around a text makes no difference once it is trimmed.
pub proof fn trim_ignores_white_space_around(a: Seq<char>, s: Seq<char>, b: Seq<char>)
    requires
        all_white(a),
        all_white(b),
    ensures
        trimmed(a + s + b) == trimmed(s),
{
    let whole = a + s + b;
    let n = lemma_trim_start_cuts(s);
    let k = lemma_trim_start_cuts(whole);
    let t = s.skip(n);
    let m = lemma_trim_end_cuts(t);
    let u = whole.skip(k);
    let j = lemma_trim_end_cuts(u);
    if n == s.len() {
        assert forall|i: int| 0 <= i < whole.len() implies white_space(#[trigger] whole[i]) by {
            if i < a.len() {
                assert(a[i] == whole[i]);
            } else if i < a.len() + s.len() {
                assert(s.take(n)[i - a.len()] == whole[i]);
            } else {
                assert(b[i - a.len() - s.len()] == whole[i]);
            }
        }
        blank_is_all_white(whole);
        assert(trimmed(whole) =~= trimmed(s));
    } else {
        assert(!white_space(whole[a.len() + n])) by {
            assert(whole[a.len() + n] == s[n]);
        }
        if k < a.len() + n {
            if k < a.len() {
                assert(white_space(a[k]));
                assert(whole[k] == a[k]);
            } else {
                assert(s.take(n)[k - a.len()] == whole[k]);
            }
        } else if k > a.len() + n {
            assert(whole.take(k)[a.len() + n] == whole[a.len() + n]);
        }
        assert(k == a.len() + n);
        assert(u =~= t + b);
        if m == 0 {
            assert(t.skip(0)[0] == s[n]);
        }
        assert(t[m - 1] == u[m - 1]);
        if j > m {
            if j - 1 < t.len() {
                assert(t.skip(m)[j - 1 - m] == u[j - 1]);
            } else {
                assert(b[j - 1 - t.len()] == u[j - 1]);
            }
        } else if j < m {
            assert(u.skip(j)[m - 1 - j] == u[m - 1]);
        }
        assert(u.take(m) =~= t.take(m));
    }
}

proof fn lemma_word_len_of(w: Seq<char>, rest: Seq<char>)
    requires
        no_white(w),
        rest.len() == 0 || white_space(rest[0]),
    ensures
        word_len(w + rest) == w.len(),
    decreases w.len(),
{
    if w.len() == 0 {
        assert(w + rest =~= rest);
    } else {
        assert((w + rest)[0] == w[0]);
        assert((w + rest).skip(1) =~= w.skip(1) + rest);
        assert forall|i: int| 0 <= i < w.skip(1).len() implies !white_space(
            #[trigger] w.skip(1)[i],
        ) by {
            assert(w.skip(1)[i] == w[i + 1]);
        }
        lemma_word_len_of(w.skip(1), rest);
    }
}

/// The words of a text: leading white space makes no difference, and a stretch
/// without white space, up to white space or the end, is a word. A text of white
/// space only has none.
pub proof fn words_are_split_at_white_space(space: Seq<char>, w: Seq<char>, rest: Seq<char>)
    requires
        all_white(space),
        no_white(w),
        rest.len() == 0 || white_space(rest[0]),
    ensures
        words(space).len() == 0,
        w.len() > 0 ==> words(space + w + rest) == seq![w] + words(rest),
{
    let n = lemma_trim_start_cuts(space);
    if n < space.len() {
        assert(white_space(space[n]));
    }
    if w.len() > 0 {
        let whole = space + w + rest;
        let k = lemma_trim_start_cuts(whole);
        assert(whole[space.len() as int] == w[0]);
        if k < space.len() {
            assert(whole[k] == space[k]);
        } else if k > space.len() {
            assert(whole.take(k)[space.len() as int] == whole[space.len() as int]);
        }
        assert(whole.skip(k) =~= w + rest);
        lemma_word_len_of(w, rest);
        assert((w + rest).take(w.len() as int) =~= w);
        assert((w + rest).skip(w.len() as int) =~= rest);
    }
}

proof fn lemma_line_len_of(l: Seq<char>, rest: Seq<char>)
    requires
        forall|i: int| 0 <= i < l.len() ==> l[i] != '\n',
        rest.len() == 0 || rest[0] == '\n',
    ensures
        line_len(l + rest) == l.len(),
    decreases l.len(),
{
    if l.len() == 0 {
        assert(l + rest =~= rest);
    } else {
        assert((l + rest)[0] == l[0]);
        assert((l + rest).skip(1) =~= l.skip(1) + rest);
        lemma_line_len_of(l.skip(1), rest);
    }
}

/// The lines of a text are what stands between its line feeds. What follows the
/// last line feed is a line unless it is empty.
pub proof fn lines_are_split_at_line_feeds(l: Seq<char>, rest: Seq<char>)
    requires
        forall|i: int| 0 <= i < l.len() ==> l[i] != '\n',
    ensures
        lines(l + seq!['\n'] + rest) == seq![l] + lines(rest),
        l.len() > 0 ==> lines(l) == seq![l],
        l.len() == 0 ==> lines(l).len() == 0,
{
    let tail = seq!['\n'] + rest;
    assert(l + seq!['\n'] + rest =~= l + tail);
    lemma_line_len_of(l, tail);
    let whole = l + tail;
    assert(whole.take(l.len() as int) =~= l);
    assert(whole.skip(l.len() as int + 1) =~= rest);
    lemma_line_len_of(l, Seq::empty());
    assert(l + Seq::<char>::empty() =~= l);
}

/// The first word of the first line of a text that begins with a word is that
/// word, whatever follows behind white space.
pub proof fn leading_word_is_first(w: Seq<char>, rest: Seq<char>)
    requires
        w.len() > 0,
        no_white(w),
        rest.len() == 0 || white_space(rest[0]),
    ensures
        leading_word(w + rest) == w,
{
    let whole = w + rest;
    let none = Seq::<char>::empty();
    assert forall|i: int| 0 <= i < w.len() implies w[i] != '\n' by {
        assert(!white_space(w[i]));
    }
    let n = lemma_first_feed(rest);
    let head = rest.take(n);
    let line = w + head;
    assert forall|i: int| 0 <= i < line.len() implies line[i] != '\n' by {
        if i >= w.len() {
            assert(line[i] == rest[i - w.len()]);
        }
    }
    if n < rest.len() {
        lines_are_split_at_line_feeds(line, rest.skip(n + 1));
        assert(whole =~= line + seq!['\n'] + rest.skip(n + 1));
    } else {
        lines_are_split_at_line_feeds(line, none);
        assert(whole =~= line);
    }
    assert(lines(whole)[0] == line);
    if head.len() > 0 {
        assert(head[0] == rest[0]);
    }
    words_are_split_at_white_space(none, w, head);
    assert(none + w + head =~= line);
}

proof fn lemma_first_feed(s: Seq<char>) -> (n: int)
    ensures
        0 <= n <= s.len(),
        forall|i: int| 0 <= i < n ==> s[i] != '\n',
        n < s.len() ==> s[n] == '\n',
    decreases s.len(),
{
    if s.len() == 0 || s[0] == '\n' {
        0
    } else {
        let n = lemma_first_feed(s.skip(1));
        assert forall|i: int| 0 <= i < n + 1 implies s[i] != '\n' by {
            if i > 0 {
                assert(s.skip(1)[i - 1] == s[i]);
            }
        }
        n + 1
    }
}

/// The number that decimal digits stand for.
pub open spec fn number_of(digits: Seq<char>) -> int
    decreases digits.len(),
{
    if digits.len() == 0 {
        0
    } else {
        10 * number_of(digits.drop_last()) + (digits.last() as int - '0' as int)
    }
}

/// A number is written with decimal digits that stand for it, without a leading
/// zero unless it is zero.
pub proof fn decimal_stands_for_its_number(n: nat)
    ensures
        number_of(decimal(n)) == n,
        decimal(n).len() > 0,
        n > 0 ==> decimal(n)[0] != '0',
        n == 0 ==> decimal(n) == seq!['0'],
        forall|i: int| 0 <= i < decimal(n).len() ==> '0' <= #[trigger] decimal(n)[i] <= '9',
    decreases n,
{
    if n < 10 {
        reveal_with_fuel(number_of, 2);
        assert(decimal(n).drop_last() =~= Seq::<char>::empty());
    } else {
        decimal_stands_for_its_number(n / 10);
        let front = decimal(n / 10);
        assert(decimal(n).drop_last() =~= front);
        assert forall|i: int| 0 <= i < decimal(n).len() implies '0' <= #[trigger] decimal(n)[i]
            <= '9' by {
            if i < front.len() {
                assert(decimal(n)[i] == front[i]);
            }
        }
    }
}

proof fn lemma_number_of_padded(zeros: nat, d: Seq<char>)
    ensures
        number_of(Seq::new(zeros, |i: int| '0') + d) == number_of(d),
    decreases d.len(), zeros,
{
    let z = Seq::new(zeros, |i: int| '0');
    if d.len() > 0 {
        lemma_number_of_padded(zeros, d.drop_last());
        assert((z + d).drop_last() =~= z + d.drop_last());
    } else if zeros > 0 {
        lemma_number_of_padded((zeros - 1) as nat, d);
        assert((z + d).drop_last() =~= Seq::new((zeros - 1) as nat, |i: int| '0') + d);
    } else {
        assert(z + d =~= d);
    }
}

/// A number that is filled up with zeros stands for the same number, in as many
/// digits as asked for, or in as many as it needs.
pub proof fn padded_stands_for_its_number(n: nat, width: nat)
    ensures
        number_of(padded(n, width)) == n,
        padded(n, width).len() >= width,
        padded(n, width).len() > width ==> padded(n, width) == decimal(n),
{
    decimal_stands_for_its_number(n);
    let d = decimal(n);
    if d.len() < width {
        lemma_number_of_padded((width - d.len()) as nat, d);
    }
}

/// One part alone is joined to itself, none to nothing, and two lists of parts
/// are joined with one separator between what each of them is joined to.
pub proof fn joined_has_separators_between(a: Seq<Seq<char>>, b: Seq<Seq<char>>, sep: Seq<char>)
    ensures
        a.len() == 0 ==> joined(a, sep).len() == 0,
        a.len() == 1 ==> joined(a, sep) == a[0],
        a.len() > 0 && b.len() > 0 ==> joined(a + b, sep) == joined(a, sep) + sep + joined(b, sep),
    decreases b.len(),
{
    if a.len() > 0 && b.len() > 0 {
        assert((a + b).drop_last() =~= a + b.drop_last());
        if b.len() == 1 {
            assert(a + b.drop_last() =~= a);
        } else {
            joined_has_separators_between(a, b.drop_last(), sep);
            assert(joined(a, sep) + sep + joined(b.drop_last(), sep) + sep + b.last() =~= joined(
                a,
                sep,
            ) + sep + (joined(b.drop_last(), sep) + sep + b.last()));
        }
    }
}

/// A text occurs in another one exactly where that is the text with something,
/// or nothing, in front and behind.
pub proof fn occurs_in_between(hay: &str, needle: &str, r: bool)
    requires
        call_ensures(contains, (hay, needle), r),
    ensures
        r <==> exists|a: Seq<char>, b: Seq<char>|
            #![trigger a + needle@ + b]
            hay@ == a + needle@ + b,
{
    let n = needle@;
    if r {
        let i = choose|i: int|
            0 <= i && i + n.len() <= hay@.len() && #[trigger] hay@.subrange(i, i + n.len()) == n;
        assert(hay@ =~= hay@.take(i) + n + hay@.skip(i + n.len()));
    }
    if exists|a: Seq<char>, b: Seq<char>| #![trigger a + n + b] hay@ == a + n + b {
        let (a, b) = choose|a: Seq<char>, b: Seq<char>| #![trigger a + n + b] hay@ == a + n + b;
        let at = a.len() as int;
        assert(hay@.subrange(at, at + n.len()) =~= n);
    }
}

/// Stripping a prefix undoes putting it in front, and nothing else is stripped.
pub proof fn strip_undoes_prefix(s: &str, p: &str, r: Option<String>)
    requires
        call_ensures(strip_prefix, (s, p), r),
    ensures
        r matches Some(rest) ==> s@ == p@ + rest@,
        r is None ==> forall|rest: Seq<char>| s@ != #[trigger] (p@ + rest),
{
    if let Some(rest) = r {
        assert(s@ =~= p@ + rest@);
    } else {
        assert forall|rest: Seq<char>| s@ != #[trigger] (p@ + rest) by {
            if s@ == p@ + rest {
                assert(p@ =~= s@.subrange(0, p@.len() as int));
            }
        }
    }
}

/// The first word of the first line is found behind white space too, as long as
/// the line does not end before it; a first line of white space only has none.
pub proof fn leading_word_is_on_the_first_line(
    space: Seq<char>,
    w: Seq<char>,
    rest: Seq<char>,
    more: Seq<char>,
)
    requires
        all_white(space),
        forall|i: int| 0 <= i < space.len() ==> space[i] != '\n',
        w.len() > 0,
        no_white(w),
        rest.len() == 0 || white_space(rest[0]),
    ensures
        leading_word(space + w + rest) == w,
        leading_word(space + seq!['\n'] + more).len() == 0,
        leading_word(space).len() == 0,
{
    let none = Seq::<char>::empty();
    let n = lemma_first_feed(rest);
    let head = rest.take(n);
    let line = space + w + head;
    let whole = space + w + rest;
    assert forall|i: int| 0 <= i < line.len() implies line[i] != '\n' by {
        if i < space.len() {
            assert(line[i] == space[i]);
        } else if i < space.len() + w.len() {
            assert(line[i] == w[i - space.len()]);
            assert(!white_space(w[i - space.len()]));
        } else {
            assert(line[i] == rest[i - space.len() - w.len()]);
        }
    }
    if n < rest.len() {
        lines_are_split_at_line_feeds(line, rest.skip(n + 1));
        assert(whole =~= line + seq!['\n'] + rest.skip(n + 1));
    } else {
        lines_are_split_at_line_feeds(line, none);
        assert(whole =~= line);
    }
    assert(lines(whole)[0] == line);
    if head.len() > 0 {
        assert(head[0] == rest[0]);
    }
    words_are_split_at_white_space(space, w, head);
    lines_are_split_at_line_feeds(space, more);
    if space.len() > 0 {
        assert(lines(space)[0] == space);
    }
}

} // verus!
