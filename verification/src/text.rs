//! Text: comparing, trimming, splitting, parsing and formatting, stated over sequences of
//! characters.

use vstd::prelude::*;
use vstd::utf8::{char_is_scalar, encode_utf8};

verus! {

/// `String::push` appends one character.
pub assume_specification[ String::push ](s: &mut String, c: char)
    ensures
        final(s)@ == old(s)@.push(c),
;

/// The characters of a text, one by one.
pub fn chars_of(s: &str) -> (r: Vec<char>)
    ensures
        r@ == s@,
{
    let mut out: Vec<char> = Vec::new();
    for c in it: s.chars()
        invariant
            out@ == it.seq().take(it.index() as int),
            it.seq() == s@,
    {
        out.push(c);
    }
    out
}

/// The text made of the given characters.
pub fn text_of(chars: &Vec<char>) -> (r: String)
    ensures
        r@ == chars@,
{
    let mut out: String = String::new();
    let n: usize = chars.len();
    let mut i: usize = 0;
    while i < n
        invariant
            n == chars@.len(),
            i <= n,
            out@ == chars@.take(i as int),
        decreases n - i,
    {
        out.push(chars[i]);
        assert(chars@.take(i as int + 1) =~= chars@.take(i as int).push(chars@[i as int]));
        i = i + 1;
    }
    assert(chars@.take(n as int) =~= chars@);
    out
}

/// The contents of a sequence of strings.
pub open spec fn texts(v: Seq<String>) -> Seq<Seq<char>> {
    v.map_values(|s: String| s@)
}

/// A text that may be missing, as characters.
pub open spec fn maybe_text(t: Option<String>) -> Option<Seq<char>> {
    match t {
        Some(s) => Some(s@),
        None => None,
    }
}

/// The given text as a string of its own.
pub fn owned(s: &str) -> (r: String)
    ensures
        r@ == s@,
{
    s.to_string()
}

// ── Whitespace ─────────────────────────────────────────────────────

/// Whether a character has Unicode's `White_Space` property.
pub open spec fn is_white(c: char) -> bool {
    let u = c as u32;
    ||| 0x09 <= u <= 0x0d
    ||| u == 0x20
    ||| u == 0x85
    ||| u == 0xa0
    ||| u == 0x1680
    ||| 0x2000 <= u <= 0x200a
    ||| u == 0x2028
    ||| u == 0x2029
    ||| u == 0x202f
    ||| u == 0x205f
    ||| u == 0x3000
}

fn white(c: char) -> (r: bool)
    ensures
        r == is_white(c),
{
    let u: u32 = c as u32;
    (0x09 <= u && u <= 0x0d) || u == 0x20 || u == 0x85 || u == 0xa0 || u == 0x1680 || (0x2000 <= u
        && u <= 0x200a) || u == 0x2028 || u == 0x2029 || u == 0x202f || u == 0x205f || u == 0x3000
}

/// A text without the whitespace at its start.
pub open spec fn trim_start(s: Seq<char>) -> Seq<char>
    decreases s.len(),
{
    if s.len() > 0 && is_white(s[0]) {
        trim_start(s.drop_first())
    } else {
        s
    }
}

/// A text without the whitespace at its end.
pub open spec fn trim_end(s: Seq<char>) -> Seq<char>
    decreases s.len(),
{
    if s.len() > 0 && is_white(s.last()) {
        trim_end(s.drop_last())
    } else {
        s
    }
}

/// A text without the whitespace at either end.
pub open spec fn trimmed(s: Seq<char>) -> Seq<char> {
    trim_end(trim_start(s))
}

/// Removes the whitespace at both ends of a text.
pub fn trim(s: &str) -> (r: String)
    ensures
        r@ == trimmed(s@),
{
    let chars: Vec<char> = chars_of(s);
    let n: usize = chars.len();
    let mut from: usize = 0;
    assert(chars@.skip(0) =~= chars@);
    while from < n && white(chars[from])
        invariant
            n == chars@.len(),
            from <= n,
            trim_start(chars@) == trim_start(chars@.skip(from as int)),
        decreases n - from,
    {
        assert(chars@.skip(from as int).drop_first() =~= chars@.skip(from as int + 1));
        from = from + 1;
    }
    assert(trim_start(chars@) == chars@.skip(from as int));
    let mut to: usize = n;
    assert(chars@.subrange(from as int, n as int) =~= chars@.skip(from as int));
    while from < to && white(chars[to - 1])
        invariant
            n == chars@.len(),
            from <= to <= n,
            trim_end(chars@.skip(from as int)) == trim_end(chars@.subrange(from as int, to as int)),
        decreases to - from,
    {
        assert(chars@.subrange(from as int, to as int).drop_last() =~= chars@.subrange(
            from as int,
            to - 1,
        ));
        to = to - 1;
    }
    owned(s.substring_char(from, to))
}

/// The maximal runs of characters that are not whitespace, in order. `word` is the run that ends
/// just before `s`.
pub open spec fn words_after(word: Seq<char>, s: Seq<char>) -> Seq<Seq<char>>
    decreases s.len(),
{
    if s.len() == 0 {
        if word.len() == 0 {
            seq![]
        } else {
            seq![word]
        }
    } else if is_white(s[0]) {
        if word.len() == 0 {
            words_after(word, s.drop_first())
        } else {
            seq![word] + words_after(seq![], s.drop_first())
        }
    } else {
        words_after(word.push(s[0]), s.drop_first())
    }
}

/// The words of a text: its maximal runs of characters that are not whitespace, in order.
pub open spec fn words(s: Seq<char>) -> Seq<Seq<char>> {
    words_after(seq![], s)
}

/// Splits a text at its whitespace.
pub fn split_words(s: &str) -> (r: Vec<String>)
    ensures
        texts(r@) == words(s@),
{
    let chars: Vec<char> = chars_of(s);
    let n: usize = chars.len();
    let mut out: Vec<String> = Vec::new();
    let mut word: Vec<char> = Vec::new();
    let mut i: usize = 0;
    assert(chars@.skip(0) =~= chars@);
    assert(texts(out@) + words_after(word@, chars@.skip(0)) =~= words_after(word@, chars@.skip(0)));
    while i < n
        invariant
            n == chars@.len(),
            i <= n,
            texts(out@) + words_after(word@, chars@.skip(i as int)) == words(chars@),
        decreases n - i,
    {
        let ghost rest = chars@.skip(i as int);
        let ghost before = out@;
        assert(rest.drop_first() =~= chars@.skip(i as int + 1));
        assert(rest[0] == chars@[i as int]);
        if white(chars[i]) {
            if word.len() > 0 {
                let ghost last = word@;
                let w: String = text_of(&word);
                out.push(w);
                word = Vec::new();
                proof {
                    assert(texts(out@) =~= texts(before).push(last));
                    assert(texts(before).push(last) + words_after(seq![], rest.drop_first())
                        =~= texts(before) + (seq![last] + words_after(seq![], rest.drop_first())));
                    assert(word@ =~= seq![]);
                }
            }
        } else {
            word.push(chars[i]);
        }
        i = i + 1;
    }
    let ghost before = out@;
    assert(chars@.skip(n as int) =~= seq![]);
    if word.len() > 0 {
        let w: String = text_of(&word);
        out.push(w);
        assert(texts(out@) =~= texts(before) + seq![word@]);
    } else {
        assert(texts(out@) =~= texts(before) + Seq::<Seq<char>>::empty());
    }
    out
}



// ── Numbers ────────────────────────────────────────────────────────

/// Whether a character is one of `0` to `9`.
pub open spec fn is_digit(c: char) -> bool {
    '0' <= c <= '9'
}

/// The number that decimal digits stand for, most significant first.
pub open spec fn digits_value(s: Seq<char>) -> nat
    decreases s.len(),
{
    if s.len() == 0 {
        0
    } else {
        digits_value(s.drop_last()) * 10 + (s.last() as nat - '0' as nat) as nat
    }
}

/// The part of a number's text behind an optional `+`.
pub open spec fn unsigned_part(s: Seq<char>) -> Seq<char> {
    if s.len() > 1 && s[0] == '+' {
        s.drop_first()
    } else {
        s
    }
}

/// The unsigned number that a text spells, if it spells one and it is at most `max`: decimal
/// digits, at least one, behind an optional `+`.
pub open spec fn parsed_number(s: Seq<char>, max: nat) -> Option<nat> {
    let digits = unsigned_part(s);
    if digits.len() > 0 && (forall|i: int| 0 <= i < digits.len() ==> is_digit(#[trigger] digits[i]))
        && digits_value(digits) <= max {
        Some(digits_value(digits))
    } else {
        None
    }
}

proof fn lemma_digits_prefix(s: Seq<char>, i: int)
    requires
        0 <= i <= s.len(),
        forall|k: int| 0 <= k < s.len() ==> is_digit(#[trigger] s[k]),
    ensures
        digits_value(s.take(i)) <= digits_value(s),
    decreases s.len() - i,
{
    if i == s.len() {
        assert(s.take(i) =~= s);
    } else {
        lemma_digits_prefix(s, i + 1);
        assert(s.take(i + 1).drop_last() =~= s.take(i));
    }
}

/// Reads an unsigned number that is at most `max`.
pub fn parse_number(s: &str, max: u64) -> (r: Option<u64>)
    ensures
        r is Some <==> parsed_number(s@, max as nat) is Some,
        r matches Some(v) ==> parsed_number(s@, max as nat) == Some(v as nat),
{
    let chars: Vec<char> = chars_of(s);
    let n: usize = chars.len();
    let start: usize = if n > 1 && chars[0] == '+' { 1 } else { 0 };
    let ghost digits = unsigned_part(s@);
    assert(digits =~= chars@.skip(start as int));
    if start == n {
        return None;
    }
    let mut value: u128 = 0;
    let mut i: usize = start;
    let mut all_digits: bool = true;
    let mut fits: bool = true;
    assert(digits.take(0) =~= seq![]);
    while i < n
        invariant
            n == chars@.len(),
            start <= i <= n,
            digits == chars@.skip(start as int),
            digits.len() == n - start,
            all_digits <==> forall|k: int|
                0 <= k < i - start ==> is_digit(#[trigger] digits[k]),
            all_digits && fits ==> value == digits_value(digits.take(i - start)),
            all_digits && fits ==> value <= max,
            all_digits && !fits ==> exists|k: int|
                0 <= k <= i - start && digits_value(#[trigger] digits.take(k)) > max,
        decreases n - i,
    {
        let c: char = chars[i];
        assert(digits[i - start] == c);
        let ghost k = i - start;
        assert(digits.take(k + 1).drop_last() =~= digits.take(k));
        if '0' <= c && c <= '9' {
            if all_digits && fits {
                value = value * 10 + (c as u32 - '0' as u32) as u128;
                assert(digits_value(digits.take(k + 1)) == value);
                if value > max as u128 {
                    fits = false;
                }
            }
        } else {
            all_digits = false;
        }
        i = i + 1;
    }
    assert(digits.take(digits.len() as int) =~= digits);
    if all_digits && fits {
        Some(value as u64)
    } else {
        proof {
            if all_digits {
                let k = choose|k: int|
                    0 <= k <= digits.len() && digits_value(#[trigger] digits.take(k)) > max;
                lemma_digits_prefix(digits, k);
            }
        }
        None
    }
}

/// The digit of a value below 16: `0` to `9`, then `a` to `f`.
pub open spec fn digit_char(d: nat) -> char {
    if d < 10 {
        ('0' as u32 + d) as char
    } else {
        ('a' as u32 + (d - 10)) as char
    }
}

/// A number written in a base, most significant digit first, without leading zeros.
pub open spec fn in_base(n: nat, base: nat) -> Seq<char>
    decreases n,
{
    if base < 2 || n < base {
        seq![digit_char(n)]
    } else {
        proof {
            assert(n / base < n) by (nonlinear_arith)
                requires
                    n >= base,
                    base >= 2,
            ;
        }
        in_base(n / base, base).push(digit_char(n % base))
    }
}

/// A number in decimal.
pub open spec fn decimal_text(n: nat) -> Seq<char> {
    in_base(n, 10)
}

fn digit(d: u8) -> (r: char)
    requires
        d < 16,
    ensures
        r == digit_char(d as nat),
{
    if d < 10 {
        (48 + d) as char
    } else {
        (97 + (d - 10)) as char
    }
}

/// Writes a number in a base from 2 to 16.
pub fn write_in_base(n: u64, base: u64) -> (r: String)
    requires
        2 <= base <= 16,
    ensures
        r@ == in_base(n as nat, base as nat),
    decreases n,
{
    if n < base {
        let mut s: String = String::new();
        s.push(digit(n as u8));
        assert(s@ =~= seq![digit_char(n as nat)]);
        s
    } else {
        assert(n / base < n) by (nonlinear_arith)
            requires
                n >= base,
                base >= 2,
        ;
        let mut s: String = write_in_base(n / base, base);
        s.push(digit((n % base) as u8));
        s
    }
}

/// Writes a number in decimal.
pub fn decimal(n: u64) -> (r: String)
    ensures
        r@ == decimal_text(n as nat),
{
    write_in_base(n, 10)
}

/// A signed number in decimal, with a `-` in front of a negative one.
pub open spec fn signed_text(n: int) -> Seq<char> {
    if n < 0 {
        seq!['-'] + decimal_text((-n) as nat)
    } else {
        decimal_text(n as nat)
    }
}

/// Writes a signed number in decimal.
pub fn signed_decimal(n: i64) -> (r: String)
    ensures
        r@ == signed_text(n as int),
{
    if n < 0 {
        let magnitude: u64 = (-(n as i128)) as u64;
        let mut s: String = String::new();
        s.push('-');
        s.append(decimal(magnitude).as_str());
        assert(s@ =~= seq!['-'] + decimal_text((-n) as nat));
        s
    } else {
        decimal(n as u64)
    }
}

// ── Padding and joining ────────────────────────────────────────────

/// `n` times the same character.
pub open spec fn repeated(c: char, n: int) -> Seq<char> {
    Seq::new(
        if n > 0 {
            n as nat
        } else {
            0
        },
        |i: int| c,
    )
}

/// A text filled up with spaces at its end to at least `width` characters.
pub open spec fn left_aligned(s: Seq<char>, width: nat) -> Seq<char> {
    s + repeated(' ', width - s.len())
}

/// A text filled up with a character at its start to at least `width` characters.
pub open spec fn right_aligned(s: Seq<char>, width: nat, fill: char) -> Seq<char> {
    repeated(fill, width - s.len()) + s
}

/// Writes a character `n` times.
pub fn repeat_char(c: char, n: usize) -> (r: String)
    ensures
        r@ == repeated(c, n as int),
{
    let mut out: String = String::new();
    let mut i: usize = 0;
    while i < n
        invariant
            i <= n,
            out@ == repeated(c, i as int),
        decreases n - i,
    {
        out.push(c);
        i = i + 1;
        assert(out@ =~= repeated(c, i as int));
    }
    out
}

/// Fills a text up with spaces at its end.
pub fn align_left(s: &str, width: usize) -> (r: String)
    ensures
        r@ == left_aligned(s@, width as nat),
{
    let n: usize = s.unicode_len();
    let mut out: String = owned(s);
    if n < width {
        out.append(repeat_char(' ', width - n).as_str());
    } else {
        assert(s@ =~= left_aligned(s@, width as nat));
    }
    out
}

/// Fills a text up with a character at its start.
pub fn align_right(s: &str, width: usize, fill: char) -> (r: String)
    ensures
        r@ == right_aligned(s@, width as nat, fill),
{
    let n: usize = s.unicode_len();
    if n < width {
        let mut out: String = repeat_char(fill, width - n);
        out.append(s);
        out
    } else {
        assert(s@ =~= right_aligned(s@, width as nat, fill));
        owned(s)
    }
}

/// Texts one behind the other, with a separator between each two.
pub open spec fn joined(parts: Seq<Seq<char>>, sep: Seq<char>) -> Seq<char>
    decreases parts.len(),
{
    if parts.len() == 0 {
        seq![]
    } else if parts.len() == 1 {
        parts[0]
    } else {
        joined(parts.drop_last(), sep) + sep + parts.last()
    }
}

/// Joins texts with a separator.
pub fn join(parts: &Vec<String>, sep: &str) -> (r: String)
    ensures
        r@ == joined(texts(parts@), sep@),
{
    let n: usize = parts.len();
    let mut out: String = String::new();
    let mut i: usize = 0;
    while i < n
        invariant
            n == parts@.len(),
            i <= n,
            out@ == joined(texts(parts@).take(i as int), sep@),
        decreases n - i,
    {
        let ghost before = texts(parts@).take(i as int);
        let ghost after = texts(parts@).take(i as int + 1);
        assert(after.drop_last() =~= before);
        assert(after.last() == parts@[i as int]@);
        if i > 0 {
            out.append(sep);
            out.append(parts[i].as_str());
        } else {
            out.append(parts[i].as_str());
            assert(out@ =~= after[0]);
        }
        i = i + 1;
    }
    assert(texts(parts@).take(n as int) =~= texts(parts@));
    out
}



// ── Parts of a text ────────────────────────────────────────────────

/// Whether `p` stands in `s` from position `i` on.
pub open spec fn occurs_at(s: Seq<char>, p: Seq<char>, i: int) -> bool {
    0 <= i && i + p.len() <= s.len() && s.subrange(i, i + p.len()) == p
}

/// Whether a text starts with `p`.
pub open spec fn has_prefix(s: Seq<char>, p: Seq<char>) -> bool {
    occurs_at(s, p, 0)
}

/// Whether a text ends with `p`.
pub open spec fn has_suffix(s: Seq<char>, p: Seq<char>) -> bool {
    occurs_at(s, p, s.len() - p.len())
}

/// Whether `p` stands anywhere in a text.
pub open spec fn has_part(s: Seq<char>, p: Seq<char>) -> bool {
    exists|i: int| occurs_at(s, p, i)
}

fn matches_at(s: &Vec<char>, p: &Vec<char>, at: usize) -> (r: bool)
    ensures
        r == occurs_at(s@, p@, at as int),
{
    let n: usize = s.len();
    let m: usize = p.len();
    if m > n || at > n - m {
        return false;
    }
    let mut i: usize = 0;
    while i < m
        invariant
            n == s@.len(),
            m == p@.len(),
            i <= m <= n,
            at <= n - m,
            forall|k: int| 0 <= k < i ==> s@[at + k] == #[trigger] p@[k],
        decreases m - i,
    {
        if s[at + i] != p[i] {
            assert(s@.subrange(at as int, at + m)[i as int] != p@[i as int]);
            return false;
        }
        i = i + 1;
    }
    assert(s@.subrange(at as int, at + m) =~= p@);
    true
}

/// Tests whether two texts are the same.
pub fn str_eq(a: &str, b: &str) -> (r: bool)
    ensures
        r == (a@ == b@),
{
    let left: Vec<char> = chars_of(a);
    let right: Vec<char> = chars_of(b);
    assert(a@.subrange(0, a@.len() as int) =~= a@);
    left.len() == right.len() && matches_at(&left, &right, 0)
}

/// Whether a text is among others.
pub fn is_among(list: &[String], name: &str) -> (r: bool)
    ensures
        r == texts(list@).contains(name@),
{
    let n: usize = list.len();
    let mut i: usize = 0;
    while i < n
        invariant
            n == list@.len(),
            i <= n,
            forall|k: int| 0 <= k < i ==> #[trigger] texts(list@)[k] != name@,
        decreases n - i,
    {
        if str_eq(list[i].as_str(), name) {
            assert(texts(list@)[i as int] == name@);
            return true;
        }
        assert(texts(list@)[i as int] != name@);
        i = i + 1;
    }
    false
}

/// Tests whether a text starts with `p`.
pub fn starts_with(s: &str, p: &str) -> (r: bool)
    ensures
        r == has_prefix(s@, p@),
{
    matches_at(&chars_of(s), &chars_of(p), 0)
}

/// Tests whether a text ends with `p`.
pub fn ends_with(s: &str, p: &str) -> (r: bool)
    ensures
        r == has_suffix(s@, p@),
{
    let a: Vec<char> = chars_of(s);
    let b: Vec<char> = chars_of(p);
    if b.len() > a.len() {
        return false;
    }
    let at: usize = a.len() - b.len();
    matches_at(&a, &b, at)
}

/// Tests whether `p` stands anywhere in a text.
pub fn contains(s: &str, p: &str) -> (r: bool)
    ensures
        r == has_part(s@, p@),
{
    let a: Vec<char> = chars_of(s);
    let b: Vec<char> = chars_of(p);
    let n: usize = a.len();
    let mut at: usize = 0;
    loop
        invariant
            n == a@.len(),
            a@ == s@,
            b@ == p@,
            at <= n,
            forall|k: int| 0 <= k < at ==> !occurs_at(s@, p@, k),
        decreases n - at,
    {
        if matches_at(&a, &b, at) {
            return true;
        }
        if at == n {
            return false;
        }
        at = at + 1;
    }
}

/// The part of a text behind a prefix, if it has that prefix.
pub open spec fn after_prefix(s: Seq<char>, p: Seq<char>) -> Option<Seq<char>> {
    if has_prefix(s, p) {
        Some(s.skip(p.len() as int))
    } else {
        None
    }
}

/// Takes a prefix off a text.
pub fn strip_prefix(s: &str, p: &str) -> (r: Option<String>)
    ensures
        r is Some <==> after_prefix(s@, p@) is Some,
        r matches Some(t) ==> after_prefix(s@, p@) == Some(t@),
{
    if starts_with(s, p) {
        let n: usize = s.unicode_len();
        let m: usize = p.unicode_len();
        let t: String = owned(s.substring_char(m, n));
        assert(t@ =~= s@.skip(p@.len() as int));
        Some(t)
    } else {
        None
    }
}

/// A text without the given character at its end, however often it stands there.
pub open spec fn without_trailing(s: Seq<char>, c: char) -> Seq<char>
    decreases s.len(),
{
    if s.len() > 0 && s.last() == c {
        without_trailing(s.drop_last(), c)
    } else {
        s
    }
}

/// Removes a character from the end of a text, however often it stands there.
pub fn trim_end_char(s: &str, c: char) -> (r: String)
    ensures
        r@ == without_trailing(s@, c),
{
    let chars: Vec<char> = chars_of(s);
    let mut to: usize = chars.len();
    assert(chars@.take(to as int) =~= chars@);
    while to > 0 && chars[to - 1] == c
        invariant
            to <= chars@.len(),
            without_trailing(chars@, c) == without_trailing(chars@.take(to as int), c),
        decreases to,
    {
        assert(chars@.take(to as int).drop_last() =~= chars@.take(to - 1));
        to = to - 1;
    }
    let r: String = owned(s.substring_char(0, to));
    assert(r@ =~= chars@.take(to as int));
    r
}

/// The part of a text behind the last occurrence of a character; the whole text where it does not
/// occur.
pub open spec fn after_last(s: Seq<char>, c: char) -> Seq<char>
    decreases s.len(),
{
    if s.len() == 0 || s.last() == c {
        seq![]
    } else {
        after_last(s.drop_last(), c).push(s.last())
    }
}

/// Where the part behind the last occurrence of a character starts.
pub fn last_part_start(s: &Vec<char>, c: char) -> (r: usize)
    ensures
        r <= s@.len(),
        r > 0 ==> s@[r - 1] == c,
        forall|k: int| r <= k < s@.len() ==> s@[k] != c,
        s@.skip(r as int) == after_last(s@, c),
{
    let mut from: usize = s.len();
    while from > 0 && s[from - 1] != c
        invariant
            from <= s@.len(),
            forall|k: int| from <= k < s@.len() ==> s@[k] != c,
        decreases from,
    {
        from = from - 1;
    }
    proof {
        lemma_after_last(s@, c, from as int);
    }
    from
}

proof fn lemma_after_last(s: Seq<char>, c: char, from: int)
    requires
        0 <= from <= s.len(),
        from > 0 ==> s[from - 1] == c,
        forall|k: int| from <= k < s.len() ==> s[k] != c,
    ensures
        s.skip(from) == after_last(s, c),
    decreases s.len(),
{
    if from == s.len() {
        assert(s.skip(from) =~= seq![]);
    } else {
        lemma_after_last(s.drop_last(), c, from);
        assert(s.skip(from) =~= s.drop_last().skip(from).push(s.last()));
    }
}

/// Takes the part of a text behind the last occurrence of a character.
pub fn last_part(s: &str, c: char) -> (r: String)
    ensures
        r@ == after_last(s@, c),
{
    let chars: Vec<char> = chars_of(s);
    let from: usize = last_part_start(&chars, c);
    let r: String = owned(s.substring_char(from, chars.len()));
    assert(r@ =~= chars@.skip(from as int));
    r
}

// ── Bytes ──────────────────────────────────────────────────────────

/// How many bytes a character takes in UTF-8.
pub open spec fn char_width(c: char) -> nat {
    let u = c as u32;
    if u < 0x80 {
        1
    } else if u < 0x800 {
        2
    } else if u < 0x1_0000 {
        3
    } else {
        4
    }
}

/// How many bytes a text takes in UTF-8.
pub open spec fn byte_len(s: Seq<char>) -> nat
    decreases s.len(),
{
    if s.len() == 0 {
        0
    } else {
        byte_len(s.drop_last()) + char_width(s.last())
    }
}

/// The bytes of a text of ASCII characters are as many as its characters.
pub proof fn ascii_is_one_byte_each(s: Seq<char>)
    ensures
        byte_len(s) >= s.len(),
        (forall|i: int| 0 <= i < s.len() ==> char_width(#[trigger] s[i]) == 1) ==> byte_len(s) == s.len(),
    decreases s.len(),
{
    if s.len() > 0 {
        ascii_is_one_byte_each(s.drop_last());
        assert(forall|i: int| 0 <= i < s.len() - 1 ==> #[trigger] s.drop_last()[i] == s[i]);
    }
}

fn utf8_width(c: char) -> (r: usize)
    ensures
        r == char_width(c),
{
    let u: u32 = c as u32;
    if u < 0x80 {
        1
    } else if u < 0x800 {
        2
    } else if u < 0x1_0000 {
        3
    } else {
        4
    }
}

/// Counts the bytes that characters take in UTF-8.
pub fn utf8_len(s: &Vec<char>) -> (r: usize)
    requires
        s@.len() <= usize::MAX / 4,
    ensures
        r == byte_len(s@),
{
    let n: usize = s.len();
    let mut total: usize = 0;
    let mut i: usize = 0;
    assert(s@.take(0) =~= seq![]);
    while i < n
        invariant
            n == s@.len(),
            n <= usize::MAX / 4,
            i <= n,
            total == byte_len(s@.take(i as int)),
            total <= 4 * i,
        decreases n - i,
    {
        assert(s@.take(i as int + 1).drop_last() =~= s@.take(i as int));
        total = total + utf8_width(s[i]);
        i = i + 1;
    }
    assert(s@.take(n as int) =~= s@);
    total
}

/// How many characters of a text take the given number of bytes, if a character ends there.
pub open spec fn chars_in(s: Seq<char>, bytes: nat) -> Option<int>
    decreases s.len(),
{
    if byte_len(s) == bytes {
        Some(s.len() as int)
    } else if s.len() == 0 {
        None
    } else {
        chars_in(s.drop_last(), bytes)
    }
}

/// The first bytes of a text, or all of it where it has no more of them; none where a character
/// lies across the end of these bytes.
pub open spec fn cut_at(s: Seq<char>, bytes: nat) -> Option<Seq<char>> {
    if byte_len(s) <= bytes {
        Some(s)
    } else {
        match chars_in(s, bytes) {
            Some(k) => Some(s.take(k)),
            None => None,
        }
    }
}

proof fn lemma_byte_len_grows(s: Seq<char>, i: int, j: int)
    requires
        0 <= i <= j <= s.len(),
    ensures
        byte_len(s.take(i)) + (j - i) <= byte_len(s.take(j)),
    decreases j - i,
{
    if i < j {
        lemma_byte_len_grows(s, i, j - 1);
        assert(s.take(j).drop_last() =~= s.take(j - 1));
    }
}

proof fn lemma_chars_in(s: Seq<char>, i: int, bytes: nat)
    requires
        0 <= i < s.len(),
        byte_len(s.take(i)) <= bytes < byte_len(s.take(i + 1)),
    ensures
        chars_in(s, bytes) == (if byte_len(s.take(i)) == bytes {
            Some(i)
        } else {
            None
        }),
    decreases s.len(),
{
    assert(s.take(s.len() as int) =~= s);
    lemma_byte_len_grows(s, i + 1, s.len() as int);
    assert(byte_len(s) > bytes);
    let init = s.drop_last();
    assert(chars_in(s, bytes) == chars_in(init, bytes));
    if i == s.len() - 1 {
        assert(s.take(i) =~= init);
        if byte_len(init) < bytes {
            lemma_chars_in_none(init, bytes);
        } else {
            assert(chars_in(init, bytes) == Some(init.len() as int));
        }
    } else {
        assert(init.take(i) =~= s.take(i));
        assert(init.take(i + 1) =~= s.take(i + 1));
        lemma_chars_in(init, i, bytes);
    }
}

proof fn lemma_chars_in_none(s: Seq<char>, bytes: nat)
    requires
        byte_len(s) < bytes,
    ensures
        chars_in(s, bytes) is None,
    decreases s.len(),
{
    if s.len() > 0 {
        lemma_chars_in_none(s.drop_last(), bytes);
    }
}

/// A text of ASCII characters can be cut anywhere.
pub proof fn ascii_can_be_cut(s: Seq<char>, bytes: nat)
    requires
        forall|i: int| 0 <= i < s.len() ==> char_width(#[trigger] s[i]) == 1,
    ensures
        cut_at(s, bytes) == Some(if s.len() <= bytes {
            s
        } else {
            s.take(bytes as int)
        }),
{
    ascii_is_one_byte_each(s);
    if bytes < s.len() {
        let k = bytes as int;
        ascii_is_one_byte_each(s.take(k));
        ascii_is_one_byte_each(s.take(k + 1));
        lemma_chars_in(s, k, bytes);
    }
}

/// Takes the first bytes of a text.
pub fn cut(s: &str, bytes: usize) -> (r: Option<String>)
    requires
        bytes <= usize::MAX - 4,
    ensures
        match r {
            Some(t) => cut_at(s@, bytes as nat) == Some(t@),
            None => cut_at(s@, bytes as nat) is None,
        },
{
    let n: usize = s.unicode_len();
    let mut total: usize = 0;
    let mut i: usize = 0;
    assert(s@.take(0) =~= seq![]);
    while i < n
        invariant
            n == s@.len(),
            i <= n,
            total == byte_len(s@.take(i as int)),
            total <= bytes <= usize::MAX - 4,
        decreases n - i,
    {
        let width: usize = utf8_width(s.get_char(i));
        assert(s@.take(i as int + 1).drop_last() =~= s@.take(i as int));
        if total + width > bytes {
            proof {
                lemma_chars_in(s@, i as int, bytes as nat);
                lemma_byte_len_grows(s@, i as int + 1, n as int);
                assert(s@.take(n as int) =~= s@);
            }
            if total == bytes {
                return Some(owned(s.substring_char(0, i)));
            }
            return None;
        }
        total = total + width;
        i = i + 1;
    }
    assert(s@.take(n as int) =~= s@);
    Some(owned(s))
}

// ── What holds of texts ────────────────────────────────────────────

/// The characters that count as whitespace.
pub proof fn whitespace_is_known(c: char)
    ensures
        is_white(c) <==> c == ' ' || c == '\t' || c == '\n' || c == '\u{b}' || c == '\u{c}' || c == '\r'
            || c == '\u{85}' || c == '\u{a0}' || c == '\u{1680}' || '\u{2000}' <= c <= '\u{200a}' || c
            == '\u{2028}' || c == '\u{2029}' || c == '\u{202f}' || c == '\u{205f}' || c == '\u{3000}',
{
}

proof fn lemma_trim_start(s: Seq<char>) -> (i: int)
    ensures
        0 <= i <= s.len(),
        trim_start(s) == s.skip(i),
        forall|k: int| 0 <= k < i ==> is_white(#[trigger] s[k]),
        i < s.len() ==> !is_white(s[i]),
    decreases s.len(),
{
    if s.len() > 0 && is_white(s[0]) {
        let i = lemma_trim_start(s.drop_first());
        assert(s.drop_first().skip(i) =~= s.skip(i + 1));
        assert forall|k: int| 0 <= k < i + 1 implies is_white(#[trigger] s[k]) by {
            if k > 0 {
                assert(s.drop_first()[k - 1] == s[k]);
            }
        }
        if i + 1 < s.len() {
            assert(s.drop_first()[i] == s[i + 1]);
        }
        i + 1
    } else {
        assert(s.skip(0) =~= s);
        0
    }
}

proof fn lemma_trim_end(s: Seq<char>) -> (j: int)
    ensures
        0 <= j <= s.len(),
        trim_end(s) == s.take(j),
        forall|k: int| j <= k < s.len() ==> is_white(#[trigger] s[k]),
        j > 0 ==> !is_white(s[j - 1]),
    decreases s.len(),
{
    if s.len() > 0 && is_white(s.last()) {
        let j = lemma_trim_end(s.drop_last());
        assert(s.drop_last().take(j) =~= s.take(j));
        assert forall|k: int| j <= k < s.len() implies is_white(#[trigger] s[k]) by {
            if k < s.len() - 1 {
                assert(s.drop_last()[k] == s[k]);
            }
        }
        j
    } else {
        assert(s.take(s.len() as int) =~= s);
        s.len() as int
    }
}

/// Trimming cuts a text where its whitespace at either end meets the rest, and nowhere else.
pub proof fn trimming_cuts_the_ends(s: Seq<char>) -> (r: (int, int))
    ensures
        0 <= r.0 <= r.1 <= s.len(),
        trimmed(s) == s.subrange(r.0, r.1),
        forall|k: int| 0 <= k < r.0 ==> is_white(#[trigger] s[k]),
        forall|k: int| r.1 <= k < s.len() ==> is_white(#[trigger] s[k]),
        trimmed(s).len() > 0 ==> !is_white(trimmed(s)[0]) && !is_white(trimmed(s).last()),
{
    let i = lemma_trim_start(s);
    let rest = s.skip(i);
    let j = lemma_trim_end(rest);
    assert(rest.take(j) =~= s.subrange(i, i + j));
    assert forall|k: int| i + j <= k < s.len() implies is_white(#[trigger] s[k]) by {
        assert(rest[k - i] == s[k]);
    }
    (i, i + j)
}

proof fn lemma_words_apart(word: Seq<char>, s: Seq<char>, c: char, t: Seq<char>)
    requires
        is_white(c),
    ensures
        words_after(word, s + seq![c] + t) == words_after(word, s) + words(t),
    decreases s.len(),
{
    let all = s + seq![c] + t;
    if s.len() == 0 {
        assert(all[0] == c);
        assert(all.drop_first() =~= t);
        if word.len() == 0 {
            assert(word =~= seq![]);
        }
        assert(words_after(word, s) + words(t) =~= words_after(word, all));
    } else {
        let rest = s.drop_first();
        assert(all.drop_first() =~= rest + seq![c] + t);
        assert(all[0] == s[0]);
        if is_white(s[0]) {
            if word.len() == 0 {
                lemma_words_apart(word, rest, c, t);
            } else {
                lemma_words_apart(seq![], rest, c, t);
                assert(seq![word] + (words_after(seq![], rest) + words(t)) =~= (seq![word]
                    + words_after(seq![], rest)) + words(t));
            }
        } else {
            lemma_words_apart(word.push(s[0]), rest, c, t);
        }
    }
}

proof fn lemma_one_word(word: Seq<char>, s: Seq<char>)
    requires
        forall|k: int| 0 <= k < s.len() ==> !is_white(#[trigger] s[k]),
        word.len() + s.len() > 0,
    ensures
        words_after(word, s) == seq![word + s],
    decreases s.len(),
{
    if s.len() == 0 {
        assert(word + s =~= word);
    } else {
        assert forall|k: int| 0 <= k < s.drop_first().len() implies !is_white(
            #[trigger] s.drop_first()[k],
        ) by {
            assert(s.drop_first()[k] == s[k + 1]);
        }
        lemma_one_word(word.push(s[0]), s.drop_first());
        assert(word.push(s[0]) + s.drop_first() =~= word + s);
    }
}

/// Whitespace parts words: the words of two texts with whitespace between them are those of the
/// one and then those of the other. A text without whitespace is one word, and an empty one none.
pub proof fn whitespace_parts_words(s: Seq<char>, c: char, t: Seq<char>)
    ensures
        is_white(c) ==> words(s + seq![c] + t) == words(s) + words(t),
        s.len() > 0 && (forall|k: int| 0 <= k < s.len() ==> !is_white(#[trigger] s[k])) ==> words(s)
            == seq![s],
        s.len() == 0 ==> words(s).len() == 0,
{
    if is_white(c) {
        lemma_words_apart(seq![], s, c, t);
    }
    if s.len() > 0 && (forall|k: int| 0 <= k < s.len() ==> !is_white(#[trigger] s[k])) {
        lemma_one_word(seq![], s);
        assert(Seq::<char>::empty() + s =~= s);
    }
}

/// Digits stand for tens, hundreds and so on: a further digit counts ten times what stood before it
/// and its own value.
pub proof fn digits_count_by_tens(s: Seq<char>, d: char)
    ensures
        digits_value(Seq::<char>::empty()) == 0,
        is_digit(d) <==> 48 <= d as int <= 57,
        is_digit(d) ==> digits_value(s.push(d)) == 10 * digits_value(s) + (d as int - 48),
{
    assert(s.push(d).drop_last() =~= s);
}

/// A number is read back from its decimal text, unless it is above the limit.
pub proof fn numbers_are_read_back(n: nat, max: nat)
    ensures
        n <= max ==> parsed_number(decimal_text(n), max) == Some(n),
        n > max ==> parsed_number(decimal_text(n), max) is None,
{
    lemma_decimal(n);
    assert(unsigned_part(decimal_text(n)) == decimal_text(n));
}

proof fn lemma_decimal(n: nat)
    ensures
        digits_value(decimal_text(n)) == n,
        decimal_text(n).len() > 0,
        forall|i: int| 0 <= i < decimal_text(n).len() ==> is_digit(#[trigger] decimal_text(n)[i]),
    decreases n,
{
    let s = decimal_text(n);
    if n < 10 {
        reveal_with_fuel(digits_value, 2);
        assert(s.drop_last() =~= seq![]);
    } else {
        lemma_decimal(n / 10);
        assert(s.drop_last() =~= decimal_text(n / 10));
        assert forall|i: int| 0 <= i < s.len() implies is_digit(#[trigger] s[i]) by {
            if i < s.len() - 1 {
                assert(s[i] == decimal_text(n / 10)[i]);
            }
        }
    }
}

/// A text that is empty, or that holds anything but digits behind one optional plus sign, is no
/// number.
pub proof fn other_texts_are_no_numbers(s: Seq<char>, max: nat, i: int)
    ensures
        s.len() == 0 ==> parsed_number(s, max) is None,
        s.len() == 1 && s[0] == '+' ==> parsed_number(s, max) is None,
        0 < i < s.len() && !is_digit(s[i]) ==> parsed_number(s, max) is None,
        s.len() > 0 && !is_digit(s[0]) && s[0] != '+' ==> parsed_number(s, max) is None,
        parsed_number(s, max) matches Some(v) ==> v <= max,
{
    let digits = unsigned_part(s);
    if 0 < i < s.len() && !is_digit(s[i]) {
        if s[0] == '+' {
            assert(digits[i - 1] == s[i]);
        } else {
            assert(digits[i] == s[i]);
        }
    }
    if s.len() > 0 {
        assert(s[0] != '+' ==> digits[0] == s[0]);
    }
}

/// A plus sign in front of a number changes nothing, and neither does a zero.
pub proof fn numbers_may_be_longer(s: Seq<char>, max: nat)
    requires
        s.len() > 0,
        s[0] != '+',
    ensures
        parsed_number(seq!['+'] + s, max) == parsed_number(s, max),
        parsed_number(seq!['0'] + s, max) == parsed_number(s, max),
{
    assert((seq!['+'] + s).drop_first() =~= s);
    let z = seq!['0'] + s;
    lemma_leading_zero(s);
    if forall|i: int| 0 <= i < s.len() ==> is_digit(#[trigger] s[i]) {
        assert forall|i: int| 0 <= i < z.len() implies is_digit(#[trigger] z[i]) by {
            if i > 0 {
                assert(z[i] == s[i - 1]);
            }
        }
    } else {
        let i = choose|i: int| 0 <= i < s.len() && !is_digit(#[trigger] s[i]);
        assert(z[i + 1] == s[i]);
    }
}

proof fn lemma_leading_zero(s: Seq<char>)
    ensures
        digits_value(seq!['0'] + s) == digits_value(s),
    decreases s.len(),
{
    let z = seq!['0'] + s;
    if s.len() == 0 {
        reveal_with_fuel(digits_value, 2);
        assert(z.drop_last() =~= seq![]);
    } else {
        lemma_leading_zero(s.drop_last());
        assert(z.drop_last() =~= seq!['0'] + s.drop_last());
    }
}

/// The value of a digit below 16.
pub open spec fn digit_value(c: char) -> nat {
    if '0' <= c <= '9' {
        (c as int - 48) as nat
    } else {
        (c as int - 87) as nat
    }
}

/// The number that digits stand for in a base.
pub open spec fn base_value(s: Seq<char>, base: nat) -> nat
    decreases s.len(),
{
    if s.len() == 0 {
        0
    } else {
        base_value(s.drop_last(), base) * base + digit_value(s.last())
    }
}

/// Digits have their values: those from ten on are the letters from `a` on.
pub proof fn digits_have_their_values(d: nat)
    requires
        d < 16,
    ensures
        digit_value(digit_char(d)) == d,
        d < 10 <==> '0' <= digit_char(d) <= '9',
        d >= 10 <==> 'a' <= digit_char(d) <= 'f',
{
}

/// A number written in a base stands for itself, is written in digits below the base, and has no
/// zero in front unless it is zero.
pub proof fn numbers_are_written_in_their_base(n: nat, base: nat)
    requires
        2 <= base <= 16,
    ensures
        base_value(in_base(n, base), base) == n,
        in_base(n, base).len() > 0,
        in_base(n, base)[0] == '0' <==> n == 0,
        n < base ==> in_base(n, base).len() == 1,
        forall|i: int|
            0 <= i < in_base(n, base).len() ==> digit_value(#[trigger] in_base(n, base)[i]) < base,
    decreases n,
{
    let s = in_base(n, base);
    if n < base {
        digits_have_their_values(n);
        assert(s.drop_last() =~= seq![]);
        assert(0 * base == 0) by (nonlinear_arith);
        reveal_with_fuel(base_value, 2);
    } else {
        let q = n / base;
        let r = n % base;
        assert(q < n && q > 0 && n == q * base + r && r < base) by (nonlinear_arith)
            requires
                n >= base,
                base >= 2,
                q == n / base,
                r == n % base,
        ;
        numbers_are_written_in_their_base(q, base);
        digits_have_their_values(r);
        assert(s.drop_last() =~= in_base(q, base));
        assert forall|i: int| 0 <= i < s.len() implies digit_value(#[trigger] s[i]) < base by {
            if i < s.len() - 1 {
                assert(s[i] == in_base(q, base)[i]);
            }
        }
    }
}

/// A negative number is written as its opposite behind a minus sign, and any other like a number
/// without a sign.
pub proof fn signs_stand_in_front(n: nat)
    ensures
        signed_text(n as int) == decimal_text(n),
        n > 0 ==> signed_text(-n) == seq!['-'] + decimal_text(n),
        base_value(decimal_text(n), 10) == n,
{
    numbers_are_written_in_their_base(n, 10);
}

/// Aligned texts are as wide as asked for, or wider where the text is; the text stands at one side
/// and the filling at the other.
pub proof fn texts_are_aligned(s: Seq<char>, width: nat, fill: char, i: int)
    ensures
        left_aligned(s, width).len() == (if s.len() < width {
            width
        } else {
            s.len()
        }),
        right_aligned(s, width, fill).len() == left_aligned(s, width).len(),
        left_aligned(s, width).take(s.len() as int) == s,
        right_aligned(s, width, fill).skip(right_aligned(s, width, fill).len() - s.len()) == s,
        s.len() <= i < width ==> left_aligned(s, width)[i] == ' ',
        0 <= i < width - s.len() ==> right_aligned(s, width, fill)[i] == fill,
{
    assert(left_aligned(s, width).take(s.len() as int) =~= s);
    assert(right_aligned(s, width, fill).skip(right_aligned(s, width, fill).len() - s.len()) =~= s);
}

/// Joined texts: one stays as it is, and two lists are joined by joining each, with the separator
/// between them.
pub proof fn texts_are_joined(a: Seq<Seq<char>>, b: Seq<Seq<char>>, sep: Seq<char>)
    ensures
        a.len() == 0 ==> joined(a, sep).len() == 0,
        a.len() == 1 ==> joined(a, sep) == a[0],
        a.len() > 0 && b.len() > 0 ==> joined(a + b, sep) == joined(a, sep) + sep + joined(b, sep),
    decreases b.len(),
{
    if a.len() > 0 && b.len() > 0 {
        let all = a + b;
        assert(all.last() == b.last());
        assert(all.drop_last() =~= a + b.drop_last());
        if b.len() == 1 {
            assert(all.drop_last() =~= a);
        } else {
            texts_are_joined(a, b.drop_last(), sep);
            assert(joined(a, sep) + sep + joined(b.drop_last(), sep) + sep + b.last() =~= joined(
                a,
                sep,
            ) + sep + (joined(b.drop_last(), sep) + sep + b.last()));
        }
    }
}

/// A text starts with its start, ends with its end and holds its parts, and with nothing else.
pub proof fn parts_are_found(a: Seq<char>, p: Seq<char>, b: Seq<char>)
    ensures
        has_prefix(p + b, p),
        has_suffix(a + p, p),
        has_part(a + p + b, p),
        has_prefix(a, p) ==> a.len() >= p.len() && a == p + a.skip(p.len() as int),
        has_suffix(a, p) ==> a.len() >= p.len() && a == a.take(a.len() - p.len()) + p,
        has_part(a, p) ==> exists|i: int|
            0 <= i <= a.len() - p.len() && #[trigger] a.subrange(i, i + p.len()) == p,
{
    assert((p + b).subrange(0, p.len() as int) =~= p);
    assert((a + p).subrange(a.len() as int, (a + p).len() as int) =~= p);
    assert((a + p + b).subrange(a.len() as int, (a.len() + p.len()) as int) =~= p);
    assert(occurs_at(a + p + b, p, a.len() as int));
    if has_prefix(a, p) {
        assert(a =~= a.subrange(0, p.len() as int) + a.skip(p.len() as int));
    }
    if has_suffix(a, p) {
        assert(a =~= a.take(a.len() - p.len()) + a.subrange(a.len() - p.len(), a.len() as int));
    }
}

/// Behind a prefix stands the rest of the text; a text that does not start with it has none.
pub proof fn prefixes_are_taken_off(p: Seq<char>, rest: Seq<char>, s: Seq<char>)
    ensures
        after_prefix(p + rest, p) == Some(rest),
        after_prefix(s, p) matches Some(t) ==> s == p + t,
{
    parts_are_found(s, p, rest);
    assert((p + rest).skip(p.len() as int) =~= rest);
}

/// Without a trailing character, a text does not end with it, and has lost nothing else.
pub proof fn trailing_characters_are_taken_off(s: Seq<char>, c: char)
    ensures
        without_trailing(s, c).len() <= s.len(),
        without_trailing(s, c) == s.take(without_trailing(s, c).len() as int),
        without_trailing(s, c).len() > 0 ==> without_trailing(s, c).last() != c,
        forall|k: int| without_trailing(s, c).len() <= k < s.len() ==> #[trigger] s[k] == c,
    decreases s.len(),
{
    if s.len() > 0 && s.last() == c {
        trailing_characters_are_taken_off(s.drop_last(), c);
        let w = without_trailing(s, c);
        assert(s.drop_last().take(w.len() as int) =~= s.take(w.len() as int));
        assert forall|k: int| w.len() <= k < s.len() implies #[trigger] s[k] == c by {
            if k < s.len() - 1 {
                assert(s.drop_last()[k] == s[k]);
            }
        }
    } else {
        assert(s.take(s.len() as int) =~= s);
    }
}

/// Behind the last occurrence of a character stands the rest of the text; one in which it does not
/// occur is left whole.
pub proof fn last_parts_are_found(a: Seq<char>, c: char, b: Seq<char>)
    requires
        forall|k: int| 0 <= k < b.len() ==> #[trigger] b[k] != c,
    ensures
        after_last(a + seq![c] + b, c) == b,
        after_last(b, c) == b,
{
    let all = a + seq![c] + b;
    let from = (a.len() + 1) as int;
    assert forall|k: int| from <= k < all.len() implies all[k] != c by {
        assert(all[k] == b[k - from]);
    }
    lemma_after_last(all, c, from);
    assert(all.skip(from) =~= b);
    lemma_after_last(b, c, 0);
    assert(b.skip(0) =~= b);
}

/// A text takes as many bytes as its encoding in UTF-8.
pub proof fn bytes_are_those_of_utf8(s: Seq<char>)
    ensures
        byte_len(s) == encode_utf8(s).len(),
    decreases s.len(),
{
    if s.len() > 0 {
        bytes_are_those_of_utf8(s.drop_first());
        byte_lens_add_up(seq![s[0]], s.drop_first());
        assert(seq![s[0]] + s.drop_first() =~= s);
        assert(seq![s[0]].drop_last() =~= seq![]);
        reveal_with_fuel(byte_len, 2);
        char_is_scalar(s[0]);
    }
}

/// Two texts one behind the other take the bytes of both.
pub proof fn byte_lens_add_up(a: Seq<char>, b: Seq<char>)
    ensures
        byte_len(a + b) == byte_len(a) + byte_len(b),
    decreases b.len(),
{
    if b.len() == 0 {
        assert(a + b =~= a);
    } else {
        assert((a + b).drop_last() =~= a + b.drop_last());
        byte_lens_add_up(a, b.drop_last());
    }
}

/// What is cut off a text is its start: all of it where it is short enough, and otherwise the part
/// that takes exactly the given bytes. Nothing is cut only where no part takes so many.
pub proof fn texts_are_cut_at_bytes(s: Seq<char>, bytes: nat, k: int)
    ensures
        byte_len(s) <= bytes ==> cut_at(s, bytes) == Some(s),
        byte_len(s) > bytes && 0 <= k <= s.len() && byte_len(s.take(k)) == bytes ==> cut_at(s, bytes)
            == Some(s.take(k)),
        cut_at(s, bytes) matches Some(t) ==> t.len() <= s.len() && t == s.take(t.len() as int)
            && byte_len(t) <= bytes,
        byte_len(s) > bytes ==> (cut_at(s, bytes) matches Some(t) ==> byte_len(t) == bytes),
{
    lemma_chars_in_is(s, bytes);
    assert(s.take(s.len() as int) =~= s);
    if byte_len(s) > bytes && 0 <= k <= s.len() && byte_len(s.take(k)) == bytes {
        if k < s.len() {
            lemma_byte_len_grows(s, k, k + 1);
            lemma_chars_in(s, k, bytes);
        }
    }
}

proof fn lemma_chars_in_is(s: Seq<char>, bytes: nat)
    ensures
        chars_in(s, bytes) matches Some(k) ==> 0 <= k <= s.len() && byte_len(s.take(k)) == bytes,
    decreases s.len(),
{
    assert(s.take(s.len() as int) =~= s);
    if byte_len(s) != bytes && s.len() > 0 {
        lemma_chars_in_is(s.drop_last(), bytes);
        if let Some(k) = chars_in(s, bytes) {
            assert(s.drop_last().take(k) =~= s.take(k));
        }
    }
}

/// The texts of strings are those of each, in their order; a missing text is missing.
pub proof fn texts_are_those_of_each(v: Seq<String>, i: int, t: String)
    ensures
        texts(v).len() == v.len(),
        0 <= i < v.len() ==> texts(v)[i] == v[i]@,
        maybe_text(Some(t)) == Some(t@),
        maybe_text(None) is None,
{
}

/// Zeros in front of a number change nothing of it.
pub proof fn zeros_in_front_change_nothing(s: Seq<char>, width: nat, base: nat)
    ensures
        base_value(right_aligned(s, width, '0'), base) == base_value(s, base),
    decreases s.len(),
{
    let all = right_aligned(s, width, '0');
    if s.len() == 0 {
        assert(all =~= repeated('0', width as int));
        lemma_zeros(width, base);
    } else {
        let init = s.drop_last();
        let less: nat = if width > 0 {
            (width - 1) as nat
        } else {
            0
        };
        assert(all.drop_last() =~= right_aligned(init, less, '0'));
        zeros_in_front_change_nothing(init, less, base);
    }
}

proof fn lemma_zeros(n: nat, base: nat)
    ensures
        base_value(repeated('0', n as int), base) == 0,
    decreases n,
{
    let s = repeated('0', n as int);
    if n > 0 {
        lemma_zeros((n - 1) as nat, base);
        assert(s.drop_last() =~= repeated('0', n - 1));
        assert(0 * base == 0) by (nonlinear_arith);
    }
}

/// A repeated character stands as often as said, and nothing else does.
pub proof fn characters_are_repeated(c: char, n: int, i: int)
    ensures
        n >= 0 ==> repeated(c, n).len() == n,
        n < 0 ==> repeated(c, n).len() == 0,
        0 <= i < n ==> repeated(c, n)[i] == c,
{
}

} // verus!
