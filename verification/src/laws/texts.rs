//! Texts: what trimming, searching, joining and numbers do.

use vstd::prelude::*;

use crate::text::{
    begins_with, chars_of, concat2, concat3, contains_text, decimal, decimal_text, decimal_value,
    digit, find_char, first_chars, hex_digit, holds, index_of_char, is_digit, is_space, joined,
    parse_u64, push_decimal, same_text, starts_at, text_of, to_hex, trim_text, trim_trailing,
    trimmed, trimmed_back, trimmed_front, without_plus, without_prefixes, without_trailing,
};
use crate::voice::endpoint_host;

verus! {

/// The first place of a character: it is there, and not before.
pub proof fn law_first_char(s: Seq<char>, c: char, n: int)
    requires
        0 <= n <= s.len(),
        forall|k: int| 0 <= k < n ==> s[k] != c,
        n < s.len() ==> s[n] == c,
    ensures
        index_of_char(s, c) == n,
    decreases s.len(),
{
    if n > 0 {
        assert(s[0] != c);
        assert forall|k: int| 0 <= k < n - 1 implies s.drop_first()[k] != c by {
            assert(s.drop_first()[k] == s[k + 1]);
        }
        law_first_char(s.drop_first(), c, n - 1);
    }
}

/// Every character is white space.
pub open spec fn blank(s: Seq<char>) -> bool {
    forall|i: int| 0 <= i < s.len() ==> is_space(#[trigger] s[i])
}

/// The text starts and ends with something other than white space, or is empty.
pub open spec fn tight(s: Seq<char>) -> bool {
    s.len() > 0 ==> !is_space(s[0]) && !is_space(s.last())
}

proof fn lemma_front(a: Seq<char>, s: Seq<char>)
    requires
        blank(a),
        s.len() > 0 ==> !is_space(s[0]),
    ensures
        trimmed_front(a + s) == s,
    decreases a.len(),
{
    if a.len() == 0 {
        assert(a + s =~= s);
    } else {
        assert(is_space(a[0]));
        assert((a + s)[0] == a[0]);
        assert((a + s).drop_first() =~= a.drop_first() + s);
        assert forall|i: int| 0 <= i < a.drop_first().len() implies is_space(
            #[trigger] a.drop_first()[i],
        ) by {
            assert(a.drop_first()[i] == a[i + 1]);
        }
        lemma_front(a.drop_first(), s);
    }
}

proof fn lemma_back(s: Seq<char>, b: Seq<char>)
    requires
        blank(b),
        s.len() > 0 ==> !is_space(s.last()),
    ensures
        trimmed_back(s + b) == s,
    decreases b.len(),
{
    if b.len() == 0 {
        assert(s + b =~= s);
    } else {
        assert(is_space(b[b.len() - 1]));
        assert((s + b).last() == b.last());
        assert((s + b).drop_last() =~= s + b.drop_last());
        assert forall|i: int| 0 <= i < b.drop_last().len() implies is_space(
            #[trigger] b.drop_last()[i],
        ) by {
            assert(b.drop_last()[i] == b[i]);
        }
        lemma_back(s, b.drop_last());
    }
}

/// Trimming takes off the white space at both ends, all of it and nothing else.
pub proof fn law_trimming(s: &str, r: String, front: Seq<char>, inner: Seq<char>, back: Seq<char>)
    requires
        call_ensures(trim_text, (s,), r),
        s@ == front + inner + back,
        blank(front),
        blank(back),
        tight(inner),
    ensures
        r@ == inner,
        trimmed(s@) == inner,
{
    if inner.len() == 0 {
        assert(blank(s@));
        assert(s@ =~= s@ + inner);
        lemma_front(s@, inner);
        lemma_back(inner, inner);
        assert(inner + inner =~= inner);
    } else {
        assert(front + inner + back =~= front + (inner + back));
        assert((inner + back)[0] == inner[0]);
        lemma_front(front, inner + back);
        lemma_back(inner, back);
    }
}

/// What was trimmed stays as it is when it is trimmed again, and has no white space at its
/// ends.
pub proof fn law_trimmed(s: Seq<char>)
    ensures
        tight(trimmed(s)),
        trimmed(trimmed(s)) == trimmed(s),
{
    lemma_front_start(s);
    let f = trimmed_front(s);
    lemma_back_end(f);
    let t = trimmed(s);
    lemma_front(Seq::empty(), t);
    assert(Seq::<char>::empty() + t =~= t);
    lemma_back(t, Seq::empty());
    assert(t + Seq::<char>::empty() =~= t);
}

proof fn lemma_front_start(s: Seq<char>)
    ensures
        trimmed_front(s).len() > 0 ==> !is_space(trimmed_front(s)[0]),
    decreases s.len(),
{
    if s.len() > 0 && is_space(s[0]) {
        lemma_front_start(s.drop_first());
    }
}

proof fn lemma_back_end(s: Seq<char>)
    ensures
        trimmed_back(s).len() > 0 ==> !is_space(trimmed_back(s).last()) && s.len() > 0
            && trimmed_back(s)[0] == s[0],
    decreases s.len(),
{
    if s.len() > 0 && is_space(s.last()) {
        lemma_back_end(s.drop_last());
    }
}

/// Blanks, tabs and line ends are white space; letters, digits and signs are not.
pub proof fn law_white_space(c: char)
    ensures
        c == ' ' || c == '\t' || c == '\n' || c == '\r' ==> is_space(c),
        '!' <= c <= '~' ==> !is_space(c),
{
}

/// A number that is written out is read back, and what holds anything but digits, behind a
/// plus sign or none, is no number.
pub proof fn law_numbers(
    n: u64,
    written: String,
    text: &str,
    back: Option<u64>,
    other: &str,
    r: Option<u64>,
    k: int,
)
    requires
        call_ensures(decimal_text, (n,), written),
        text@ == written@,
        call_ensures(parse_u64, (text,), back),
        call_ensures(parse_u64, (other,), r),
    ensures
        back == Some(n),
        other@.len() == 0 ==> r is None,
        0 < k < other@.len() && !('0' <= other@[k] <= '9') ==> r is None,
        other@.len() > 0 && !('0' <= other@[0] <= '9') && other@[0] != '+' ==> r is None,
{
    crate::text::lemma_u64_text_roundtrip(n);
    let d = crate::text::without_plus(other@);
    if 0 < k < other@.len() && !('0' <= other@[k] <= '9') {
        assert(!is_digit(other@[k]));
        if other@[0] == '+' {
            assert(d[k - 1] == other@[k]);
        } else {
            assert(d[k] == other@[k]);
        }
    }
    if other@.len() > 0 && !('0' <= other@[0] <= '9') && other@[0] != '+' {
        assert(d[0] == other@[0]);
        assert(!is_digit(d[0]));
    }
}

/// One more digit behind a number is ten times the number and the digit.
pub proof fn law_digits(n: nat, d: nat)
    requires
        d < 10,
        n > 0,
    ensures
        decimal(n * 10 + d) == decimal(n).push(digit(d)),
        digit(d) as nat == 48 + d,
        decimal(d) == seq![digit(d)],
{
    assert((n * 10 + d) / 10 == n);
    assert((n * 10 + d) % 10 == d);
}

/// Two texts are the same where they have the same characters.
pub proof fn law_same(a: &str, b: &str, r: bool)
    requires
        call_ensures(same_text, (a, b), r),
    ensures
        r <==> a@ =~= b@,
{
}

/// A text is found wherever it stands, and only there.
pub proof fn law_search(s: &str, needle: &str, r: bool, before: Seq<char>, after: Seq<char>)
    requires
        call_ensures(contains_text, (s, needle), r),
    ensures
        s@ == before + needle@ + after ==> r,
        r ==> exists|i: int|
            0 <= i && i + needle@.len() <= s@.len() && #[trigger] s@.subrange(
                i,
                i + needle@.len(),
            ) == needle@,
{
    if s@ == before + needle@ + after {
        let i = before.len() as int;
        assert(s@.skip(i).take(needle@.len() as int) =~= needle@);
        assert(begins_with(s@.skip(i), needle@));
    }
    if r {
        let i = choose|i: int| 0 <= i <= s@.len() && begins_with(#[trigger] s@.skip(i), needle@);
        assert(s@.subrange(i, i + needle@.len()) =~= s@.skip(i).take(needle@.len() as int));
    }
}

/// The front of a text is as long as asked for, or all of it, and starts like the text.
pub proof fn law_front(s: &str, n: usize, r: String)
    requires
        call_ensures(first_chars, (s, n), r),
    ensures
        s@.len() <= n ==> r@ == s@,
        s@.len() > n ==> r@.len() == n,
        forall|i: int| 0 <= i < r@.len() ==> #[trigger] r@[i] == s@[i],
{
}

/// What is taken off the end is the character, as often as it stands there, and nothing else.
pub proof fn law_ends(s: Seq<char>, c: char, n: nat)
    requires
        s.len() > 0 ==> s.last() != c,
    ensures
        without_trailing(s + Seq::new(n, |i: int| c), c) == s,
    decreases n,
{
    let t = s + Seq::new(n, |i: int| c);
    if n == 0 {
        assert(t =~= s);
    } else {
        assert(t.last() == c);
        assert(t.drop_last() =~= s + Seq::new((n - 1) as nat, |i: int| c));
        law_ends(s, c, (n - 1) as nat);
    }
}

/// The value of a hexadecimal digit.
pub open spec fn hex_value(c: char) -> int {
    if '0' <= c <= '9' {
        c as int - 48
    } else {
        c as int - 87
    }
}

/// Bytes in hexadecimal can be read back: two digits for each, the high half first, all of
/// them digits or letters from a to f.
pub proof fn law_hex(data: &[u8], r: String, i: int)
    requires
        call_ensures(to_hex, (data,), r),
        0 <= i < data@.len(),
    ensures
        r@.len() == 2 * data@.len(),
        hex_value(r@[2 * i]) * 16 + hex_value(r@[2 * i + 1]) == data@[i],
        '0' <= r@[2 * i] <= '9' || 'a' <= r@[2 * i] <= 'f',
        '0' <= r@[2 * i + 1] <= '9' || 'a' <= r@[2 * i + 1] <= 'f',
{
    let b = data@[i] as int;
    assert(r@[2 * i] == hex_digit(b / 16));
    assert(r@[2 * i + 1] == hex_digit(b % 16));
    assert(0 <= b / 16 < 16 && 0 <= b % 16 < 16 && b / 16 * 16 + b % 16 == b);
}

/// Parts are joined in order, with the separator between them and nowhere else.
pub proof fn law_joining(parts: Seq<Seq<char>>, part: Seq<char>, separator: Seq<char>)
    ensures
        joined(Seq::empty(), separator) == Seq::<char>::empty(),
        joined(seq![part], separator) == part,
        parts.len() > 0 ==> joined(parts.push(part), separator) == joined(parts, separator)
            + separator + part,
{
    assert(parts.push(part).drop_last() =~= parts);
}

/// The host of an endpoint: what stands before the first slash, without the scheme, however
/// often it is in front.
pub proof fn law_host(endpoint: &str, r: String, host: Seq<char>, rest: Seq<char>)
    requires
        call_ensures(endpoint_host, (endpoint,), r),
        !host.contains('/'),
        rest.len() > 0 ==> rest[0] == '/',
        !begins_with(host + rest, "wss://"@),
    ensures
        endpoint@ == host + rest ==> r@ == host,
        endpoint@ == "wss://"@ + (host + rest) ==> r@ == host,
{
    reveal_strlit("wss://");
    assert("wss://"@.len() == 6);
    let s = host + rest;
    assert(without_prefixes(s, "wss://"@) == s);
    let t = "wss://"@ + s;
    assert(t.take(6) =~= "wss://"@);
    assert(t.skip(6) =~= s);
    assert(without_prefixes(t, "wss://"@) == without_prefixes(t.skip(6), "wss://"@));
    assert forall|k: int| 0 <= k < host.len() implies s[k] != '/' by {
        assert(s[k] == host[k]);
        assert(host.contains(host[k]));
    }
    if rest.len() > 0 {
        assert(s[host.len() as int] == rest[0]);
    }
    law_first_char(s, '/', host.len() as int);
    assert(s.take(host.len() as int) =~= host);
}

/// Where a character is looked for from a place on, the place that is found holds it and none
/// before does; there is none where the end is found.
pub proof fn law_found_chars(chars: &Vec<char>, from: usize, c: char, r: usize, k: int)
    requires
        from <= chars@.len(),
        call_ensures(find_char, (chars, from, c), r),
    ensures
        from <= r <= chars@.len(),
        r < chars@.len() ==> chars@[r as int] == c,
        from <= k < r ==> chars@[k] != c,
{
    let rest = chars@.skip(from as int);
    lemma_index(rest, c);
    let n = index_of_char(rest, c);
    if r < chars@.len() {
        assert(rest[n] == chars@[r as int]);
    }
    if from <= k < r {
        assert(rest[k - from] == chars@[k]);
    }
}

proof fn lemma_index(s: Seq<char>, c: char)
    ensures
        0 <= index_of_char(s, c) <= s.len(),
        index_of_char(s, c) < s.len() ==> s[index_of_char(s, c) as int] == c,
        forall|k: int| 0 <= k < index_of_char(s, c) ==> #[trigger] s[k] != c,
    decreases s.len(),
{
    if s.len() > 0 && s[0] != c {
        lemma_index(s.drop_first(), c);
        assert forall|k: int| 0 <= k < index_of_char(s, c) implies #[trigger] s[k] != c by {
            if k > 0 {
                assert(s.drop_first()[k - 1] == s[k]);
            }
        }
    }
}

/// A part of a text, and texts one after the other, hold the characters they are made of.
pub proof fn law_parts(
    s: &str,
    chars: Vec<char>,
    from: usize,
    to: usize,
    part: String,
    t: &str,
    u: &str,
    two: String,
    three: String,
)
    requires
        call_ensures(chars_of, (s,), chars),
        from <= to <= s@.len(),
        call_ensures(text_of, (&chars, from, to), part),
        call_ensures(concat2, (s, t), two),
        call_ensures(concat3, (s, t, u), three),
    ensures
        part@ == s@.subrange(from as int, to as int),
        two@ == s@ + t@,
        three@ == s@ + t@ + u@,
{
}

/// A text begins with another at a place exactly where its characters are there.
pub proof fn law_begins_at(chars: &Vec<char>, from: usize, prefix: &Vec<char>, r: bool)
    requires
        from <= chars@.len(),
        call_ensures(starts_at, (chars, from, prefix), r),
    ensures
        r <==> from + prefix@.len() <= chars@.len() && chars@.subrange(
            from as int,
            from + prefix@.len(),
        ) == prefix@,
{
    let rest = chars@.skip(from as int);
    if from + prefix@.len() <= chars@.len() {
        assert(rest.take(prefix@.len() as int) =~= chars@.subrange(
            from as int,
            from + prefix@.len(),
        ));
    }
}

/// Reading numbers digit by digit: a digit behind a number makes it ten times as large and adds
/// the digit, as long as that fits in 64 bits, and what does not fit is no number. A plus sign
/// in front changes nothing.
pub proof fn law_reading_numbers(
    s: &str,
    r: Option<u64>,
    longer: &str,
    next: Option<u64>,
    signed: &str,
    same: Option<u64>,
    d: u64,
    n: u64,
)
    requires
        call_ensures(parse_u64, (s,), r),
        r == Some(n),
        d < 10,
        longer@ == s@.push((48 + d) as char),
        call_ensures(parse_u64, (longer,), next),
        signed@ == seq!['+'] + s@,
        s@[0] != '+',
        call_ensures(parse_u64, (signed,), same),
    ensures
        n * 10 + d <= u64::MAX ==> next == Some((n * 10 + d) as u64),
        n * 10 + d > u64::MAX ==> next is None,
        same == Some(n),
{
    let c = (48 + d) as char;
    assert(is_digit(c));
    let a = without_plus(s@);
    let b = without_plus(longer@);
    assert(a == s@);
    assert(longer@[0] == s@[0]);
    assert(b == longer@);
    assert(b.drop_last() =~= a);
    assert forall|i: int| 0 <= i < b.len() implies is_digit(#[trigger] b[i]) by {
        if i < a.len() {
            assert(b[i] == a[i]);
        }
    }
    assert(without_plus(signed@) =~= s@);
}

/// One digit is the number it stands for.
pub proof fn law_one_digit(s: &str, r: Option<u64>, d: u64)
    requires
        d < 10,
        s@ == seq![(48 + d) as char],
        call_ensures(parse_u64, (s,), r),
    ensures
        r == Some(d),
{
    let c = (48 + d) as char;
    assert(is_digit(c));
    assert(without_plus(s@) == s@);
    assert(s@.drop_last() =~= Seq::<char>::empty());
    assert(s@.last() == c);
    assert(decimal_value(s@.drop_last()) == 0);
    assert forall|i: int| 0 <= i < s@.len() implies is_digit(#[trigger] s@[i]) by {}
}

/// What is white space, and nothing else is.
pub proof fn law_all_white_space(c: char)
    ensures
        is_space(c) <==> {
            ||| c == ' ' || c == '\t' || c == '\n' || c == '\r'
            ||| c as u32 == 11 || c as u32 == 12
            ||| c == '\u{85}' || c == '\u{a0}' || c == '\u{1680}'
            ||| '\u{2000}' <= c <= '\u{200a}'
            ||| c == '\u{2028}' || c == '\u{2029}' || c == '\u{202f}' || c == '\u{205f}'
            ||| c == '\u{3000}'
        },
{
}

/// What is taken off the end of a text, and what is put behind one.
pub proof fn law_ends_of_texts(
    s: &str,
    c: char,
    r: String,
    inner: Seq<char>,
    n: nat,
    out: &mut String,
    m: u64,
    done: (),
    alone: String,
)
    requires
        call_ensures(trim_trailing, (s, c), r),
        s@ == inner + Seq::new(n, |i: int| c),
        inner.len() > 0 ==> inner.last() != c,
        call_ensures(push_decimal, (out, m), done),
        call_ensures(decimal_text, (m,), alone),
    ensures
        r@ == inner,
        final(out)@ == old(out)@ + alone@,
{
    law_ends(inner, c, n);
}

} // verus!
