//! Character and string helpers shared by the filter, the address resolver and
//! the favorites writer.
//!
//! Texts are modelled as `Seq<char>`; every function here states its result
//! over that model.

use vstd::prelude::*;
use vstd::std_specs::iter::IteratorSpec;
use vstd::string::*;

verus! {

/// Appending one character: `String::push` puts `c` behind the text that was
/// there and changes nothing else.
pub assume_specification[ String::push ](s: &mut String, c: char)
    ensures
        final(s)@ == old(s)@.push(c),
;

/// Lower-case form of an ASCII letter; every other character is unchanged.
pub open spec fn ascii_lower(c: char) -> char {
    if 'A' <= c && c <= 'Z' {
        ((c as u8) + 32) as char
    } else {
        c
    }
}

/// Lower-cases one ASCII letter and leaves any other character alone.
pub fn to_ascii_lower(c: char) -> (r: char)
    ensures
        r == ascii_lower(c),
{
    if 'A' <= c && c <= 'Z' {
        ((c as u8) + 32) as char
    } else {
        c
    }
}

/// The characters of a text, in order.
pub fn chars_of(s: &str) -> (v: Vec<char>)
    ensures
        v@ == s@,
{
    broadcast use vstd::string::group_string_axioms;

    let mut v: Vec<char> = Vec::new();
    for c in it: s.chars()
        invariant
            it.seq() == s@,
            v@ == s@.take(it.index() as int),
    {
        v.push(c);
    }
    v
}

/// A text made of the characters `chars[from..to]`.
pub(crate) fn string_of(chars: &Vec<char>, from: usize, to: usize) -> (s: String)
    requires
        from <= to <= chars.len(),
    ensures
        s@ == chars@.subrange(from as int, to as int),
{
    let mut s = String::new();
    let mut i: usize = from;
    while i < to
        invariant
            from <= i <= to <= chars.len(),
            s@ == chars@.subrange(from as int, i as int),
        decreases to - i,
    {
        s.push(chars[i]);
        i += 1;
    }
    s
}

/// Whether two texts hold the same characters.
pub fn same_text(a: &str, b: &str) -> (r: bool)
    ensures
        r == (a@ == b@),
{
    broadcast use vstd::string::group_string_axioms;

    let mut other = b.chars();
    assert(b@.skip(0) == b@);
    for c in it: a.chars()
        invariant
            it.seq() == a@,
            it.index() <= b@.len(),
            IteratorSpec::remaining(&other) == b@.skip(it.index() as int),
            a@.take(it.index() as int) == b@.take(it.index() as int),
    {
        let ghost left = IteratorSpec::remaining(&other);
        match other.next() {
            Some(d) => {
                assert(left.len() > 0 && d == left[0]);
                assert(d == b@[it.index() as int]);
                if c != d {
                    assert(a@[it.index() as int] != b@[it.index() as int]);
                    return false;
                }
                assert(b@.skip(it.index() as int).drop_first() == b@.skip(it.index() + 1));
                assert(a@.take(it.index() + 1) == a@.take(it.index() as int).push(c));
                assert(b@.take(it.index() + 1) == b@.take(it.index() as int).push(d));
            },
            None => {
                assert(left.len() == 0);
                assert(b@.len() == it.index());
                return false;
            },
        }
    }
    assert(a@.take(a@.len() as int) == a@);
    let ghost left = IteratorSpec::remaining(&other);
    match other.next() {
        Some(_) => {
            assert(left.len() > 0);
            false
        },
        None => {
            assert(left.len() == 0);
            assert(b@.take(a@.len() as int) == b@);
            true
        },
    }
}

/// `needle` stands in `hay` at position `at`.
pub open spec fn occurs_at(hay: Seq<char>, needle: Seq<char>, at: int) -> bool {
    &&& 0 <= at
    &&& at + needle.len() <= hay.len()
    &&& hay.subrange(at, at + needle.len()) == needle
}

/// `needle` stands somewhere in `hay`. The empty text stands in every text.
pub open spec fn contains_text(hay: Seq<char>, needle: Seq<char>) -> bool {
    exists|at: int| occurs_at(hay, needle, at)
}

fn matches_at(hay: &Vec<char>, needle: &Vec<char>, at: usize) -> (r: bool)
    requires
        at + needle.len() <= hay.len(),
    ensures
        r == occurs_at(hay@, needle@, at as int),
{
    let mut k: usize = 0;
    while k < needle.len()
        invariant
            at + needle.len() <= hay.len(),
            k <= needle.len(),
            hay@.subrange(at as int, at + k) == needle@.take(k as int),
        decreases needle.len() - k,
    {
        if hay[at + k] != needle[k] {
            proof {
                let window = hay@.subrange(at as int, at + needle.len());
                assert(window[k as int] != needle@[k as int]);
            }
            return false;
        }
        k += 1;
    }
    assert(needle@.take(needle.len() as int) == needle@);
    true
}

/// Substring search on characters.
pub fn contains_chars(hay: &Vec<char>, needle: &Vec<char>) -> (r: bool)
    ensures
        r == contains_text(hay@, needle@),
{
    if needle.len() == 0 {
        assert(occurs_at(hay@, needle@, 0)) by {
            assert(hay@.subrange(0, 0) =~= needle@);
        }
        return true;
    }
    if needle.len() > hay.len() {
        return false;
    }
    let last: usize = hay.len() - needle.len();
    let mut at: usize = 0;
    while at <= last
        invariant
            0 < needle.len() <= hay.len(),
            last == hay.len() - needle.len(),
            at <= last + 1,
            forall|p: int| 0 <= p < at ==> !occurs_at(hay@, needle@, p),
        decreases last + 1 - at,
    {
        if matches_at(hay, needle, at) {
            return true;
        }
        at += 1;
    }
    false
}

/// A server name without its color escapes, in lower case.
///
/// The marker `^` and the one character behind it are dropped, whatever that
/// character is; a marker at the very end is dropped alone. What is left is
/// lower-cased letter by letter (ASCII only). `escaped` says that the
/// character before `name` was a marker.
pub open spec fn strip_colors_from(name: Seq<char>, escaped: bool) -> Seq<char>
    decreases name.len(),
{
    if name.len() == 0 {
        Seq::empty()
    } else if escaped {
        strip_colors_from(name.skip(1), false)
    } else if name[0] == '^' {
        strip_colors_from(name.skip(1), true)
    } else {
        seq![ascii_lower(name[0])] + strip_colors_from(name.skip(1), false)
    }
}

/// The normal form of a server name: color escapes stripped, ASCII letters
/// lower-cased.
pub open spec fn strip_colors(name: Seq<char>) -> Seq<char> {
    strip_colors_from(name, false)
}

/// The characters of the normal form of `name`.
pub fn normalized_chars(name: &str) -> (out: Vec<char>)
    ensures
        out@ == strip_colors(name@),
{
    broadcast use vstd::string::group_string_axioms;

    let mut out: Vec<char> = Vec::new();
    let mut escaped = false;
    assert(name@.skip(0) == name@);
    for c in it: name.chars()
        invariant
            it.seq() == name@,
            strip_colors(name@) =~= out@ + strip_colors_from(
                name@.skip(it.index() as int),
                escaped,
            ),
    {
        proof {
            let rest = name@.skip(it.index() as int);
            assert(rest.len() > 0 && rest[0] == c);
            assert(rest.skip(1) == name@.skip(it.index() + 1));
        }
        if escaped {
            escaped = false;
        } else if c == '^' {
            escaped = true;
        } else {
            let ghost before = out@;
            out.push(to_ascii_lower(c));
            assert(out@ + strip_colors_from(name@.skip(it.index() + 1), false) == before + (
            seq![ascii_lower(c)] + strip_colors_from(name@.skip(it.index() + 1), false)));
        }
    }
    out
}

/// The digit `d` as a character.
pub open spec fn digit_char(d: nat) -> char
    recommends
        d < 10,
{
    ((48 + d) as u8) as char
}

fn digit_of(d: u64) -> (c: char)
    requires
        d < 10,
    ensures
        c == digit_char(d as nat),
{
    (48u8 + d as u8) as char
}

/// Decimal notation of a number, without leading zeros.
pub open spec fn decimal(n: nat) -> Seq<char>
    decreases n,
{
    if n < 10 {
        seq![digit_char(n)]
    } else {
        decimal(n / 10).push(digit_char(n % 10))
    }
}

/// Appends the decimal notation of `n` to `out`.
pub fn push_decimal(out: &mut String, n: u64)
    ensures
        final(out)@ == old(out)@ + decimal(n as nat),
{
    let mut digits: Vec<char> = Vec::new();
    let mut rest: u64 = n;
    digits.push(digit_of(rest % 10));
    rest = rest / 10;
    while rest > 0
        invariant
            digits.len() > 0,
            decimal(n as nat) == (if rest > 0 {
                decimal(rest as nat)
            } else {
                Seq::<char>::empty()
            }) + digits@.reverse(),
        decreases rest,
    {
        let ghost before = digits@;
        digits.push(digit_of(rest % 10));
        proof {
            let d = digit_char((rest % 10) as nat);
            assert(digits@.reverse() =~= seq![d] + before.reverse());
            if rest >= 10 {
                assert(decimal(rest as nat) + before.reverse() =~= decimal((rest / 10) as nat)
                    + (seq![d] + before.reverse()));
            } else {
                assert(decimal(rest as nat) + before.reverse() =~= Seq::<char>::empty() + (seq![d]
                    + before.reverse()));
            }
        }
        rest = rest / 10;
    }
    let mut i: usize = digits.len();
    while i > 0
        invariant
            i <= digits.len(),
            out@ == old(out)@ + digits@.reverse().take(digits.len() - i),
        decreases i,
    {
        i -= 1;
        out.push(digits[i]);
        assert(digits@.reverse().take(digits.len() - i) =~= digits@.reverse().take(
            digits.len() - i - 1,
        ).push(digits@[i as int]));
    }
    assert(digits@.reverse().take(digits.len() as int) =~= digits@.reverse());
    assert(decimal(n as nat) =~= digits@.reverse());
}

/// Decimal notation of a whole number: a minus sign before a negative one.
pub open spec fn signed_decimal(n: int) -> Seq<char> {
    if n < 0 {
        seq!['-'] + decimal((-n) as nat)
    } else {
        decimal(n as nat)
    }
}

/// Appends the decimal notation of `n` to `out`.
pub fn push_signed_decimal(out: &mut String, n: i64)
    ensures
        final(out)@ == old(out)@ + signed_decimal(n as int),
{
    if n < 0 {
        out.push('-');
        let size: u64 = (-(n as i128)) as u64;
        push_decimal(out, size);
        assert(out@ == old(out)@ + (seq!['-'] + decimal((-n) as nat)));
    } else {
        push_decimal(out, n as u64);
    }
}

/// The characters of Unicode's White_Space set.
pub open spec fn white_space(c: char) -> bool {
    let code = c as u32;
    ||| 0x09 <= code <= 0x0D
    ||| code == 0x20
    ||| code == 0x85
    ||| code == 0xA0
    ||| code == 0x1680
    ||| 0x2000 <= code <= 0x200A
    ||| code == 0x2028
    ||| code == 0x2029
    ||| code == 0x202F
    ||| code == 0x205F
    ||| code == 0x3000
}

/// `text` without the white space at its start.
pub open spec fn trim_start_space(text: Seq<char>) -> Seq<char>
    decreases text.len(),
{
    if text.len() > 0 && white_space(text[0]) {
        trim_start_space(text.skip(1))
    } else {
        text
    }
}

/// `text` without the white space at its end.
pub open spec fn trim_end_space(text: Seq<char>) -> Seq<char>
    decreases text.len(),
{
    if text.len() > 0 && white_space(text.last()) {
        trim_end_space(text.drop_last())
    } else {
        text
    }
}

/// `text` without the white space at its two ends.
pub open spec fn trimmed(text: Seq<char>) -> Seq<char> {
    trim_end_space(trim_start_space(text))
}

/// `str::trim` returns the part of the text between its leading and its
/// trailing white space, which is what Unicode's White_Space set holds.
pub assume_specification[ str::trim ](s: &str) -> (r: &str)
    ensures
        r@ == trimmed(s@),
;

/// What `str::to_lowercase` makes of a text: its lower-case form by the
/// Unicode tables.
pub uninterp spec fn lowercased(text: Seq<char>) -> Seq<char>;

/// `str::to_lowercase` returns the lower-case form of the text as a new
/// `String`.
pub assume_specification[ str::to_lowercase ](s: &str) -> (r: String)
    ensures
        r@ == lowercased(s@),
;

/// `texts` without the ones that came before already.
pub open spec fn unique(texts: Seq<Seq<char>>) -> Seq<Seq<char>>
    decreases texts.len(),
{
    if texts.len() == 0 {
        texts
    } else {
        let before = unique(texts.drop_last());
        if before.contains(texts.last()) {
            before
        } else {
            before.push(texts.last())
        }
    }
}

/// The list without repeats holds every text of the list, and each once.
pub proof fn lemma_unique(texts: Seq<Seq<char>>)
    ensures
        unique(texts).no_duplicates(),
        forall|text: Seq<char>| #[trigger] unique(texts).contains(text) <==> texts.contains(text),
    decreases texts.len(),
{
    if texts.len() > 0 {
        let init = texts.drop_last();
        let last = texts.last();
        let before = unique(init);
        lemma_unique(init);
        assert forall|text: Seq<char>| #[trigger]
            unique(texts).contains(text) <==> texts.contains(text) by {
            assert(unique(init).contains(text) <==> init.contains(text));
            if texts.contains(text) {
                let i = choose|i: int| 0 <= i < texts.len() && texts[i] == text;
                if i < init.len() {
                    assert(init[i] == text);
                    assert(init.contains(text));
                    let k = choose|k: int| 0 <= k < before.len() && before[k] == text;
                    assert(unique(texts)[k] == text);
                } else if !before.contains(last) {
                    assert(unique(texts)[before.len() as int] == text);
                }
            }
            if unique(texts).contains(text) {
                let k = choose|k: int| 0 <= k < unique(texts).len() && unique(texts)[k] == text;
                if k < before.len() {
                    assert(before[k] == text);
                    assert(before.contains(text));
                    let i = choose|i: int| 0 <= i < init.len() && init[i] == text;
                    assert(texts[i] == text);
                } else {
                    assert(texts[texts.len() - 1] == text);
                }
            }
        }
    }
}

/// `texts` without the ones that came before already.
pub fn distinct_texts<'a>(texts: &Vec<&'a str>) -> (once: Vec<&'a str>)
    ensures
        once.deep_view() == unique(texts.deep_view()),
{
    let ghost all = texts.deep_view();
    let mut once: Vec<&'a str> = Vec::new();
    let mut i: usize = 0;
    assert(all.take(0) == Seq::<Seq<char>>::empty());
    while i < texts.len()
        invariant
            all == texts.deep_view(),
            i <= texts.len(),
            once.deep_view() == unique(all.take(i as int)),
        decreases texts.len() - i,
    {
        let text: &'a str = texts[i];
        proof {
            let next = all.take(i + 1);
            assert(next.drop_last() == all.take(i as int));
            assert(next.last() == text@);
        }
        let mut k: usize = 0;
        let mut seen = false;
        while !seen && k < once.len()
            invariant
                k <= once.len(),
                seen ==> once.deep_view().contains(text@),
                !seen ==> forall|j: int| 0 <= j < k ==> once.deep_view()[j] != text@,
            decreases once.len() - k, (if seen { 0int } else { 1int }),
        {
            assert(once.deep_view()[k as int] == once[k as int]@);
            if same_text(once[k], text) {
                seen = true;
            } else {
                k += 1;
            }
        }
        if !seen {
            let ghost before = once.deep_view();
            once.push(text);
            assert(once.deep_view() == before.push(text@));
        }
        i += 1;
    }
    assert(all.take(texts.len() as int) == all);
    once
}

} // verus!
