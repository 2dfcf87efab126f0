//! Building text, with contracts over sequences of characters.

use vstd::prelude::*;
use vstd::string::*;

verus! {

/// The decimal digit character of `d`.
pub open spec fn digit(d: nat) -> char
    recommends
        d < 10,
{
    if d == 0 { '0' } else if d == 1 { '1' } else if d == 2 { '2' } else if d == 3 { '3' }
    else if d == 4 { '4' } else if d == 5 { '5' } else if d == 6 { '6' } else if d == 7 { '7' }
    else if d == 8 { '8' } else { '9' }
}

/// `n` written in decimal, without leading zeros.
pub open spec fn decimal(n: nat) -> Seq<char>
    decreases n,
{
    if n < 10 {
        seq![digit(n)]
    } else {
        decimal(n / 10).push(digit(n % 10))
    }
}

fn digit_text(d: u64) -> (r: &'static str)
    requires
        d < 10,
    ensures
        r@ == seq![digit(d as nat)],
{
    proof {
        reveal_strlit("0");
        reveal_strlit("1");
        reveal_strlit("2");
        reveal_strlit("3");
        reveal_strlit("4");
        reveal_strlit("5");
        reveal_strlit("6");
        reveal_strlit("7");
        reveal_strlit("8");
        reveal_strlit("9");
    }
    if d == 0 { "0" } else if d == 1 { "1" } else if d == 2 { "2" } else if d == 3 { "3" }
    else if d == 4 { "4" } else if d == 5 { "5" } else if d == 6 { "6" } else if d == 7 { "7" }
    else if d == 8 { "8" } else { "9" }
}

/// `n` as decimal text.
pub fn decimal_text(n: u64) -> (r: String)
    ensures
        r@ == decimal(n as nat),
    decreases n,
{
    if n < 10 {
        digit_text(n).to_owned()
    } else {
        let mut s = decimal_text(n / 10);
        s.append(digit_text(n % 10));
        assert(s@ =~= decimal(n as nat));
        s
    }
}

/// Whether two texts hold the same characters.
pub fn same_text(a: &str, b: &str) -> (r: bool)
    ensures
        r == (a@ == b@),
{
    a.to_owned() == b.to_owned()
}

/// The text with another behind it.
pub fn plus(s: String, more: &str) -> (r: String)
    ensures
        r@ == s@ + more@,
{
    let mut s = s;
    s.append(more);
    s
}

/// The text with a number behind it.
pub fn plus_number(s: String, n: u64) -> (r: String)
    ensures
        r@ == s@ + decimal(n as nat),
{
    let digits = decimal_text(n);
    plus(s, digits.as_str())
}

// ---- white space ----

/// Whether the character has the Unicode property `White_Space`.
pub open spec fn is_white(c: char) -> bool {
    ||| '\u{9}' <= c <= '\u{d}'
    ||| c == ' ' || c == '\u{85}' || c == '\u{a0}' || c == '\u{1680}'
    ||| '\u{2000}' <= c <= '\u{200a}'
    ||| c == '\u{2028}' || c == '\u{2029}' || c == '\u{202f}' || c == '\u{205f}' || c == '\u{3000}'
}

fn white(c: char) -> (r: bool)
    ensures
        r == is_white(c),
{
    ('\u{9}' <= c && c <= '\u{d}') || c == ' ' || c == '\u{85}' || c == '\u{a0}' || c == '\u{1680}'
        || ('\u{2000}' <= c && c <= '\u{200a}') || c == '\u{2028}' || c == '\u{2029}' || c == '\u{202f}'
        || c == '\u{205f}' || c == '\u{3000}'
}

/// The text without white space at its start.
pub open spec fn trimmed_start(s: Seq<char>) -> Seq<char>
    decreases s.len(),
{
    if s.len() > 0 && is_white(s[0]) {
        trimmed_start(s.skip(1))
    } else {
        s
    }
}

/// The text without white space at its end.
pub open spec fn trimmed_end(s: Seq<char>) -> Seq<char>
    decreases s.len(),
{
    if s.len() > 0 && is_white(s.last()) {
        trimmed_end(s.drop_last())
    } else {
        s
    }
}

pub open spec fn trimmed(s: Seq<char>) -> Seq<char> {
    trimmed_end(trimmed_start(s))
}

pub fn trim_start(s: &str) -> (r: &str)
    ensures
        r@ == trimmed_start(s@),
{
    let n: usize = s.unicode_len();
    let mut i: usize = 0;
    assert(s@.skip(0) =~= s@);
    while i < n && white(s.get_char(i))
        invariant
            n == s@.len(),
            i <= n,
            trimmed_start(s@) == trimmed_start(s@.skip(i as int)),
        decreases n - i,
    {
        assert(s@.skip(i as int).skip(1) =~= s@.skip(i + 1));
        i = i + 1;
    }
    let r = s.substring_char(i, n);
    assert(r@ =~= s@.skip(i as int));
    r
}

pub fn trim_end(s: &str) -> (r: &str)
    ensures
        r@ == trimmed_end(s@),
{
    let mut n: usize = s.unicode_len();
    assert(s@.take(n as int) =~= s@);
    while n > 0 && white(s.get_char(n - 1))
        invariant
            n <= s@.len(),
            trimmed_end(s@) == trimmed_end(s@.take(n as int)),
        decreases n,
    {
        assert(s@.take(n as int).drop_last() =~= s@.take(n - 1));
        n = n - 1;
    }
    let r = s.substring_char(0, n);
    assert(r@ =~= s@.take(n as int));
    r
}

/// The text without white space around it.
pub fn trim(s: &str) -> (r: &str)
    ensures
        r@ == trimmed(s@),
{
    trim_end(trim_start(s))
}

// ---- prefixes and parts ----

/// Whether the text begins with another.
pub open spec fn begins_with(s: Seq<char>, prefix: Seq<char>) -> bool {
    prefix.len() <= s.len() && s.take(prefix.len() as int) == prefix
}

pub fn starts_with(s: &str, prefix: &str) -> (r: bool)
    ensures
        r == begins_with(s@, prefix@),
{
    let n: usize = prefix.unicode_len();
    if n <= s.unicode_len() {
        let head = s.substring_char(0, n);
        assert(head@ =~= s@.take(n as int));
        same_text(head, prefix)
    } else {
        false
    }
}

/// The text without the prefix, as often as it is there.
pub open spec fn stripped(s: Seq<char>, prefix: Seq<char>) -> Seq<char>
    decreases s.len(),
{
    if prefix.len() > 0 && begins_with(s, prefix) {
        stripped(s.skip(prefix.len() as int), prefix)
    } else {
        s
    }
}

pub fn strip_all<'a>(s: &'a str, prefix: &str) -> (r: &'a str)
    ensures
        r@ == stripped(s@, prefix@),
{
    let n: usize = s.unicode_len();
    let k: usize = prefix.unicode_len();
    let mut i: usize = 0;
    let mut rest = s.substring_char(0, n);
    assert(rest@ =~= s@);
    while k > 0 && starts_with(rest, prefix)
        invariant
            k == prefix@.len(),
            n == s@.len(),
            i <= n,
            rest@ == s@.skip(i as int),
            stripped(s@, prefix@) == stripped(rest@, prefix@),
        decreases n - i,
    {
        assert(rest@.skip(k as int) =~= s@.skip(i + k));
        i = i + k;
        rest = s.substring_char(i, n);
        assert(rest@ =~= s@.skip(i as int));
    }
    rest
}

/// The text without any of the non-overlapping places, from the left, at which
/// `part` occurs in it.
pub open spec fn removed(s: Seq<char>, part: Seq<char>) -> Seq<char>
    decreases s.len(),
{
    if part.len() == 0 || s.len() == 0 {
        s
    } else if begins_with(s, part) {
        removed(s.skip(part.len() as int), part)
    } else {
        seq![s[0]] + removed(s.skip(1), part)
    }
}

pub fn remove_all(s: &str, part: &str) -> (r: String)
    ensures
        r@ == removed(s@, part@),
{
    let n: usize = s.unicode_len();
    let k: usize = part.unicode_len();
    if k == 0 {
        return s.to_owned();
    }
    let mut out = String::new();
    let mut i: usize = 0;
    assert(s@.skip(0) =~= s@);
    assert(out@ + removed(s@.skip(0), part@) =~= removed(s@, part@));
    while i < n
        invariant
            n == s@.len(),
            k == part@.len(),
            k > 0,
            i <= n,
            out@ + removed(s@.skip(i as int), part@) == removed(s@, part@),
        decreases n - i,
    {
        let ghost rest = s@.skip(i as int);
        let tail = s.substring_char(i, n);
        assert(tail@ =~= rest);
        if starts_with(tail, part) {
            assert(rest.skip(k as int) =~= s@.skip(i + k));
            i = i + k;
        } else {
            let c = s.substring_char(i, i + 1);
            assert(c@ =~= seq![rest[0]]);
            assert(rest.skip(1) =~= s@.skip(i + 1));
            let ghost so_far = out@;
            out.append(c);
            assert(out@ + removed(rest.skip(1), part@) =~= so_far + (seq![rest[0]] + removed(rest.skip(1), part@)));
            i = i + 1;
        }
    }
    assert(s@.skip(n as int) =~= Seq::empty());
    assert(out@ =~= removed(s@, part@));
    out
}

/// The part of the text before the first white space.
pub open spec fn word(s: Seq<char>) -> Seq<char>
    decreases s.len(),
{
    if s.len() == 0 || is_white(s[0]) {
        Seq::empty()
    } else {
        seq![s[0]] + word(s.skip(1))
    }
}

/// The words of the text: its parts between white space.
pub open spec fn words(s: Seq<char>) -> Seq<Seq<char>>
    decreases s.len(),
{
    let t = trimmed_start(s);
    if t.len() == 0 {
        Seq::empty()
    } else {
        proof {
            trimmed_start_facts(s);
            word_facts(t);
        }
        seq![word(t)] + words(t.skip(word(t).len() as int))
    }
}

pub proof fn word_facts(s: Seq<char>)
    ensures
        word(s).len() <= s.len(),
        word(s) == s.take(word(s).len() as int),
        word(s).len() == s.len() || is_white(s[word(s).len() as int]),
        s.len() > 0 && !is_white(s[0]) ==> word(s).len() > 0,
    decreases s.len(),
{
    if s.len() > 0 && !is_white(s[0]) {
        word_facts(s.skip(1));
        assert(word(s) =~= s.take(word(s).len() as int));
    }
}

pub proof fn trimmed_start_facts(s: Seq<char>)
    ensures
        trimmed_start(s).len() <= s.len(),
        trimmed_start(s).len() > 0 ==> !is_white(trimmed_start(s)[0]),
    decreases s.len(),
{
    if s.len() > 0 && is_white(s[0]) {
        trimmed_start_facts(s.skip(1));
    }
}

/// The word at the start of the text and what is behind it.
fn split_word(s: &str) -> (r: (&str, &str))
    ensures
        r.0@ == word(s@),
        r.1@ == s@.skip(word(s@).len() as int),
{
    let n: usize = s.unicode_len();
    let mut i: usize = 0;
    assert(s@.skip(0) =~= s@);
    assert(s@.take(0) + word(s@) =~= word(s@));
    while i < n && !white(s.get_char(i))
        invariant
            n == s@.len(),
            i <= n,
            word(s@) == s@.take(i as int) + word(s@.skip(i as int)),
        decreases n - i,
    {
        let ghost rest = s@.skip(i as int);
        assert(rest.skip(1) =~= s@.skip(i + 1));
        assert(s@.take(i as int) + (seq![rest[0]] + word(rest.skip(1))) =~= s@.take(i + 1) + word(s@.skip(i + 1)));
        i = i + 1;
    }
    let head = s.substring_char(0, i);
    let tail = s.substring_char(i, n);
    assert(head@ =~= word(s@));
    assert(tail@ =~= s@.skip(i as int));
    (head, tail)
}

/// The first two words of the text.
pub fn first_words(s: &str) -> (r: (Option<&str>, Option<&str>))
    ensures
        match r.0 {
            Some(w) => words(s@).len() > 0 && w@ == words(s@)[0],
            None => words(s@).len() == 0,
        },
        match r.1 {
            Some(w) => words(s@).len() > 1 && w@ == words(s@)[1],
            None => words(s@).len() <= 1,
        },
{
    let t = trim_start(s);
    proof {
        trimmed_start_facts(s@);
        word_facts(t@);
    }
    if t.unicode_len() == 0 {
        return (None, None);
    }
    let (first, tail) = split_word(t);
    let u = trim_start(tail);
    proof {
        trimmed_start_facts(tail@);
        word_facts(u@);
        assert(words(s@) == seq![word(t@)] + words(tail@));
    }
    if u.unicode_len() == 0 {
        return (Some(first), None);
    }
    let (second, more) = split_word(u);
    proof {
        assert(words(tail@) == seq![word(u@)] + words(more@));
    }
    (Some(first), Some(second))
}

// ---- numbers ----

/// The digit that a character is.
pub open spec fn digit_of(c: char) -> Option<nat> {
    if '0' <= c <= '9' { Some((c as nat - '0' as nat) as nat) } else { None }
}

/// The number that a row of digits spells.
pub open spec fn digits_value(s: Seq<char>) -> Option<nat>
    decreases s.len(),
{
    if s.len() == 0 {
        Some(0)
    } else {
        match (digits_value(s.drop_last()), digit_of(s.last())) {
            (Some(n), Some(d)) => Some(n * 10 + d),
            _ => None,
        }
    }
}

/// The number that a text spells, with or without a plus sign, if it fits.
pub open spec fn number_of(s: Seq<char>) -> Option<nat> {
    let t = if s.len() > 0 && s[0] == '+' { s.skip(1) } else { s };
    if t.len() == 0 {
        None
    } else {
        match digits_value(t) {
            Some(n) => if n <= u64::MAX { Some(n) } else { None },
            None => None,
        }
    }
}

proof fn digits_prefix(s: Seq<char>, n: int)
    requires
        0 <= n <= s.len(),
    ensures
        digits_value(s) matches Some(v) ==> (digits_value(s.take(n)) matches Some(u) && u <= v),
    decreases s.len(),
{
    if n == s.len() {
        assert(s.take(n) =~= s);
    } else {
        digits_prefix(s.drop_last(), n);
        assert(s.drop_last().take(n) =~= s.take(n));
    }
}

/// Read a number that fits into 64 bits.
pub fn parse_number(s: &str) -> (r: Option<u64>)
    ensures
        match r {
            Some(n) => number_of(s@) == Some(n as nat),
            None => number_of(s@) is None,
        },
{
    let len: usize = s.unicode_len();
    let start: usize = if len > 0 && s.get_char(0) == '+' { 1 } else { 0 };
    if start == len {
        assert(len == 1 ==> s@.skip(1) =~= Seq::empty());
        return None;
    }
    let ghost t = if s@.len() > 0 && s@[0] == '+' { s@.skip(1) } else { s@ };
    let mut n: u64 = 0;
    let mut i: usize = start;
    assert(t.take(0) =~= Seq::empty());
    while i < len
        invariant
            len == s@.len(),
            start <= i <= len,
            start <= 1,
            t == s@.skip(start as int),
            t == (if s@.len() > 0 && s@[0] == '+' { s@.skip(1) } else { s@ }),
            t.len() > 0,
            digits_value(t.take(i - start)) == Some(n as nat),
        decreases len - i,
    {
        let c = s.get_char(i);
        proof {
            let k = i - start;
            assert(t.take(k + 1).drop_last() =~= t.take(k));
            assert(t.take(k + 1).last() == c);
            digits_prefix(t, k + 1);
        }
        if !('0' <= c && c <= '9') {
            return None;
        }
        let d: u64 = (c as u32 - '0' as u32) as u64;
        match n.checked_mul(10) {
            Some(m) => match m.checked_add(d) {
                Some(v) => {
                    n = v;
                },
                None => {
                    return None;
                },
            },
            None => {
                return None;
            },
        }
        i = i + 1;
    }
    assert(t.take(len - start) =~= t);
    Some(n)
}

// ---- joining ----

/// The texts one behind the other, with `sep` between them.
pub open spec fn joined(parts: Seq<Seq<char>>, sep: Seq<char>) -> Seq<char>
    decreases parts.len(),
{
    if parts.len() == 0 {
        Seq::empty()
    } else if parts.len() == 1 {
        parts[0]
    } else {
        joined(parts.drop_last(), sep) + sep + parts.last()
    }
}

pub open spec fn texts(parts: Seq<String>) -> Seq<Seq<char>> {
    parts.map_values(|s: String| s@)
}

pub fn join(parts: &Vec<String>, sep: &str) -> (r: String)
    ensures
        r@ == joined(texts(parts@), sep@),
{
    let ghost all = texts(parts@);
    let mut out = String::new();
    let mut i: usize = 0;
    assert(all.take(0) =~= Seq::empty());
    while i < parts.len()
        invariant
            i <= parts@.len(),
            all == texts(parts@),
            out@ == joined(all.take(i as int), sep@),
        decreases parts@.len() - i,
    {
        assert(all.take(i + 1).drop_last() =~= all.take(i as int));
        assert(all.take(i + 1).last() == parts@[i as int]@);
        if i > 0 {
            out.append(sep);
        }
        let ghost so_far = out@;
        out.append(parts[i].as_str());
        assert(i == 0 ==> out@ =~= parts@[0]@);
        i = i + 1;
    }
    assert(all.take(parts@.len() as int) =~= all);
    out
}

/// No texts.
pub fn no_texts() -> (r: Vec<String>)
    ensures
        texts(r@) == Seq::<Seq<char>>::empty(),
{
    let r: Vec<String> = Vec::new();
    assert(texts(r@) =~= Seq::<Seq<char>>::empty());
    r
}

/// Put a text behind the others.
pub fn append_text(list: &mut Vec<String>, s: String)
    ensures
        texts(final(list)@) == texts(old(list)@).push(s@),
{
    list.push(s);
    assert(texts(list@) =~= texts(old(list)@).push(s@));
}

// ---- templates ----

/// Whether the text begins with an empty pair of braces.
pub open spec fn opens_gap(s: Seq<char>) -> bool {
    s.len() >= 2 && s[0] == '{' && s[1] == '}'
}

/// The template with the arguments put in place of its gaps, which are written
/// as an empty pair of braces.
pub open spec fn filled(template: Seq<char>, args: Seq<Seq<char>>) -> Seq<char>
    decreases template.len(),
{
    if template.len() == 0 {
        Seq::empty()
    } else if opens_gap(template) && args.len() > 0 {
        args[0] + filled(template.skip(2), args.skip(1))
    } else {
        seq![template[0]] + filled(template.skip(1), args)
    }
}

/// The template with its gaps filled in.
pub fn fill(template: &str, args: &Vec<String>) -> (r: String)
    ensures
        r@ == filled(template@, texts(args@)),
{
    let ghost all = texts(args@);
    let n: usize = template.unicode_len();
    let mut out = String::new();
    let mut i: usize = 0;
    let mut k: usize = 0;
    assert(template@.skip(0) =~= template@);
    assert(all.skip(0) =~= all);
    assert(out@ + filled(template@, all) =~= filled(template@, all));
    while i < n
        invariant
            n == template@.len(),
            i <= n,
            all == texts(args@),
            k <= args@.len() == all.len(),
            out@ + filled(template@.skip(i as int), all.skip(k as int)) == filled(template@, all),
        decreases n - i,
    {
        let ghost rest = template@.skip(i as int);
        let ghost so_far = out@;
        let ghost left = all.skip(k as int);
        if i + 1 < n && template.get_char(i) == '{' && template.get_char(i + 1) == '}' && k < args.len() {
            assert(opens_gap(rest));
            assert(rest.skip(2) =~= template@.skip(i + 2));
            assert(left.skip(1) =~= all.skip(k + 1));
            out.append(args[k].as_str());
            assert(out@ + filled(rest.skip(2), left.skip(1)) =~= so_far + (left[0] + filled(rest.skip(2), left.skip(1))));
            i = i + 2;
            k = k + 1;
        } else {
            assert(!(opens_gap(rest) && left.len() > 0));
            let c = template.substring_char(i, i + 1);
            assert(c@ =~= seq![rest[0]]);
            assert(rest.skip(1) =~= template@.skip(i + 1));
            out.append(c);
            assert(out@ + filled(rest.skip(1), left) =~= so_far + (seq![rest[0]] + filled(rest.skip(1), left)));
            i = i + 1;
        }
    }
    assert(template@.skip(n as int) =~= Seq::empty());
    assert(out@ =~= filled(template@, all));
    out
}

/// The first `n` characters, or all where there are fewer.
pub open spec fn shortened(s: Seq<char>, n: nat) -> Seq<char> {
    if s.len() <= n { s } else { s.take(n as int) }
}

pub fn shorten(s: &str, n: usize) -> (r: String)
    ensures
        r@ == shortened(s@, n as nat),
{
    if s.unicode_len() <= n {
        s.to_owned()
    } else {
        let t = s.substring_char(0, n);
        assert(t@ =~= s@.take(n as int));
        t.to_owned()
    }
}

// ---- lower case ----

/// The text in lower case, as [`str::to_lowercase`] has it.
pub uninterp spec fn lowered(s: Seq<char>) -> Seq<char>;

/// `str::to_lowercase` maps the characters to lower case by the Unicode
/// derived core property. Its result is named by [`lowered`].
#[verifier::external_body]
pub(crate) fn lowercase(s: &str) -> (r: String)
    ensures
        r@ == lowered(s@),
{
    s.to_lowercase()
}

} // verus!
