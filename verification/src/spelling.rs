//! What texts, numbers and settings are: how they are cut up, spelt out and read
//! back.

use vstd::prelude::*;
use crate::config::{place_of, setting_of, settings_of, unquoted, unquoted_end, unquoted_start};
use crate::text::{
    begins_with, decimal, digit, digit_of, digits_value, filled, is_white, joined, number_of, removed, shortened,
    trimmed, trimmed_end, trimmed_start, word, words,
};

verus! {

// ---- numbers ----

/// A number that is spelt out is read back, spelt without a sign and without a leading
/// zero.
pub proof fn a_number_is_read_back(n: nat)
    ensures
        digits_value(decimal(n)) == Some(n),
        decimal(n).len() > 0,
        n > 0 ==> decimal(n)[0] != '0',
        forall|i: int| 0 <= i < decimal(n).len() ==> '0' <= #[trigger] decimal(n)[i] <= '9',
        n <= u64::MAX ==> number_of(decimal(n)) == Some(n),
        n > u64::MAX ==> number_of(decimal(n)) is None,
    decreases n,
{
    let s = decimal(n);
    digit_is_read(n % 10);
    if n >= 10 {
        a_number_is_read_back(n / 10);
        assert(s.drop_last() =~= decimal(n / 10));
        assert(s[0] == decimal(n / 10)[0]);
    } else {
        assert(n % 10 == n);
        assert(s.drop_last() =~= Seq::<char>::empty());
        assert(digits_value(s.drop_last()) == Some(0nat));
    }
    assert(s.last() == digit(n % 10));
    assert forall|i: int| 0 <= i < s.len() implies '0' <= #[trigger] s[i] <= '9' by {
        if i < s.len() - 1 {
            assert(s[i] == decimal(n / 10)[i]);
        }
    }
}

proof fn digit_is_read(d: nat)
    requires
        d < 10,
    ensures
        digit_of(digit(d)) == Some(d),
        '0' <= digit(d) <= '9',
        d > 0 ==> digit(d) != '0',
{
}

/// Different numbers are spelt differently.
pub proof fn numbers_are_told_apart(a: nat, b: nat)
    requires
        decimal(a) == decimal(b),
    ensures
        a == b,
{
    a_number_is_read_back(a);
    a_number_is_read_back(b);
}

/// What is read as a number is nothing but digits, behind one plus at most; each digit
/// counts ten times the one behind it.
pub proof fn only_digits_are_a_number(s: Seq<char>, c: char)
    ensures
        digits_value(s) is Some ==> forall|i: int| 0 <= i < s.len() ==> '0' <= #[trigger] s[i] <= '9',
        digits_value(s) is Some && '0' <= c <= '9' ==> digits_value(s.push(c)) == Some(
            (digits_value(s)->0 * 10 + (c as nat - '0' as nat)) as nat,
        ),
        !('0' <= c <= '9') ==> digits_value(s.push(c)) is None,
        number_of(Seq::<char>::empty()) is None,
    decreases s.len(),
{
    assert(s.push(c).drop_last() =~= s);
    if s.len() > 0 && digits_value(s) is Some {
        only_digits_are_a_number(s.drop_last(), c);
        assert forall|i: int| 0 <= i < s.len() implies '0' <= #[trigger] s[i] <= '9' by {
            if i < s.len() - 1 {
                assert(s.drop_last()[i] == s[i]);
            }
        }
    }
}

// ---- white space ----

/// Whether every character is white space.
pub open spec fn blank(s: Seq<char>) -> bool {
    forall|i: int| 0 <= i < s.len() ==> is_white(#[trigger] s[i])
}

/// White space around a text is trimmed off, and nothing else.
pub proof fn what_is_trimmed(before: Seq<char>, s: Seq<char>, after: Seq<char>)
    requires
        blank(before),
        blank(after),
        s.len() > 0 ==> !is_white(s[0]) && !is_white(s.last()),
    ensures
        trimmed(before + s + after) == s,
{
    let t = s + after;
    assert(before + s + after =~= before + t);
    trimmed_in_front(before, t);
    if s.len() > 0 {
        assert(t[0] == s[0]);
        assert(trimmed_start(t) == t);
        trimmed_behind(s, after);
    } else {
        assert(t =~= after);
        all_blank(after);
        assert(s =~= Seq::<char>::empty());
    }
}

proof fn all_blank(s: Seq<char>)
    requires
        blank(s),
    ensures
        trimmed_start(s).len() == 0,
        trimmed(s) == Seq::<char>::empty(),
    decreases s.len(),
{
    if s.len() > 0 {
        assert(is_white(s[0]));
        assert forall|i: int| 0 <= i < s.skip(1).len() implies is_white(#[trigger] s.skip(1)[i]) by {
            assert(s.skip(1)[i] == s[i + 1]);
        }
        all_blank(s.skip(1));
    }
    assert(trimmed(s) =~= Seq::<char>::empty());
}

proof fn trimmed_in_front(before: Seq<char>, t: Seq<char>)
    requires
        blank(before),
    ensures
        trimmed_start(before + t) == trimmed_start(t),
    decreases before.len(),
{
    if before.len() > 0 {
        let all = before + t;
        assert(is_white(before[0]));
        assert(all[0] == before[0]);
        assert forall|i: int| 0 <= i < before.skip(1).len() implies is_white(#[trigger] before.skip(1)[i]) by {
            assert(before.skip(1)[i] == before[i + 1]);
        }
        assert(all.skip(1) =~= before.skip(1) + t);
        trimmed_in_front(before.skip(1), t);
    } else {
        assert(before + t =~= t);
    }
}

proof fn trimmed_behind(s: Seq<char>, after: Seq<char>)
    requires
        s.len() > 0,
        !is_white(s.last()),
        blank(after),
    ensures
        trimmed_end(s + after) == s,
    decreases after.len(),
{
    let all = s + after;
    if after.len() > 0 {
        assert(is_white(after[after.len() - 1]));
        assert(all.last() == after[after.len() - 1]);
        assert(all.drop_last() =~= s + after.drop_last());
        assert forall|i: int| 0 <= i < after.drop_last().len() implies is_white(#[trigger] after.drop_last()[i]) by {
            assert(after.drop_last()[i] == after[i]);
        }
        trimmed_behind(s, after.drop_last());
    } else {
        assert(all =~= s);
    }
}

// ---- words ----

/// Whether a text is a word: not empty, and without white space.
pub open spec fn is_word(w: Seq<char>) -> bool {
    w.len() > 0 && forall|i: int| 0 <= i < w.len() ==> !is_white(#[trigger] w[i])
}

/// A text is cut into its words at white space: the first word in front of any is the
/// first one, and the others are those of what stands behind.
pub proof fn how_a_text_is_cut_up(before: Seq<char>, w: Seq<char>, after: Seq<char>)
    requires
        blank(before),
        is_word(w),
        after.len() > 0 ==> is_white(after[0]),
    ensures
        words(before + w + after) == seq![w] + words(after),
{
    let t = w + after;
    assert(before + w + after =~= before + t);
    trimmed_in_front(before, t);
    assert(!is_white(w[0]));
    assert(t[0] == w[0]);
    assert(trimmed_start(t) == t);
    word_in_front(w, after);
    assert(t.skip(w.len() as int) =~= after);
}

proof fn word_in_front(w: Seq<char>, after: Seq<char>)
    requires
        forall|i: int| 0 <= i < w.len() ==> !is_white(#[trigger] w[i]),
        after.len() > 0 ==> is_white(after[0]),
    ensures
        word(w + after) == w,
    decreases w.len(),
{
    let t = w + after;
    if w.len() > 0 {
        assert(!is_white(w[0]));
        assert(t[0] == w[0]);
        assert(t.skip(1) =~= w.skip(1) + after);
        assert forall|i: int| 0 <= i < w.skip(1).len() implies !is_white(#[trigger] w.skip(1)[i]) by {
            assert(w.skip(1)[i] == w[i + 1]);
        }
        word_in_front(w.skip(1), after);
        assert(word(t) =~= w);
    } else {
        assert(t =~= after);
        assert(word(t) =~= w);
    }
}

/// Nothing but white space has no words.
pub proof fn a_blank_text_has_no_words(s: Seq<char>)
    requires
        blank(s),
    ensures
        words(s).len() == 0,
{
    all_blank(s);
}

// ---- parts of texts ----

/// Taking a part out: each time it stands in front it goes, and a character in front of
/// which it does not stand stays.
pub proof fn what_is_taken_out(part: Seq<char>, s: Seq<char>, c: char)
    requires
        part.len() > 0,
    ensures
        removed(part + s, part) == removed(s, part),
        !begins_with(seq![c] + s, part) ==> removed(seq![c] + s, part) == seq![c] + removed(s, part),
        removed(Seq::<char>::empty(), part) == Seq::<char>::empty(),
{
    let t = part + s;
    assert(t.take(part.len() as int) =~= part);
    assert(t.skip(part.len() as int) =~= s);
    let u = seq![c] + s;
    assert(u.skip(1) =~= s);
}

/// A text is shortened from behind, and only where it is too long.
pub proof fn what_is_shortened(s: Seq<char>, n: nat)
    ensures
        shortened(s, n).len() == (if s.len() <= n { s.len() } else { n }),
        forall|i: int| 0 <= i < shortened(s, n).len() ==> #[trigger] shortened(s, n)[i] == s[i],
{
}

/// Texts are joined in order, with the mark between them and nowhere else.
pub proof fn how_texts_are_joined(parts: Seq<Seq<char>>, last: Seq<char>, mark: Seq<char>)
    ensures
        joined(Seq::<Seq<char>>::empty(), mark) == Seq::<char>::empty(),
        joined(seq![last], mark) == last,
        parts.len() > 0 ==> joined(parts.push(last), mark) == joined(parts, mark) + mark + last,
{
    assert(parts.push(last).drop_last() =~= parts);
}

/// A template's first gap takes the first text, what is behind it the others; text
/// without a gap stays as it is.
pub proof fn how_a_template_is_filled(front: Seq<char>, back: Seq<char>, args: Seq<Seq<char>>)
    requires
        forall|i: int| 0 <= i < front.len() ==> #[trigger] front[i] != '{',
    ensures
        args.len() > 0 ==> filled(front + seq!['{', '}'] + back, args) == front + args[0] + filled(back, args.skip(1)),
        filled(front, args) == front,
    decreases front.len(),
{
    let whole = front + seq!['{', '}'] + back;
    if front.len() == 0 {
        assert(front =~= Seq::<char>::empty());
        assert(whole =~= seq!['{', '}'] + back);
        assert(whole.skip(2) =~= back);
        if args.len() > 0 {
            assert(filled(whole, args) =~= front + args[0] + filled(back, args.skip(1)));
        }
    } else {
        let rest = front.skip(1);
        assert(front[0] != '{');
        assert forall|i: int| 0 <= i < rest.len() implies #[trigger] rest[i] != '{' by {
            assert(rest[i] == front[i + 1]);
        }
        how_a_template_is_filled(rest, back, args);
        assert(whole[0] == front[0]);
        assert(whole.skip(1) =~= rest + seq!['{', '}'] + back);
        if args.len() > 0 {
            assert(filled(whole, args) =~= front + args[0] + filled(back, args.skip(1)));
        }
        assert(filled(front, args) =~= front);
    }
}

// ---- settings ----

/// Whether the text neither begins nor ends with white space or a quote.
pub open spec fn is_bare(s: Seq<char>) -> bool {
    s.len() > 0 ==> {
        &&& !is_white(s[0]) && !is_white(s.last())
        &&& s[0] != '"' && s[0] != '\'' && s.last() != '"' && s.last() != '\''
    }
}

proof fn found_at(s: Seq<char>, c: char, k: int)
    requires
        0 <= k <= s.len(),
        k < s.len() ==> s[k] == c,
        forall|i: int| 0 <= i < k ==> #[trigger] s[i] != c,
    ensures
        place_of(s, c) == k,
    decreases s.len(),
{
    if s.len() > 0 && k > 0 {
        assert(s[0] != c);
        let t = s.skip(1);
        assert forall|i: int| 0 <= i < k - 1 implies #[trigger] t[i] != c by {
            assert(t[i] == s[i + 1]);
        }
        found_at(t, c, k - 1);
    }
}

proof fn bare_stays(s: Seq<char>, c: char)
    requires
        s.len() > 0 ==> s[0] != c && s.last() != c,
    ensures
        unquoted(s, c) == s,
{
}

proof fn quotes_go(s: Seq<char>, c: char)
    requires
        s.len() > 0 ==> s[0] != c && s.last() != c,
    ensures
        unquoted(seq![c] + s + seq![c], c) == s,
{
    let q = seq![c] + s + seq![c];
    let t = s + seq![c];
    assert(q[0] == c);
    assert(q.skip(1) =~= t);
    assert(unquoted_start(q, c) == unquoted_start(t, c));
    if s.len() > 0 {
        assert(t[0] == s[0]);
        assert(unquoted_start(t, c) == t);
        assert(t.last() == c);
        assert(t.drop_last() =~= s);
        assert(unquoted_end(t, c) == unquoted_end(s, c));
    } else {
        assert(t =~= seq![c]);
        assert(t.skip(1) =~= s);
        assert(unquoted_start(s, c) == s);
        assert(unquoted_start(t, c) == s);
        assert(unquoted_end(s, c) == s);
    }
}

/// A line `name=value` is a setting, whatever blanks are around the two; the value may
/// stand in quotes, and may hold further equals signs.
pub proof fn a_setting_is_read(a: Seq<char>, name: Seq<char>, b: Seq<char>, c: Seq<char>, value: Seq<char>, d: Seq<char>)
    requires
        blank(a) && blank(b) && blank(c) && blank(d),
        name.len() > 0,
        !is_white(name[0]) && !is_white(name.last()),
        name[0] != '#',
        forall|i: int| 0 <= i < name.len() ==> #[trigger] name[i] != '=',
        value.len() > 0,
        is_bare(value),
    ensures
        setting_of(a + (name + b + seq!['='] + c + value) + d) == Some((name, value)),
        setting_of(a + (name + b + seq!['='] + c + seq!['"'] + value + seq!['"']) + d) == Some((name, value)),
        setting_of(a + (name + b + seq!['='] + c + seq!['\''] + value + seq!['\'']) + d) == Some((name, value)),
{
    let none: Seq<char> = Seq::empty();
    a_spelt_setting(a, name, b, c, value, d);
    bare_stays(value, '"');
    bare_stays(value, '\'');
    let twice = seq!['"'] + value + seq!['"'];
    a_spelt_setting(a, name, b, c, twice, d);
    quotes_go(value, '"');
    assert(name + b + seq!['='] + c + seq!['"'] + value + seq!['"'] =~= name + b + seq!['='] + c + twice);
    let once = seq!['\''] + value + seq!['\''];
    a_spelt_setting(a, name, b, c, once, d);
    bare_stays(once, '"');
    quotes_go(value, '\'');
    assert(name + b + seq!['='] + c + seq!['\''] + value + seq!['\''] =~= name + b + seq!['='] + c + once);
}

proof fn a_spelt_setting(a: Seq<char>, name: Seq<char>, b: Seq<char>, c: Seq<char>, value: Seq<char>, d: Seq<char>)
    requires
        blank(a) && blank(b) && blank(c) && blank(d),
        name.len() > 0,
        !is_white(name[0]) && !is_white(name.last()),
        name[0] != '#',
        forall|i: int| 0 <= i < name.len() ==> #[trigger] name[i] != '=',
        value.len() > 0,
        !is_white(value[0]) && !is_white(value.last()),
    ensures
        setting_of(a + (name + b + seq!['='] + c + value) + d) == Some((name, unquoted(unquoted(value, '"'), '\''))),
{
    let t = name + b + seq!['='] + c + value;
    assert(t[0] == name[0]);
    assert(t.last() == value.last());
    what_is_trimmed(a, t, d);
    let k = (name.len() + b.len()) as int;
    assert(t[k] == '=');
    assert forall|i: int| 0 <= i < k implies #[trigger] t[i] != '=' by {
        if i < name.len() {
            assert(t[i] == name[i]);
        } else {
            assert(t[i] == b[i - name.len()]);
            assert(is_white(b[i - name.len()]));
        }
    }
    found_at(t, '=', k);
    let none: Seq<char> = Seq::empty();
    assert(t.take(k) =~= none + name + b);
    what_is_trimmed(none, name, b);
    assert(t.skip(k + 1) =~= c + value + none);
    what_is_trimmed(c, value, none);
}

/// Blank lines, comments and lines without an equals sign are no settings.
pub proof fn what_is_no_setting(a: Seq<char>, s: Seq<char>, d: Seq<char>)
    requires
        blank(a) && blank(d),
        s.len() > 0 ==> !is_white(s[0]) && !is_white(s.last()),
        s.len() == 0 || s[0] == '#' || forall|i: int| 0 <= i < s.len() ==> #[trigger] s[i] != '=',
    ensures
        setting_of(a + s + d) is None,
{
    what_is_trimmed(a, s, d);
    if s.len() > 0 && s[0] != '#' {
        found_at(s, '=', s.len() as int);
    }
}

/// The settings of a file are those of its lines, in order.
pub proof fn each_line_is_read(line: Seq<char>, rest: Seq<char>)
    requires
        forall|i: int| 0 <= i < line.len() ==> #[trigger] line[i] != '\n',
    ensures
        settings_of(line + seq!['\n'] + rest) == (match setting_of(line) {
            Some(s) => seq![s] + settings_of(rest),
            None => settings_of(rest),
        }),
        settings_of(line) == (match setting_of(line) {
            Some(s) => seq![s],
            None => Seq::<(Seq<char>, Seq<char>)>::empty(),
        }),
{
    let all = line + seq!['\n'] + rest;
    let k = line.len() as int;
    assert(all[k] == '\n');
    assert forall|i: int| 0 <= i < k implies #[trigger] all[i] != '\n' by {
        assert(all[i] == line[i]);
    }
    found_at(all, '\n', k);
    assert(all.take(k) =~= line);
    assert(all.skip(k + 1) =~= rest);
    found_at(line, '\n', k);
    assert(line.take(k) =~= line);
    if setting_of(line) is None {
        let none: Seq<(Seq<char>, Seq<char>)> = Seq::empty();
        assert(none + settings_of(rest) =~= settings_of(rest));
    }
}

} // verus!
