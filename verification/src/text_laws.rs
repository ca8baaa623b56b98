//! What texts are after they were trimmed, searched, split, joined and read as numbers.

use vstd::prelude::*;

use crate::json::{JsonView, NumberView};
use crate::json_text;
use crate::reading;
use crate::text;

verus! {

// ---------------------------------------------------------------------------
// White space
// ---------------------------------------------------------------------------

proof fn lemma_trimmed_start(s: Seq<char>)
    ensures
        ({
            let t = text::trim_start_of(s);
            &&& t.len() <= s.len()
            &&& t == s.skip(s.len() - t.len())
            &&& reading::is_blank(s.take(s.len() - t.len()))
            &&& t.len() > 0 ==> !text::white_space(t[0])
        }),
    decreases s.len(),
{
    let t = text::trim_start_of(s);
    if s.len() > 0 && text::white_space(s[0]) {
        let rest = s.drop_first();
        lemma_trimmed_start(rest);
        let n = s.len() - t.len();
        assert(rest.skip(n - 1) =~= s.skip(n));
        assert forall|i: int| 0 <= i < n implies text::white_space(#[trigger] s.take(n)[i]) by {
            if i > 0 {
                assert(rest.take(n - 1)[i - 1] == s[i]);
            }
        }
    } else {
        assert(s.skip(0) =~= s);
    }
}

proof fn lemma_trimmed_end(s: Seq<char>)
    ensures
        ({
            let t = text::trim_end_of(s);
            &&& t.len() <= s.len()
            &&& t == s.take(t.len() as int)
            &&& reading::is_blank(s.skip(t.len() as int))
            &&& t.len() > 0 ==> !text::white_space(t.last())
        }),
    decreases s.len(),
{
    let t = text::trim_end_of(s);
    if s.len() > 0 && text::white_space(s.last()) {
        let rest = s.drop_last();
        lemma_trimmed_end(rest);
        assert(rest.take(t.len() as int) =~= s.take(t.len() as int));
        assert forall|i: int| 0 <= i < s.skip(t.len() as int).len() implies text::white_space(
            #[trigger] s.skip(t.len() as int)[i],
        ) by {
            if i + t.len() < rest.len() {
                assert(rest.skip(t.len() as int)[i] == s[i + t.len()]);
            }
        }
    } else {
        assert(s.take(s.len() as int) =~= s);
    }
}

/// What is trimmed off a text is white space alone, at its start and at its end, and none is left
/// there.
pub proof fn law_trimming_takes_white_space_off_the_ends(s: Seq<char>)
    ensures
        ({
            let t = text::trim_of(s);
            &&& exists|i: int|
                #![trigger s.take(i)]
                {
                    &&& 0 <= i <= s.len() - t.len()
                    &&& s == s.take(i) + t + s.skip(i + t.len())
                    &&& reading::is_blank(s.take(i))
                    &&& reading::is_blank(s.skip(i + t.len()))
                }
            &&& t.len() > 0 ==> !text::white_space(t[0]) && !text::white_space(t.last())
        }),
{
    let a = text::trim_start_of(s);
    let t = text::trim_of(s);
    lemma_trimmed_start(s);
    lemma_trimmed_end(a);
    let i = s.len() - a.len();
    assert(s.take(i) + t + s.skip(i + t.len()) =~= s);
    assert(a.skip(t.len() as int) =~= s.skip(i + t.len()));
    if t.len() > 0 {
        assert(t[0] == a[0]);
    }
}

/// Nothing is left of a blank text, and something of any other; a text without white space at its
/// ends stays as it is.
pub proof fn law_trimming_leaves_the_rest(s: Seq<char>)
    ensures
        text::trim_of(s).len() == 0 <==> reading::is_blank(s),
        s.len() > 0 && !text::white_space(s[0]) && !text::white_space(s.last()) ==> text::trim_of(s) == s,
        text::trimmed_some(None) is None,
        text::trimmed_some(Some(s)) is Some <==> !reading::is_blank(s),
        text::trimmed_some(Some(s)) matches Some(t) ==> t == text::trim_of(s),
{
    law_trimming_takes_white_space_off_the_ends(s);
    let t = text::trim_of(s);
    let i = choose|i: int|
        #![trigger s.take(i)]
        0 <= i <= s.len() - t.len() && s == s.take(i) + t + s.skip(i + t.len()) && reading::is_blank(s.take(i))
            && reading::is_blank(s.skip(i + t.len()));
    if t.len() > 0 {
        assert(s[i] == t[0]);
    } else {
        assert forall|k: int| 0 <= k < s.len() implies text::white_space(#[trigger] s[k]) by {
            if k < i {
                assert(s.take(i)[k] == s[k]);
            } else {
                assert(s.skip(i)[k - i] == s[k]);
            }
        }
    }
}

/// Among the characters of ASCII, white space is the blank, the tab and the line ends.
pub proof fn law_white_space_of_ascii(c: char)
    requires
        c < 128 as char,
    ensures
        text::white_space(c) <==> c == ' ' || c == '\t' || c == '\n' || c == '\r' || c == 11 as char || c == 12 as char,
{
}

// ---------------------------------------------------------------------------
// Searching
// ---------------------------------------------------------------------------

/// A character is found where it stands first.
pub proof fn law_first_character_is_found(s: Seq<char>, c: char, from: int)
    requires
        0 <= from,
    ensures
        match text::char_from(s, c, from) {
            Some(i) => from <= i < s.len() && s[i] == c && forall|k: int| from <= k < i ==> #[trigger] s[k] != c,
            None => forall|k: int| from <= k < s.len() ==> #[trigger] s[k] != c,
        },
    decreases s.len() - from,
{
    if from < s.len() && s[from] != c {
        law_first_character_is_found(s, c, from + 1);
    }
}

/// A character is found where it stands last.
pub proof fn law_last_character_is_found(s: Seq<char>, c: char, end: int)
    requires
        end <= s.len(),
    ensures
        match text::char_before(s, c, end) {
            Some(i) => 0 <= i < end && s[i] == c && forall|k: int| i < k < end ==> #[trigger] s[k] != c,
            None => forall|k: int| 0 <= k < end ==> #[trigger] s[k] != c,
        },
    decreases end,
{
    if 0 < end && s[end - 1] != c {
        law_last_character_is_found(s, c, end - 1);
    }
}

/// Whether a pattern stands at a place of a text.
pub open spec fn stands_at(s: Seq<char>, pat: Seq<char>, i: int) -> bool {
    0 <= i && i + pat.len() <= s.len() && s.subrange(i, i + pat.len()) == pat
}

/// A pattern is found where it stands first.
pub proof fn law_first_occurrence_is_found(s: Seq<char>, pat: Seq<char>, from: int)
    requires
        0 <= from,
    ensures
        match text::text_from(s, pat, from) {
            Some(i) => from <= i && stands_at(s, pat, i) && forall|k: int| from <= k < i ==> !#[trigger] stands_at(s, pat, k),
            None => forall|k: int| from <= k ==> !#[trigger] stands_at(s, pat, k),
        },
    decreases s.len() + 1 - from,
{
    if from + pat.len() <= s.len() && s.subrange(from, from + pat.len()) != pat {
        law_first_occurrence_is_found(s, pat, from + 1);
    }
}

/// A text is split at the first separator into what stands before it and behind it.
pub proof fn law_split_texts_make_the_whole(s: Seq<char>, c: char, pat: Seq<char>)
    ensures
        match text::split_char_of(s, c) {
            Some((a, b)) => s == a.push(c) + b && !a.contains(c),
            None => !s.contains(c),
        },
        match text::split_text_of(s, pat) {
            Some((a, b)) => s == a + pat + b && forall|k: int| 0 <= k < a.len() ==> !#[trigger] stands_at(s, pat, k),
            None => forall|k: int| 0 <= k ==> !#[trigger] stands_at(s, pat, k),
        },
{
    law_first_character_is_found(s, c, 0);
    law_first_occurrence_is_found(s, pat, 0);
    if let Some((a, b)) = text::split_char_of(s, c) {
        assert(s =~= a.push(c) + b);
    }
    if let Some((a, b)) = text::split_text_of(s, pat) {
        let i = a.len() as int;
        assert(s =~= s.take(i) + s.subrange(i, i + pat.len()) + s.skip(i + pat.len()));
    }
}

/// A prefix is taken off, and only where it stands in front.
pub proof fn law_prefix_is_taken_off(s: Seq<char>, p: Seq<char>, rest: Seq<char>)
    ensures
        text::after_prefix(p + rest, p) == Some(rest),
        text::after_prefix(s, p) matches Some(r) ==> s == p + r,
        text::has_prefix(s, p) <==> text::after_prefix(s, p) is Some,
        text::has_suffix(rest + p, p),
        text::has_suffix(s, p) ==> s == s.take(s.len() - p.len()) + p,
{
    assert((p + rest).take(p.len() as int) =~= p);
    assert((p + rest).skip(p.len() as int) =~= rest);
    assert((rest + p).skip(rest.len() as int) =~= p);
    if let Some(r) = text::after_prefix(s, p) {
        assert(s =~= s.take(p.len() as int) + r);
    }
    if text::has_suffix(s, p) {
        assert(s =~= s.take(s.len() - p.len()) + s.skip(s.len() - p.len()));
    }
}

/// The last segment of a path holds no slash, and a slash stands before it, where it is not the
/// whole.
pub proof fn law_last_segment_holds_no_slash(s: Seq<char>)
    ensures
        ({
            let last = text::last_segment_of(s);
            &&& !last.contains('/')
            &&& text::has_suffix(s, last)
            &&& last.len() < s.len() ==> s[s.len() - last.len() - 1] == '/'
        }),
{
    law_last_character_is_found(s, '/', s.len() as int);
    let last = text::last_segment_of(s);
    assert(s.skip(s.len() - last.len()) =~= last);
}

// ---------------------------------------------------------------------------
// Replacing and joining
// ---------------------------------------------------------------------------

proof fn lemma_replaced_shift(a: Seq<char>, b: Seq<char>, pat: Seq<char>, with: Seq<char>, from: int)
    requires
        0 <= from <= b.len(),
        pat.len() > 0,
    ensures
        text::replaced_from(a + b, pat, with, a.len() + from) == text::replaced_from(b, pat, with, from),
    decreases b.len() - from,
{
    let s = a + b;
    if from < b.len() {
        if from + pat.len() <= b.len() {
            assert(s.subrange(a.len() + from, a.len() + from + pat.len()) =~= b.subrange(from, from + pat.len()));
            if b.subrange(from, from + pat.len()) == pat {
                lemma_replaced_shift(a, b, pat, with, (from + pat.len()) as int);
            } else {
                lemma_replaced_shift(a, b, pat, with, from + 1);
            }
        } else {
            lemma_replaced_shift(a, b, pat, with, from + 1);
        }
    }
}

proof fn lemma_kept_before(s: Seq<char>, pat: Seq<char>, with: Seq<char>, from: int, at: int)
    requires
        0 <= from <= at <= s.len(),
        pat.len() > 0,
        forall|k: int| from <= k < at ==> !#[trigger] stands_at(s, pat, k),
    ensures
        text::replaced_from(s, pat, with, from) == s.subrange(from, at) + text::replaced_from(s, pat, with, at),
    decreases at - from,
{
    if from < at {
        assert(!stands_at(s, pat, from));
        lemma_kept_before(s, pat, with, from + 1, at);
        assert(seq![s[from]] + s.subrange(from + 1, at) =~= s.subrange(from, at));
        assert(text::replaced_from(s, pat, with, from)
            =~= s.subrange(from, at)
            + text::replaced_from(s, pat, with, at));
    } else {
        assert(text::replaced_from(s, pat, with, from)
            =~= s.subrange(from, at)
            + text::replaced_from(s, pat, with, at));
    }
}

/// A text without the pattern stays as it is; where the pattern stands first, the replacement
/// stands in its place, what is before it stays, and the same is done to what is behind it.
pub proof fn law_replacing_puts_the_text_in_place(
    a: Seq<char>,
    b: Seq<char>,
    pat: Seq<char>,
    with: Seq<char>,
)
    requires
        pat.len() > 0,
    ensures
        (forall|k: int| 0 <= k ==> !#[trigger] stands_at(a, pat, k)) ==> text::replaced_from(a, pat, with, 0) == a,
        (forall|k: int| 0 <= k < a.len() ==> !#[trigger] stands_at(a + pat + b, pat, k)) ==> text::replaced_from(
            a + pat + b,
            pat,
            with,
            0,
        ) == a + with + text::replaced_from(b, pat, with, 0),
{
    if forall|k: int| 0 <= k ==> !#[trigger] stands_at(a, pat, k) {
        lemma_kept_before(a, pat, with, 0, a.len() as int);
        assert(a.subrange(0, a.len() as int) =~= a);
        assert(text::replaced_from(a, pat, with, 0) =~= a);
    }
    let s = a + pat + b;
    if forall|k: int| 0 <= k < a.len() ==> !#[trigger] stands_at(s, pat, k) {
        let n = a.len() as int;
        lemma_kept_before(s, pat, with, 0, n);
        assert(s.subrange(0, n) =~= a);
        assert(s.subrange(n, n + pat.len()) =~= pat);
        lemma_replaced_shift(a + pat, b, pat, with, 0);
        assert(a + with + text::replaced_from(b, pat, with, 0) =~= a + (with + text::replaced_from(b, pat, with, 0)));
    }
}

/// Joined texts stand one behind the other with the separator between them.
pub proof fn law_joined_texts_stand_in_order(a: Seq<Seq<char>>, b: Seq<Seq<char>>, x: Seq<char>, sep: Seq<char>)
    ensures
        text::joined(Seq::empty(), sep).len() == 0,
        text::joined(seq![x], sep) == x,
        a.len() > 0 && b.len() > 0 ==> text::joined(a + b, sep) == text::joined(a, sep) + sep + text::joined(b, sep),
    decreases b.len(),
{
    if a.len() > 0 && b.len() > 0 {
        assert((a + b).drop_last() =~= a + b.drop_last());
        assert((a + b).last() == b.last());
        if b.len() == 1 {
            assert(a + b.drop_last() =~= a);
        } else {
            law_joined_texts_stand_in_order(a, b.drop_last(), x, sep);
        }
        assert(text::joined(a + b, sep) =~= text::joined(a, sep) + sep + text::joined(b, sep));
    }
}

/// A text in small letters is as long as it was; the capital letters of ASCII are small in it, and
/// all other characters are as they were.
pub proof fn law_lowered_text_has_small_letters(s: Seq<char>, i: int)
    ensures
        ({
            let t = text::ascii_lowered(s);
            &&& t.len() == s.len()
            &&& 0 <= i < s.len() ==> {
                &&& 'A' <= s[i] <= 'Z' ==> 'a' <= t[i] <= 'z' && t[i] as int - 'a' as int == s[i] as int - 'A' as int
                &&& !('A' <= s[i] <= 'Z') ==> t[i] == s[i]
            }
        }),
{
}

// ---------------------------------------------------------------------------
// Numbers
// ---------------------------------------------------------------------------

proof fn lemma_decimal_digits(n: nat)
    ensures
        text::decimal(n).len() > 0,
        forall|i: int| 0 <= i < text::decimal(n).len() ==> text::is_digit(#[trigger] text::decimal(n)[i]),
        text::digits_value(text::decimal(n)) == n,
    decreases n,
{
    let s = text::decimal(n);
    if n < 10 {
        reveal_with_fuel(text::digits_value, 2);
        assert(s.drop_last() =~= Seq::<char>::empty());
    } else {
        lemma_decimal_digits(n / 10);
        let d = text::decimal(n / 10);
        assert(s.drop_last() =~= d);
        assert forall|i: int| 0 <= i < s.len() implies text::is_digit(#[trigger] s[i]) by {
            if i < d.len() {
                assert(s[i] == d[i]);
            }
        }
    }
}

/// A number is read back from its decimal notation, with a plus sign in front of it or without.
pub proof fn law_number_is_read_back(n: u64)
    ensures
        text::parsed_u64(text::decimal(n as nat)) == Some(n),
        text::parsed_u64(seq!['+'] + text::decimal(n as nat)) == Some(n),
{
    let d = text::decimal(n as nat);
    lemma_decimal_digits(n as nat);
    assert(text::is_digit(d[0]));
    assert(text::without_plus(d) == d);
    assert((seq!['+'] + d).drop_first() =~= d);
}

/// What is read as a number holds digits alone, behind its plus sign.
pub proof fn law_only_digits_are_read(s: Seq<char>, i: int)
    requires
        text::parsed_u64(s) is Some,
    ensures
        s.len() > 0,
        0 < i < s.len() ==> '0' <= s[i] <= '9',
        s[0] == '+' || '0' <= s[0] <= '9',
        s != seq!['+'],
{
    let d = text::without_plus(s);
    if s.len() > 0 && s[0] == '+' {
        if 0 < i < s.len() {
            assert(d[i - 1] == s[i]);
            assert(text::is_digit(d[i - 1]));
        }
        assert(d.len() == s.len() - 1);
    } else {
        if 0 < i < s.len() {
            assert(text::is_digit(d[i]));
        }
        assert(text::is_digit(d[0]));
    }
}

/// A padded number has the width that is asked for, ends with what it was, and has zeros alone in
/// front of that.
pub proof fn law_padding_puts_zeros_in_front(s: Seq<char>, width: nat, i: int)
    ensures
        ({
            let t = text::zero_padded(s, width);
            &&& t.len() == (if s.len() < width {
                width
            } else {
                s.len()
            })
            &&& text::has_suffix(t, s)
            &&& 0 <= i < t.len() - s.len() ==> t[i] == '0'
        }),
{
    let t = text::zero_padded(s, width);
    assert(t.skip(t.len() - s.len()) =~= s);
}

// ---------------------------------------------------------------------------
// Order
// ---------------------------------------------------------------------------

/// The first characters in which two texts differ decide which of them stands first, and a text
/// stands before all that go on where it ends.
pub proof fn law_first_difference_decides(p: Seq<char>, a: Seq<char>, b: Seq<char>)
    ensures
        text::text_le(p + a, p + b) == text::text_le(a, b),
        a.len() > 0 && b.len() > 0 && a[0] < b[0] ==> text::text_le(a, b) && !text::text_le(b, a),
        text::text_le(p, p + a),
        a.len() > 0 ==> !text::text_le(p + a, p),
    decreases p.len(),
{
    if p.len() > 0 {
        law_first_difference_decides(p.drop_first(), a, b);
        assert((p + a).drop_first() =~= p.drop_first() + a);
        assert((p + b).drop_first() =~= p.drop_first() + b);
    } else {
        assert(p + a =~= a);
        assert(p + b =~= b);
    }
}

/// Two texts of which each stands before or at the other are the same.
pub proof fn law_order_tells_texts_apart(a: Seq<char>, b: Seq<char>)
    requires
        text::text_le(a, b),
        text::text_le(b, a),
    ensures
        a == b,
    decreases a.len(),
{
    if a.len() > 0 && b.len() > 0 {
        law_order_tells_texts_apart(a.drop_first(), b.drop_first());
        assert(a =~= seq![a[0]] + a.drop_first());
        assert(b =~= seq![b[0]] + b.drop_first());
    } else {
        assert(a =~= b);
    }
}

// ---------------------------------------------------------------------------
// Values
// ---------------------------------------------------------------------------

proof fn lemma_entry_is_first(entries: Seq<(Seq<char>, JsonView)>, key: Seq<char>, from: int)
    requires
        0 <= from,
    ensures
        match crate::json::entry_from(entries, key, from) {
            Some(i) => from <= i < entries.len() && entries[i].0 == key && forall|k: int|
                from <= k < i ==> (#[trigger] entries[k]).0 != key,
            None => forall|k: int| from <= k < entries.len() ==> (#[trigger] entries[k]).0 != key,
        },
    decreases entries.len() - from,
{
    if from < entries.len() && entries[from].0 != key {
        lemma_entry_is_first(entries, key, from + 1);
    }
}

/// The value under a name is that of the first entry of that name; a value that is no object has
/// none.
pub proof fn law_first_entry_is_read(entries: Seq<(Seq<char>, JsonView)>, key: Seq<char>, i: int)
    ensures
        ({
            let j = JsonView::Object(entries);
            &&& 0 <= i < entries.len() && entries[i].0 == key && (forall|k: int|
                0 <= k < i ==> (#[trigger] entries[k]).0 != key) ==> j.get(key) == Some(entries[i].1)
            &&& (forall|k: int| 0 <= k < entries.len() ==> (#[trigger] entries[k]).0 != key) ==> j.get(key) is None
        }),
{
    lemma_entry_is_first(entries, key, 0);
}

/// A number is read as an integer where it is one and can be held.
pub proof fn law_integers_are_read(n: u64, m: i64)
    ensures
        JsonView::Number(NumberView::Unsigned(n)).as_u64() == Some(n),
        JsonView::Number(NumberView::Unsigned(n)).as_i64() matches Some(v) ==> v == n,
        JsonView::Number(NumberView::Unsigned(n)).as_i64() is Some <==> n <= i64::MAX,
        JsonView::Number(NumberView::Negative(m)).as_i64() == Some(m),
        JsonView::Number(NumberView::Negative(m)).as_u64() is None,
{
}

proof fn lemma_get_behind(e: (Seq<char>, JsonView), rest: Seq<(Seq<char>, JsonView)>, k: Seq<char>)
    ensures
        JsonView::Object(seq![e] + rest).get(k) == (if e.0 == k {
            Some(e.1)
        } else {
            JsonView::Object(rest).get(k)
        }),
{
    let all = seq![e] + rest;
    lemma_entry_is_first(all, k, 0);
    lemma_entry_is_first(rest, k, 0);
    assert(all[0] == e);
    assert(forall|i: int| 0 <= i < rest.len() ==> (#[trigger] rest[i]) == all[i + 1]);
    match (crate::json::entry_from(all, k, 0), crate::json::entry_from(rest, k, 0)) {
        (Some(i), Some(j)) => {
            assert(all[j + 1] == rest[j]);
            if i > 0 {
                assert(rest[i - 1] == all[i]);
            }
        },
        (Some(i), None) => {
            if i > 0 {
                assert(rest[i - 1] == all[i]);
            }
        },
        (None, Some(j)) => {
            assert(all[j + 1] == rest[j]);
        },
        (None, None) => {},
    }
}

proof fn lemma_inserted_entry(entries: Seq<(Seq<char>, JsonView)>, key: Seq<char>, value: JsonView, k: Seq<char>)
    ensures
        JsonView::Object(json_text::map_insert(entries, key, value)).get(k) == (if k == key {
            Some(value)
        } else {
            JsonView::Object(entries).get(k)
        }),
    decreases entries.len(),
{
    if entries.len() > 0 {
        let rest = entries.drop_first();
        assert(entries =~= seq![entries[0]] + rest);
        assert(entries.update(0, (key, value)) =~= seq![(key, value)] + rest);
        lemma_get_behind(entries[0], rest, k);
        lemma_get_behind((key, value), rest, k);
        lemma_get_behind((key, value), entries, k);
        lemma_get_behind(entries[0], json_text::map_insert(rest, key, value), k);
        lemma_inserted_entry(rest, key, value, k);
    } else {
        lemma_get_behind((key, value), Seq::empty(), k);
        assert(seq![(key, value)] + Seq::<(Seq<char>, JsonView)>::empty() =~= seq![(key, value)]);
        assert(entries =~= Seq::<(Seq<char>, JsonView)>::empty());
    }
}

/// Of entries that are put into a map one after the other, the last one of each name is found.
pub proof fn law_last_entry_of_a_name_is_kept(
    list: Seq<(Seq<char>, JsonView)>,
    key: Seq<char>,
    value: JsonView,
    k: Seq<char>,
)
    ensures
        ({
            let before = JsonView::Object(json_text::map_entries(list));
            let after = JsonView::Object(json_text::map_entries(list.push((key, value))));
            &&& after.get(key) == Some(value)
            &&& k != key ==> after.get(k) == before.get(k)
        }),
        JsonView::Object(json_text::map_entries(Seq::empty())).get(k) is None,
{
    assert(list.push((key, value)).drop_last() =~= list);
    assert(list.push((key, value)).last() == (key, value));
    lemma_inserted_entry(json_text::map_entries(list), key, value, key);
    lemma_inserted_entry(json_text::map_entries(list), key, value, k);
}

} // verus!
