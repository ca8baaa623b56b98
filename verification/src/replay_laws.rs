//! What a replay keeps.

use vstd::prelude::*;
use vstd::string::*;

use crate::json;
use crate::json::{JsonView, NumberView};
use crate::replay;
use crate::replay::ReplayView;
use crate::session_state;
use crate::sort;
use crate::text;
use crate::tool_items::DiffsView;

verus! {

/// The items of a replay are numbered without gaps: as many were numbered as the messages have.
pub proof fn law_replayed_items_are_numbered(
    v: ReplayView,
    entries: Seq<JsonView>,
    thread_id: Seq<char>,
    stored: Map<Seq<char>, Seq<char>>,
    diffs: Seq<DiffsView>,
)
    ensures
        replay::messages_replayed(v, entries, thread_id, stored, diffs).items
            == v.items + replay::all_numbered_items(entries, stored),
    decreases entries.len(),
{
    if entries.len() > 0 {
        law_replayed_items_are_numbered(v, entries.drop_last(), thread_id, stored, diffs);
        let before = replay::messages_replayed(v, entries.drop_last(), thread_id, stored, diffs);
        replay::lemma_tools_counted(
            replay::content_replayed(before, entries.last(), thread_id, stored),
            replay::tool_parts(replay::parts_of(entries.last())),
            thread_id,
            diffs,
        );
    }
}

/// A replayed item never has the identifier of an item that was shown live.
pub proof fn law_replayed_items_differ_from_live_ones(replayed: nat, live: u64)
    ensures
        replay::replay_item_id(replayed) != session_state::item_id(live),
{
    reveal_strlit("replay_item_");
    reveal_strlit("item_");
    assert(replay::replay_item_id(replayed)[0] == 'r');
    assert(session_state::item_id(live)[0] == 'i');
}

proof fn lemma_message_from(entries: Seq<JsonView>, message_id: Seq<char>, from: int)
    requires
        0 <= from <= entries.len(),
    ensures
        match replay::message_from(entries, message_id, from) {
            Some(i) => {
                &&& from <= i < entries.len()
                &&& forall|k: int|
                    from <= k < i ==> replay::trimmed_id(
                        json::as_str_of(json::get_of((#[trigger] entries[k]).get("info"@), "id"@)),
                    ) != message_id
            },
            None => forall|k: int|
                from <= k < entries.len() ==> replay::trimmed_id(
                    json::as_str_of(json::get_of((#[trigger] entries[k]).get("info"@), "id"@)),
                ) != message_id,
        },
    decreases entries.len() - from,
{
    if from < entries.len() && replay::trimmed_id(json::as_str_of(json::get_of(entries[from].get("info"@), "id"@)))
        != message_id {
        lemma_message_from(entries, message_id, from + 1);
    }
}

/// A message that is taken back whole is not replayed, and neither is any behind it; the messages
/// before it stay as they are.
pub proof fn law_reverted_message_is_gone(entries: Seq<JsonView>, session_details: Option<JsonView>)
    requires
        replay::pending_revert(session_details) is Some,
        (replay::pending_revert(session_details)->0).1 is None,
    ensures
        ({
            let kept = replay::after_revert(entries, session_details);
            let message_id = (replay::pending_revert(session_details)->0).0;
            &&& kept.len() <= entries.len()
            &&& kept == entries.take(kept.len() as int)
            &&& forall|k: int|
                0 <= k < kept.len() ==> replay::trimmed_id(
                    json::as_str_of(json::get_of((#[trigger] kept[k]).get("info"@), "id"@)),
                ) != message_id
        }),
{
    let message_id = (replay::pending_revert(session_details)->0).0;
    lemma_message_from(entries, message_id, 0);
    assert(entries.take(entries.len() as int) =~= entries);
}

/// A replay runs from the oldest message to the youngest one, where all tell their times; messages
/// of the same time stay in their order.
pub proof fn law_replay_is_chronological(messages: Seq<JsonView>, i: int, j: int)
    requires
        0 <= i < j < messages.len(),
        forall|k: int| 0 <= k < messages.len() ==> replay::message_order_key(#[trigger] messages[k]) is Some,
    ensures
        replay::chronological(messages).len() == messages.len(),
        ({
            let order = sort::sorted_order(messages.len(), sort::text_less(replay::order_keys(messages)));
            let x = replay::message_order_key(replay::chronological(messages)[i]);
            let y = replay::message_order_key(replay::chronological(messages)[j]);
            &&& sort::is_permutation(order, messages.len())
            &&& replay::chronological(messages)[i] == messages[order[i]]
            &&& replay::chronological(messages)[j] == messages[order[j]]
            &&& text::text_le(x->0, y->0)
            &&& x == y ==> order[i] < order[j]
        }),
{
    let keys = replay::order_keys(messages);
    let less = sort::text_less(keys);
    let order = sort::sorted_order(messages.len(), less);
    sort::law_texts_are_an_order(keys);
    sort::law_sorting_permutes(messages.len(), less);
    sort::law_sorting_sorts_and_is_stable(messages.len(), less);
    assert(!less(order[j], order[i]));
    assert(keys[order[i]] == replay::message_order_key(replay::chronological(messages)[i]));
    assert(keys[order[j]] == replay::message_order_key(replay::chronological(messages)[j]));
    text::lemma_text_le_total(keys[order[i]]->0, keys[order[i]]->0);
}

pub proof fn lemma_untouched_order(n: nat, keys: Seq<Option<Seq<char>>>)
    requires
        n <= keys.len(),
        forall|k: int| 0 <= k < keys.len() ==> (#[trigger] keys[k]) is None,
    ensures
        sort::sorted_order(n, sort::text_less(keys)) == Seq::new(n, |i: int| i),
    decreases n,
{
    if n > 0 {
        lemma_untouched_order((n - 1) as nat, keys);
    }
    assert(sort::sorted_order(n, sort::text_less(keys)) =~= Seq::new(n, |i: int| i));
}

/// Messages of which none tells its time are replayed as they come.
pub proof fn law_messages_without_times_keep_their_order(messages: Seq<JsonView>)
    requires
        forall|k: int| 0 <= k < messages.len() ==> replay::message_order_key(#[trigger] messages[k]) is None,
    ensures
        replay::chronological(messages) == messages,
{
    lemma_untouched_order(messages.len(), replay::order_keys(messages));
    assert(replay::chronological(messages) =~= messages);
}

/// What is taken back first is the youngest message, where all messages have identifiers and tell
/// their times.
pub proof fn law_youngest_message_is_taken_back(entries: Seq<JsonView>)
    requires
        entries.len() > 0,
        forall|k: int|
            0 <= k < entries.len() ==> replay::wrapped_id(#[trigger] entries[k]) is Some && replay::message_order_key(
                replay::info_or_self(entries[k]),
            ) is Some,
    ensures
        exists|y: int|
            0 <= y < entries.len() && replay::last_revertable(entries) == replay::wrapped_id(#[trigger] entries[y])
                && is_youngest(entries, y),
{
    let n = entries.len();
    let keys = replay::wrapped_order_keys(entries);
    let less = sort::text_less(keys);
    let order = sort::sorted_order(n, less);
    sort::law_texts_are_an_order(keys);
    sort::law_sorting_permutes(n, less);
    sort::law_sorting_sorts_and_is_stable(n, less);
    let row = sort::reordered(entries, order);
    let y = order[n - 1];
    assert(row.last() == entries[y]);
    assert forall|k: int| 0 <= k < n implies text::text_le(
        replay::message_order_key(replay::info_or_self(#[trigger] entries[k]))->0,
        replay::message_order_key(replay::info_or_self(entries[y]))->0,
    ) by {
        sort::lemma_permutation_reaches(order, n, k);
        let i = choose|i: int| 0 <= i < n && #[trigger] order[i] == k;
        if i < n - 1 {
            assert(!less(order[n - 1], order[i]));
        } else {
            text::lemma_text_le_total(keys[k]->0, keys[k]->0);
        }
    }
    assert(is_youngest(entries, y));
}

/// Whether no message is younger than the one at `y`.
pub open spec fn is_youngest(entries: Seq<JsonView>, y: int) -> bool {
    forall|k: int|
        0 <= k < entries.len() ==> text::text_le(
            replay::message_order_key(replay::info_or_self(#[trigger] entries[k]))->0,
            replay::message_order_key(replay::info_or_self(entries[y]))->0,
        )
}

/// The last `w` digits of a number's decimal notation.
spec fn fixed_digits(n: nat, w: nat) -> Seq<char>
    decreases w,
{
    if w == 0 {
        Seq::empty()
    } else {
        fixed_digits(n / 10, (w - 1) as nat).push(text::digit(n % 10))
    }
}

spec fn power_of_ten(w: nat) -> nat
    decreases w,
{
    if w == 0 {
        1
    } else {
        10 * power_of_ten((w - 1) as nat)
    }
}

proof fn lemma_fixed_digits_zero(w: nat)
    ensures
        fixed_digits(0, w) == Seq::new(w, |i: int| '0'),
    decreases w,
{
    if w > 0 {
        lemma_fixed_digits_zero((w - 1) as nat);
        assert(0nat / 10 == 0);
        assert(text::digit(0) == '0');
        assert(fixed_digits(0, w) =~= Seq::new(w, |i: int| '0'));
    } else {
        assert(fixed_digits(0, w) =~= Seq::new(w, |i: int| '0'));
    }
}

proof fn lemma_padded_is_fixed(n: nat, w: nat)
    requires
        w > 0,
        n < power_of_ten(w),
    ensures
        text::decimal(n).len() <= w,
        text::zero_padded(text::decimal(n), w) == fixed_digits(n, w),
    decreases w,
{
    if n < 10 {
        let d = text::decimal(n);
        assert(n / 10 == 0 && n % 10 == n);
        lemma_fixed_digits_zero((w - 1) as nat);
        assert(text::zero_padded(d, w) =~= fixed_digits(n, w));
    } else {
        let m = (w - 1) as nat;
        assert(power_of_ten(w) == 10 * power_of_ten(m));
        if m == 0 {
            assert(power_of_ten(0) == 1);
        }
        assert(n / 10 < power_of_ten(m));
        lemma_padded_is_fixed(n / 10, m);
        assert(text::zero_padded(text::decimal(n), w) =~= text::zero_padded(text::decimal(n / 10), m).push(
            text::digit(n % 10),
        ));
    }
}

proof fn lemma_fixed_len(n: nat, w: nat)
    ensures
        fixed_digits(n, w).len() == w,
    decreases w,
{
    if w > 0 {
        lemma_fixed_len(n / 10, (w - 1) as nat);
    }
}

/// Of two texts of the same length with one more character each, the order is that of the texts,
/// and, where these are equal, that of the characters.
proof fn lemma_text_le_push(a: Seq<char>, b: Seq<char>, x: char, y: char)
    requires
        a.len() == b.len(),
    ensures
        text::text_le(a.push(x), b.push(y)) == (if a == b {
            x <= y
        } else {
            text::text_le(a, b)
        }),
    decreases a.len(),
{
    let p = a.push(x);
    let q = b.push(y);
    if a.len() == 0 {
        assert(a =~= b);
        assert(p.drop_first() =~= Seq::<char>::empty());
        assert(q.drop_first() =~= Seq::<char>::empty());
        assert(text::text_le(Seq::<char>::empty(), Seq::<char>::empty()));
        assert(p[0] == x && q[0] == y);
    } else {
        assert(p[0] == a[0] && q[0] == b[0]);
        if a[0] == b[0] {
            assert(p.drop_first() =~= a.drop_first().push(x));
            assert(q.drop_first() =~= b.drop_first().push(y));
            lemma_text_le_push(a.drop_first(), b.drop_first(), x, y);
            if a.drop_first() == b.drop_first() {
                assert(a =~= b) by {
                    assert forall|i: int| 0 <= i < a.len() implies a[i] == b[i] by {
                        if i > 0 {
                            assert(a.drop_first()[i - 1] == b.drop_first()[i - 1]);
                        }
                    }
                }
            }
        }
    }
}

proof fn lemma_fixed_digits_order(a: nat, b: nat, w: nat)
    requires
        a < power_of_ten(w),
        b < power_of_ten(w),
    ensures
        text::text_le(fixed_digits(a, w), fixed_digits(b, w)) == (a <= b),
        fixed_digits(a, w) == fixed_digits(b, w) <==> a == b,
    decreases w,
{
    if w > 0 {
        let m = (w - 1) as nat;
        assert(power_of_ten(w) == 10 * power_of_ten(m));
        assert(a / 10 < power_of_ten(m) && b / 10 < power_of_ten(m));
        lemma_fixed_digits_order(a / 10, b / 10, m);
        lemma_fixed_len(a / 10, m);
        lemma_fixed_len(b / 10, m);
        let x = text::digit(a % 10);
        let y = text::digit(b % 10);
        assert(x as u32 == 48 + a % 10);
        assert(y as u32 == 48 + b % 10);
        lemma_text_le_push(fixed_digits(a / 10, m), fixed_digits(b / 10, m), x, y);
        if fixed_digits(a, w) == fixed_digits(b, w) {
            assert(fixed_digits(a, w).drop_last() =~= fixed_digits(a / 10, m));
            assert(fixed_digits(b, w).drop_last() =~= fixed_digits(b / 10, m));
            assert(fixed_digits(a, w).last() == x);
            assert(fixed_digits(b, w).last() == y);
        }
    } else {
        assert(power_of_ten(0) == 1);
    }
}

/// Times that are given as numbers are sorted as numbers are.
pub proof fn law_times_sort_as_numbers(a: u64, b: u64)
    ensures
        ({
            let x = replay::order_key_of(JsonView::Number(NumberView::Unsigned(a)));
            let y = replay::order_key_of(JsonView::Number(NumberView::Unsigned(b)));
            &&& x is Some
            &&& y is Some
            &&& text::text_le(x->0, y->0) == (a <= b)
        }),
{
    reveal_with_fuel(power_of_ten, 21);
    assert(power_of_ten(20) == 100_000_000_000_000_000_000);
    lemma_padded_is_fixed(a as nat, 20);
    lemma_padded_is_fixed(b as nat, 20);
    lemma_fixed_digits_order(a as nat, b as nat, 20);
}

} // verus!
