//! What the names of worktrees are like.

use vstd::prelude::*;
use vstd::string::*;

use crate::background;
use crate::text;

verus! {

/// The name of a worktree starts with a kind of work and a slash, whatever it is made of.
pub proof fn law_worktree_name_starts_with_a_kind(lowered: Seq<char>)
    ensures
        exists|i: int|
            0 <= i < background::work_kinds().len() && text::has_prefix(
                background::worktree_name(lowered),
                (#[trigger] background::work_kinds()[i]) + "/"@,
            ),
{
    let s = background::without_tail(background::squeezed(lowered).0);
    let kinds = background::work_kinds();
    background::lemma_kind_from(s, kinds, "/"@, 0);
    background::lemma_kind_from(s, kinds, "-"@, 0);
    if background::kind_from(s, kinds, "/"@, 0) is Some {
        let i = background::kind_from(s, kinds, "/"@, 0)->0;
        assert(text::has_prefix(background::worktree_name(lowered), kinds[i] + "/"@));
    } else if background::kind_from(s, kinds, "-"@, 0) is Some {
        let i = background::kind_from(s, kinds, "-"@, 0)->0;
        let head = kinds[i] + "/"@;
        let rest = s.skip((kinds[i] + "-"@).len() as int);
        assert((head + rest).take(head.len() as int) =~= head);
        assert(text::has_prefix(background::worktree_name(lowered), kinds[i] + "/"@));
    } else {
        reveal_strlit("feat");
        reveal_strlit("/");
        reveal_strlit("feat/");
        let head = kinds[0] + "/"@;
        assert(head =~= "feat/"@);
        assert((head + background::without_slashes(s)).take(head.len() as int) =~= head);
        assert(text::has_prefix(background::worktree_name(lowered), kinds[0] + "/"@));
    }
}

/// Whether a character can stand in a worktree's name: a small ASCII letter, an ASCII digit, a slash
/// or a dash.
pub open spec fn is_name_char(c: char) -> bool {
    'a' <= c <= 'z' || '0' <= c <= '9' || c == '/' || c == '-'
}

/// Whether no two dashes follow each other.
pub open spec fn has_single_dashes(s: Seq<char>) -> bool {
    forall|i: int| 0 <= i < s.len() - 1 ==> !((#[trigger] s[i]) == '-' && s[i + 1] == '-')
}

/// Whether a text is made of small ASCII letters, ASCII digits, slashes and single dashes.
pub open spec fn is_slug(s: Seq<char>) -> bool {
    &&& forall|i: int| 0 <= i < s.len() ==> is_name_char(#[trigger] s[i])
    &&& has_single_dashes(s)
}

/// Whether a text has something at its end that is neither a dash nor a slash.
pub open spec fn ends_well(s: Seq<char>) -> bool {
    s.len() > 0 && s.last() != '-' && s.last() != '/'
}

/// Whether a text is a clean name of a worktree: a kind of work and a slash stand in front of it, and
/// neither a dash nor a slash at its end.
pub open spec fn is_worktree_name(s: Seq<char>) -> bool {
    &&& is_slug(s)
    &&& ends_well(s)
    &&& background::kind_from(s, background::work_kinds(), "/"@, 0) is Some
}

/// Whether a text holds an ASCII letter or digit.
pub open spec fn holds_alphanumeric(s: Seq<char>) -> bool {
    exists|i: int| 0 <= i < s.len() && background::is_ascii_alphanumeric(#[trigger] s[i])
}

proof fn lemma_squeezed_is_slug(s: Seq<char>)
    requires
        text::has_no_capitals(s),
    ensures
        is_slug(background::squeezed(s).0),
        background::squeezed(s).1 == (background::squeezed(s).0.len() > 0 && background::squeezed(s).0.last() == '-'),
    decreases s.len(),
{
    if s.len() > 0 {
        let init = s.drop_last();
        assert forall|i: int| 0 <= i < init.len() implies !text::is_capital(#[trigger] init[i]) by {
            assert(init[i] == s[i]);
        }
        lemma_squeezed_is_slug(init);
        let (before, dash) = background::squeezed(init);
        let after = background::squeezed(s).0;
        assert(!text::is_capital(s[s.len() - 1]));
        assert forall|i: int| 0 <= i < after.len() implies is_name_char(#[trigger] after[i]) by {
            if i < before.len() {
                assert(after[i] == before[i]);
            }
        }
        assert forall|i: int| 0 <= i < after.len() - 1 implies !((#[trigger] after[i]) == '-' && after[i + 1]
            == '-') by {
            assert(after[i] == before[i]);
            if i + 1 < before.len() {
                assert(after[i + 1] == before[i + 1]);
            } else {
                assert(before[i] == before.last());
            }
        }
    }
}

proof fn lemma_squeezed_holds(s: Seq<char>)
    ensures
        holds_alphanumeric(s) ==> holds_alphanumeric(background::squeezed(s).0),
    decreases s.len(),
{
    if s.len() > 0 && holds_alphanumeric(s) {
        let init = s.drop_last();
        let before = background::squeezed(init).0;
        let after = background::squeezed(s).0;
        lemma_squeezed_holds(init);
        let i = choose|i: int| 0 <= i < s.len() && background::is_ascii_alphanumeric(#[trigger] s[i]);
        if i < init.len() {
            assert(init[i] == s[i]);
            let k = choose|k: int| 0 <= k < before.len() && background::is_ascii_alphanumeric(#[trigger] before[k]);
            assert(after[k] == before[k]);
        } else {
            assert(background::is_ascii_alphanumeric(after[before.len() as int]));
        }
    }
}

proof fn lemma_without_tail(s: Seq<char>)
    ensures
        ({
            let t = background::without_tail(s);
            &&& t.len() <= s.len()
            &&& t == s.take(t.len() as int)
            &&& t.len() > 0 ==> ends_well(t)
            &&& forall|k: int| t.len() <= k < s.len() ==> (#[trigger] s[k]) == '-' || s[k] == '/'
        }),
    decreases s.len(),
{
    if s.len() > 0 && (s.last() == '-' || s.last() == '/') {
        let init = s.drop_last();
        lemma_without_tail(init);
        let t = background::without_tail(s);
        assert(init.take(t.len() as int) =~= s.take(t.len() as int));
        assert forall|k: int| t.len() <= k < s.len() implies (#[trigger] s[k]) == '-' || s[k] == '/' by {
            if k < init.len() {
                assert(init[k] == s[k]);
            }
        }
    } else {
        assert(s.take(s.len() as int) =~= s);
    }
}

proof fn lemma_without_slashes(s: Seq<char>)
    ensures
        ({
            let t = background::without_slashes(s);
            &&& t.len() <= s.len()
            &&& t == s.skip(s.len() - t.len())
            &&& ends_well(s) ==> t.len() > 0
        }),
    decreases s.len(),
{
    if s.len() > 0 && s[0] == '/' {
        let rest = s.drop_first();
        lemma_without_slashes(rest);
        let t = background::without_slashes(s);
        assert(rest.skip(rest.len() - t.len()) =~= s.skip(s.len() - t.len()));
        if ends_well(s) {
            assert(rest.len() > 0);
            assert(rest.last() == s.last());
        }
    } else {
        assert(s.skip(0) =~= s);
    }
}

proof fn lemma_kind_is_found(s: Seq<char>, kinds: Seq<Seq<char>>, mark: Seq<char>, from: int, i: int)
    requires
        0 <= from <= i < kinds.len(),
        text::has_prefix(s, kinds[i] + mark),
    ensures
        background::kind_from(s, kinds, mark, from) is Some,
    decreases i - from,
{
    if !text::has_prefix(s, kinds[from] + mark) {
        lemma_kind_is_found(s, kinds, mark, from + 1, i);
    }
}

proof fn lemma_kinds_are_slugs()
    ensures
        is_slug("feat/"@),
        "feat/"@.len() == 5,
        "feat/"@[4] == '/',
        "/"@ == seq!['/'],
        "-"@ == seq!['-'],
        forall|k: int|
            0 <= k < background::work_kinds().len() ==> is_slug(#[trigger] background::work_kinds()[k]),
{
    reveal_strlit("feat");
    reveal_strlit("fix");
    reveal_strlit("chore");
    reveal_strlit("test");
    reveal_strlit("docs");
    reveal_strlit("refactor");
    reveal_strlit("perf");
    reveal_strlit("build");
    reveal_strlit("ci");
    reveal_strlit("style");
    reveal_strlit("/");
    reveal_strlit("-");
    reveal_strlit("feat/");
    assert("/"@ =~= seq!['/']);
    assert("-"@ =~= seq!['-']);
}

/// Two slugs with a slash between them are a slug.
proof fn lemma_slugs_joined(a: Seq<char>, b: Seq<char>)
    requires
        is_slug(a),
        is_slug(b),
        a.len() > 0,
        a.last() == '/',
    ensures
        is_slug(a + b),
{
    let s = a + b;
    assert forall|i: int| 0 <= i < s.len() implies is_name_char(#[trigger] s[i]) by {
        if i < a.len() {
            assert(s[i] == a[i]);
        } else {
            assert(s[i] == b[i - a.len()]);
        }
    }
    assert forall|i: int| 0 <= i < s.len() - 1 implies !((#[trigger] s[i]) == '-' && s[i + 1] == '-') by {
        if i + 1 < a.len() {
            assert(s[i] == a[i] && s[i + 1] == a[i + 1]);
        } else if i + 1 == a.len() {
            assert(s[i] == a.last());
        } else {
            assert(s[i] == b[i - a.len()] && s[i + 1] == b[i + 1 - a.len()]);
        }
    }
}

proof fn lemma_slug_part(s: Seq<char>, lo: int, hi: int)
    requires
        is_slug(s),
        0 <= lo <= hi <= s.len(),
    ensures
        is_slug(s.subrange(lo, hi)),
{
    let t = s.subrange(lo, hi);
    assert forall|i: int| 0 <= i < t.len() implies is_name_char(#[trigger] t[i]) by {
        assert(t[i] == s[lo + i]);
    }
    assert forall|i: int| 0 <= i < t.len() - 1 implies !((#[trigger] t[i]) == '-' && t[i + 1] == '-') by {
        assert(t[i] == s[lo + i] && t[i + 1] == s[lo + i + 1]);
    }
}

proof fn lemma_dash_becomes_slash(s: Seq<char>, kind: Seq<char>)
    requires
        is_slug(s),
        ends_well(s),
        is_slug(kind),
        text::has_prefix(s, kind + seq!['-']),
    ensures
        ({
            let name = kind + seq!['/'] + s.skip(kind.len() as int + 1);
            &&& is_slug(name)
            &&& ends_well(name)
            &&& text::has_prefix(name, kind + seq!['/'])
        }),
{
    let dashed = kind + seq!['-'];
    let head = kind + seq!['/'];
    let rest = s.skip(kind.len() as int + 1);
    let name = head + rest;
    assert(dashed[kind.len() as int] == '-');
    assert(s[kind.len() as int] == s.take(dashed.len() as int)[kind.len() as int]);
    assert(s.len() > dashed.len()) by {
        if s.len() == dashed.len() {
            assert(s.last() == '-');
        }
    }
    assert(is_slug(head)) by {
        assert forall|k: int| 0 <= k < head.len() implies is_name_char(#[trigger] head[k]) by {
            if k < kind.len() {
                assert(head[k] == kind[k]);
            }
        }
        assert forall|k: int| 0 <= k < head.len() - 1 implies !((#[trigger] head[k]) == '-' && head[k + 1]
            == '-') by {
            assert(head[k] == kind[k]);
            if k + 1 < kind.len() {
                assert(head[k + 1] == kind[k + 1]);
            }
        }
    }
    lemma_slug_part(s, dashed.len() as int, s.len() as int);
    assert(rest =~= s.subrange(dashed.len() as int, s.len() as int));
    lemma_slugs_joined(head, rest);
    assert(name.last() == s.last());
    assert(name.take(head.len() as int) =~= head);
}

proof fn lemma_missing_kind(s: Seq<char>)
    requires
        is_slug(s),
        s.len() > 0 ==> ends_well(s),
    ensures
        ({
            let name = "feat/"@ + background::without_slashes(s);
            &&& is_slug(name)
            &&& s.len() > 0 ==> ends_well(name)
            &&& s.len() == 0 ==> name == "feat/"@
            &&& text::has_prefix(name, background::work_kinds()[0] + "/"@)
        }),
{
    let rest = background::without_slashes(s);
    let name = "feat/"@ + rest;
    lemma_kinds_are_slugs();
    lemma_without_slashes(s);
    lemma_slug_part(s, s.len() - rest.len(), s.len() as int);
    assert(rest =~= s.subrange(s.len() - rest.len(), s.len() as int));
    lemma_slugs_joined("feat/"@, rest);
    assert(s.len() == 0 ==> name =~= "feat/"@);
    if s.len() > 0 {
        assert(name.last() == s.last());
    }
    reveal_strlit("feat");
    reveal_strlit("/");
    reveal_strlit("feat/");
    let head = background::work_kinds()[0] + "/"@;
    assert(head =~= "feat/"@);
    assert(name.take(head.len() as int) =~= head);
}

/// A slug with a kind of work put in front is a slug. It ends as the slug does, and the kind is
/// found there; where nothing was there, it is `feat/`.
proof fn lemma_with_work_kind(s: Seq<char>)
    requires
        is_slug(s),
        s.len() > 0 ==> ends_well(s),
    ensures
        ({
            let name = background::with_work_kind(s);
            &&& is_slug(name)
            &&& s.len() > 0 ==> ends_well(name)
            &&& s.len() == 0 ==> name == "feat/"@
            &&& background::kind_from(name, background::work_kinds(), "/"@, 0) is Some
        }),
{
    let kinds = background::work_kinds();
    let name = background::with_work_kind(s);
    background::lemma_kind_from(s, kinds, "/"@, 0);
    background::lemma_kind_from(s, kinds, "-"@, 0);
    if background::kind_from(s, kinds, "/"@, 0) is Some {
        reveal_strlit("/");
    } else if background::kind_from(s, kinds, "-"@, 0) is Some {
        let i = background::kind_from(s, kinds, "-"@, 0)->0;
        assert("/"@ == seq!['/'] && "-"@ == seq!['-'] && is_slug(kinds[i])) by {
            lemma_kinds_are_slugs();
        }
        lemma_dash_becomes_slash(s, kinds[i]);
        assert((kinds[i] + "-"@).len() == kinds[i].len() + 1);
        lemma_kind_is_found(name, kinds, "/"@, 0, i);
    } else {
        lemma_missing_kind(s);
        lemma_kind_is_found(name, kinds, "/"@, 0, 0);
    }
}

/// The name of a worktree that is made of a text without capitals holds nothing but small ASCII
/// letters, ASCII digits, slashes and single dashes. A slash stands at its end only in `feat/`, and
/// a dash never.
pub proof fn law_worktree_name_is_a_slug(lowered: Seq<char>)
    requires
        text::has_no_capitals(lowered),
    ensures
        is_slug(background::worktree_name(lowered)),
        ends_well(background::worktree_name(lowered)) || background::worktree_name(lowered) == "feat/"@,
{
    let q = background::squeezed(lowered).0;
    let s = background::without_tail(q);
    lemma_squeezed_is_slug(lowered);
    lemma_without_tail(q);
    lemma_slug_part(q, 0, s.len() as int);
    assert(s =~= q.subrange(0, s.len() as int));
    lemma_with_work_kind(s);
}

/// The name of a worktree that is made of a text without capitals is a clean one, where the text
/// holds an ASCII letter or digit.
pub proof fn law_worktree_name_is_clean(lowered: Seq<char>)
    requires
        text::has_no_capitals(lowered),
    ensures
        holds_alphanumeric(lowered) ==> is_worktree_name(background::worktree_name(lowered)),
{
    let q = background::squeezed(lowered).0;
    let s = background::without_tail(q);
    lemma_squeezed_is_slug(lowered);
    lemma_squeezed_holds(lowered);
    lemma_without_tail(q);
    lemma_slug_part(q, 0, s.len() as int);
    assert(s =~= q.subrange(0, s.len() as int));
    lemma_with_work_kind(s);
    if holds_alphanumeric(lowered) {
        let i = choose|i: int| 0 <= i < q.len() && background::is_ascii_alphanumeric(#[trigger] q[i]);
        assert(i < s.len());
    }
}

proof fn lemma_squeezed_stays(s: Seq<char>)
    requires
        is_slug(s),
    ensures
        background::squeezed(s) == (s, s.len() > 0 && s.last() == '-'),
    decreases s.len(),
{
    if s.len() > 0 {
        let init = s.drop_last();
        lemma_slug_part(s, 0, s.len() - 1);
        assert(init =~= s.subrange(0, s.len() - 1));
        lemma_squeezed_stays(init);
        assert(is_name_char(s[s.len() - 1]));
        if init.len() > 0 {
            assert(init.last() == s[s.len() - 2]);
        }
        assert(init.push(s.last()) =~= s);
    }
}

/// A clean name of a worktree stays as it is when it is cleaned.
pub proof fn law_clean_name_stays(name: Seq<char>)
    requires
        is_worktree_name(name),
    ensures
        background::worktree_name(name) == name,
{
    lemma_squeezed_stays(name);
}

/// Cleaning twice is the same as cleaning once, where the text holds an ASCII letter or digit.
pub proof fn law_cleaning_twice_is_cleaning_once(lowered: Seq<char>)
    requires
        text::has_no_capitals(lowered),
        holds_alphanumeric(lowered),
    ensures
        background::worktree_name(background::worktree_name(lowered)) == background::worktree_name(lowered),
{
    law_worktree_name_is_clean(lowered);
    law_clean_name_stays(background::worktree_name(lowered));
}

/// A clean name has no white space around it and is in small letters.
pub proof fn lemma_name_is_plain(name: Seq<char>)
    requires
        is_worktree_name(name),
    ensures
        text::trim_of(name) == name,
        text::is_ascii_text(name),
        text::ascii_lowered(name) == name,
{
    assert(is_name_char(name[0]));
    assert(is_name_char(name[name.len() - 1]));
    assert forall|i: int| 0 <= i < name.len() implies text::ascii_lower(#[trigger] name[i]) == name[i]
        && (name[i] as u32) < 128 by {
        assert(is_name_char(name[i]));
    }
    assert(text::ascii_lowered(name) =~= name);
}

} // verus!
