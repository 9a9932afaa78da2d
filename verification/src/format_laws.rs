//! Laws of the texts the client shows: numbers, trimming, cursor highlighting
//! and body scrolling.
use vstd::prelude::*;

use crate::render::{first_visible_row, response_text, segments_of};
use crate::status::{decimal, digit_char, label_text, Status};
use crate::text::{trim_bounds, trimmed, lemma_trim_unique, white_space};

verus! {

/// The number written by a sequence of decimal digits.
pub open spec fn digits_value(s: Seq<char>) -> int
    decreases s.len(),
{
    if s.len() == 0 {
        0
    } else {
        digits_value(s.drop_last()) * 10 + (s.last() as int - 48)
    }
}

/// `c` is one of the ASCII digits `0` to `9`.
pub open spec fn is_digit(c: char) -> bool {
    48 <= (c as int) <= 57
}

proof fn lemma_digit(d: nat)
    requires
        d < 10,
    ensures
        digit_char(d) as int == 48 + d,
{
    assert(((48 + d) as u8) as char as int == 48 + d);
}

/// Decimal notation reads back as the number, is made of digits only, and has
/// no leading zero (except for zero itself).
pub proof fn decimal_reads_back(n: nat)
    ensures
        digits_value(decimal(n)) == n,
        decimal(n).len() >= 1,
        forall|i: int| 0 <= i < decimal(n).len() ==> is_digit(#[trigger] decimal(n)[i]),
        n > 0 ==> decimal(n)[0] != '0',
    decreases n,
{
    if n < 10 {
        lemma_digit(n);
        assert(decimal(n).drop_last() =~= Seq::<char>::empty());
        assert(digits_value(Seq::<char>::empty()) == 0);
        assert(decimal(n).last() == digit_char(n));
    } else {
        decimal_reads_back(n / 10);
        lemma_digit(n % 10);
        let s = decimal(n);
        assert(s.drop_last() =~= decimal(n / 10));
        assert(s.last() == digit_char(n % 10));
        assert(digits_value(s) == digits_value(decimal(n / 10)) * 10 + (n % 10));
        assert((n / 10) * 10 + n % 10 == n);
        assert(s[0] == decimal(n / 10)[0]);
        assert forall|i: int| 0 <= i < s.len() implies is_digit(#[trigger] s[i]) by {
            if i < s.len() - 1 {
                assert(s[i] == decimal(n / 10)[i]);
            }
        }
    }
}

/// Trimming cuts only white space, from both ends, and leaves a text that
/// neither starts nor ends with white space; it is empty exactly when the
/// text is all white space.
pub proof fn trim_cuts_only_white_space(s: Seq<char>)
    ensures
        exists|i: int, j: int| 0 <= i <= j <= s.len() && trimmed(s) == s.subrange(i, j)
            && (forall|k: int| 0 <= k < i ==> white_space(#[trigger] s[k]))
            && (forall|k: int| j <= k < s.len() ==> white_space(#[trigger] s[k])),
        trimmed(s).len() > 0 ==> !white_space(trimmed(s)[0]) && !white_space(trimmed(s).last()),
        trimmed(s).len() == 0 <==> forall|k: int| 0 <= k < s.len() ==> white_space(#[trigger] s[k]),
{
    // the bounds exist: cut the longest white prefix and suffix
    let i = first_non_white(s, 0);
    let j = last_non_white(s, i, s.len() as int);
    assert(trim_bounds(s, i, j));
    lemma_trim_unique(s, i, j);
    if i < j {
        assert(trimmed(s)[0] == s[i]);
        assert(trimmed(s).last() == s[j - 1]);
        assert(!white_space(s[i]));
    } else {
        assert forall|k: int| 0 <= k < s.len() implies white_space(#[trigger] s[k]) by {
            if k < i {
            } else {
                assert(j <= k);
            }
        }
    }
    if forall|k: int| 0 <= k < s.len() ==> white_space(#[trigger] s[k]) {
        if i < j {
            assert(white_space(s[i]));
        }
    }
}

/// The first index at or after `from` that is not white space (or the end).
proof fn first_non_white(s: Seq<char>, from: int) -> (i: int)
    requires
        0 <= from <= s.len(),
        forall|k: int| 0 <= k < from ==> white_space(#[trigger] s[k]),
    ensures
        from <= i <= s.len(),
        forall|k: int| 0 <= k < i ==> white_space(#[trigger] s[k]),
        i < s.len() ==> !white_space(s[i]),
    decreases s.len() - from,
{
    if from < s.len() && white_space(s[from]) {
        first_non_white(s, from + 1)
    } else {
        from
    }
}

/// The last end at or before `to` after which only white space follows.
proof fn last_non_white(s: Seq<char>, i: int, to: int) -> (j: int)
    requires
        0 <= i <= to <= s.len(),
        i < s.len() ==> !white_space(s[i]),
        forall|k: int| to <= k < s.len() ==> white_space(#[trigger] s[k]),
    ensures
        i <= j <= to,
        forall|k: int| j <= k < s.len() ==> white_space(#[trigger] s[k]),
        i < j ==> !white_space(s[j - 1]),
        i < s.len() ==> i < j,
    decreases to - i,
{
    if to > i && white_space(s[to - 1]) {
        last_non_white(s, i, to - 1)
    } else {
        to
    }
}

/// Highlighting the cursor splits the line into the text before it, one cell
/// and the rest: before and rest together with the cell under the cursor give
/// back the line; past the end the cell is a space and nothing follows.
pub proof fn segments_rebuild_line(s: Seq<char>, k: int)
    requires
        0 <= k <= s.len(),
    ensures
        segments_of(s, k).0.len() == k,
        segments_of(s, k).1.len() == 1,
        k < s.len() ==> segments_of(s, k).0 + segments_of(s, k).1 + segments_of(s, k).2 == s,
        k == s.len() ==> segments_of(s, k).0 == s && segments_of(s, k).1 == seq![' '] && segments_of(s, k).2.len()
            == 0,
{
    if k < s.len() {
        assert(s.take(k) + seq![s[k]] + s.skip(k + 1) =~= s);
    } else {
        assert(s.take(k) =~= s);
    }
}

/// The body pane always shows the cursor's line: it starts at the top while
/// the cursor is on the first screen, and afterwards keeps the cursor's line
/// as the last one shown.
pub proof fn body_window_shows_cursor(row: nat, height: nat)
    requires
        height > 0,
    ensures
        first_visible_row(row, height) <= row < first_visible_row(row, height) + height,
        row < height ==> first_visible_row(row, height) == 0,
        row >= height ==> row == first_visible_row(row, height) + height - 1,
{
}

/// The status bar names the code of a success and the text of an error, and
/// the response pane shows a success's body and an error's text.
pub proof fn status_texts_carry_their_data(s: Status)
    ensures
        s matches Status::Success { code, body } ==> label_text(s).skip(2).take(decimal(code as nat).len() as int)
            == decimal(code as nat) && response_text(s) == body@,
        s matches Status::Error(e) ==> label_text(s).skip(label_text(s).len() - e@.len()) == e@
            && response_text(s).skip(response_text(s).len() - e@.len()) == e@,
{
    reveal_strlit("✓ ");
    match s {
        Status::Success { code, body } => {
            let d = decimal(code as nat);
            assert(label_text(s).skip(2).take(d.len() as int) =~= d);
        },
        Status::Error(e) => {
            assert(label_text(s).skip(label_text(s).len() - e@.len()) =~= e@);
            assert(response_text(s).skip(response_text(s).len() - e@.len()) =~= e@);
        },
        _ => {},
    }
}

} // verus!
