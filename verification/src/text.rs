//! Text as a sequence of characters, addressed by UTF-8 byte offsets.
//!
//! Editing positions are byte offsets into the UTF-8 encoding of the text, as
//! in a `String`. A byte offset is valid where it falls between two
//! characters (or at either end).
use vstd::prelude::*;

verus! {

/// Number of bytes in the UTF-8 encoding of `c`.
pub open spec fn utf8_width(c: char) -> nat {
    if (c as u32) < 0x80 {
        1
    } else if (c as u32) < 0x800 {
        2
    } else if (c as u32) < 0x10000 {
        3
    } else {
        4
    }
}

/// Number of bytes in the UTF-8 encoding of `s`.
pub open spec fn byte_len(s: Seq<char>) -> nat
    decreases s.len(),
{
    if s.len() == 0 {
        0
    } else {
        byte_len(s.drop_last()) + utf8_width(s.last())
    }
}

/// Byte offset at which the character with index `k` starts.
pub open spec fn offset_of(s: Seq<char>, k: int) -> nat {
    byte_len(s.take(k))
}

/// `b` lies between two characters of `s`, or at one of its ends.
pub open spec fn is_boundary(s: Seq<char>, b: int) -> bool {
    exists|k: int| 0 <= k <= s.len() && offset_of(s, k) == b
}

/// Index of the character that starts at byte offset `b`
/// (`s.len()` for the end of the text).
pub open spec fn char_index(s: Seq<char>, b: int) -> int {
    choose|k: int| 0 <= k <= s.len() && offset_of(s, k) == b
}

/// `s` with `c` inserted before index `k`.
pub open spec fn insert_at(s: Seq<char>, k: int, c: char) -> Seq<char> {
    s.take(k) + seq![c] + s.skip(k)
}

/// `s` without the character at index `k`.
pub open spec fn remove_at(s: Seq<char>, k: int) -> Seq<char> {
    s.take(k) + s.skip(k + 1)
}

pub proof fn lemma_width_bounds(c: char)
    ensures
        1 <= utf8_width(c) <= 4,
{
}

pub proof fn lemma_byte_len_concat(a: Seq<char>, b: Seq<char>)
    ensures
        byte_len(a + b) == byte_len(a) + byte_len(b),
    decreases b.len(),
{
    if b.len() == 0 {
        assert(a + b =~= a);
    } else {
        assert((a + b).drop_last() =~= a + b.drop_last());
        assert((a + b).last() == b.last());
        lemma_byte_len_concat(a, b.drop_last());
    }
}

pub proof fn lemma_byte_len_single(c: char)
    ensures
        byte_len(seq![c]) == utf8_width(c),
{
    assert(seq![c].drop_last() =~= Seq::<char>::empty());
    assert(byte_len(Seq::<char>::empty()) == 0);
}

pub proof fn lemma_offset_step(s: Seq<char>, k: int)
    requires
        0 <= k < s.len(),
    ensures
        offset_of(s, k + 1) == offset_of(s, k) + utf8_width(s[k]),
{
    assert(s.take(k + 1).drop_last() =~= s.take(k));
}

pub proof fn lemma_offset_ends(s: Seq<char>)
    ensures
        offset_of(s, 0) == 0,
        offset_of(s, s.len() as int) == byte_len(s),
{
    assert(s.take(0) =~= Seq::<char>::empty());
    assert(s.take(s.len() as int) =~= s);
}

/// Offsets grow strictly with the character index.
pub proof fn lemma_offset_strict(s: Seq<char>, i: int, j: int)
    requires
        0 <= i < j <= s.len(),
    ensures
        offset_of(s, i) < offset_of(s, j),
    decreases j - i,
{
    lemma_offset_step(s, j - 1);
    if i < j - 1 {
        lemma_offset_strict(s, i, j - 1);
    }
}

pub proof fn lemma_offset_bounded(s: Seq<char>, k: int)
    requires
        0 <= k <= s.len(),
    ensures
        offset_of(s, k) <= byte_len(s),
        k < s.len() ==> offset_of(s, k) < byte_len(s),
{
    lemma_offset_ends(s);
    if k < s.len() {
        lemma_offset_strict(s, k, s.len() as int);
    }
}

/// The character index of a boundary is the unique index whose offset it is.
pub proof fn lemma_char_index(s: Seq<char>, k: int)
    requires
        0 <= k <= s.len(),
    ensures
        is_boundary(s, offset_of(s, k) as int),
        char_index(s, offset_of(s, k) as int) == k,
{
    let b = offset_of(s, k) as int;
    assert(0 <= k <= s.len() && offset_of(s, k) == b);
    let j = char_index(s, b);
    if j < k {
        lemma_offset_strict(s, j, k);
    } else if k < j {
        lemma_offset_strict(s, k, j);
    }
}

/// Facts about a valid byte offset: where its character index lies.
pub proof fn lemma_boundary(s: Seq<char>, b: int)
    requires
        is_boundary(s, b),
    ensures
        0 <= char_index(s, b) <= s.len(),
        offset_of(s, char_index(s, b)) == b,
        0 <= b <= byte_len(s),
        b == 0 <==> char_index(s, b) == 0,
        b == byte_len(s) <==> char_index(s, b) == s.len(),
        b < byte_len(s) <==> char_index(s, b) < s.len(),
{
    let k = char_index(s, b);
    lemma_offset_bounded(s, k);
    lemma_offset_ends(s);
    if k > 0 {
        lemma_offset_strict(s, 0, k);
    }
}

/// Where a character is inserted, and how far the text grows.
pub proof fn lemma_insert(s: Seq<char>, k: int, c: char)
    requires
        0 <= k <= s.len(),
    ensures
        insert_at(s, k, c).len() == s.len() + 1,
        offset_of(insert_at(s, k, c), k) == offset_of(s, k),
        offset_of(insert_at(s, k, c), k + 1) == offset_of(s, k) + utf8_width(c),
        byte_len(insert_at(s, k, c)) == byte_len(s) + utf8_width(c),
{
    let t = insert_at(s, k, c);
    assert(t.take(k) =~= s.take(k));
    assert(t.take(k + 1) =~= s.take(k) + seq![c]);
    lemma_byte_len_concat(s.take(k), seq![c]);
    lemma_byte_len_single(c);
    assert(t =~= (s.take(k) + seq![c]) + s.skip(k));
    lemma_byte_len_concat(s.take(k) + seq![c], s.skip(k));
    assert(s =~= s.take(k) + s.skip(k));
    lemma_byte_len_concat(s.take(k), s.skip(k));
}

/// Removing the character at `k` keeps the offsets before it.
pub proof fn lemma_remove(s: Seq<char>, k: int)
    requires
        0 <= k < s.len(),
    ensures
        remove_at(s, k).len() == s.len() - 1,
        offset_of(remove_at(s, k), k) == offset_of(s, k),
        byte_len(remove_at(s, k)) + utf8_width(s[k]) == byte_len(s),
{
    let t = remove_at(s, k);
    assert(t.take(k) =~= s.take(k));
    assert(s =~= (s.take(k) + seq![s[k]]) + s.skip(k + 1));
    lemma_byte_len_concat(s.take(k) + seq![s[k]], s.skip(k + 1));
    lemma_byte_len_concat(s.take(k), seq![s[k]]);
    lemma_byte_len_single(s[k]);
    lemma_byte_len_concat(s.take(k), s.skip(k + 1));
}

/// Number of bytes in the UTF-8 encoding of `c` (what `char::len_utf8` gives).
pub fn char_width(c: char) -> (w: usize)
    ensures
        w == utf8_width(c),
{
    let v = c as u32;
    if v < 0x80 {
        1
    } else if v < 0x800 {
        2
    } else if v < 0x10000 {
        3
    } else {
        4
    }
}

/// Byte length of the whole text.
pub fn byte_length(s: &Vec<char>) -> (n: usize)
    requires
        byte_len(s@) <= usize::MAX,
    ensures
        n == byte_len(s@),
{
    let mut acc: usize = 0;
    let mut i: usize = 0;
    proof {
        lemma_offset_ends(s@);
    }
    while i < s.len()
        invariant
            i <= s@.len(),
            acc == offset_of(s@, i as int),
            byte_len(s@) <= usize::MAX,
        decreases s@.len() - i,
    {
        proof {
            lemma_offset_step(s@, i as int);
            lemma_offset_bounded(s@, i as int + 1);
        }
        acc = acc + char_width(s[i]);
        i = i + 1;
    }
    proof {
        lemma_offset_ends(s@);
    }
    acc
}

/// Index of the character that starts at the valid byte offset `b`.
pub fn index_at(s: &Vec<char>, b: usize) -> (k: usize)
    requires
        is_boundary(s@, b as int),
    ensures
        k == char_index(s@, b as int),
        k <= s@.len(),
        offset_of(s@, k as int) == b,
{
    proof {
        lemma_boundary(s@, b as int);
    }
    let ghost target = char_index(s@, b as int);
    let mut acc: usize = 0;
    let mut i: usize = 0;
    proof {
        lemma_offset_ends(s@);
    }
    while acc < b
        invariant
            0 <= target <= s@.len(),
            s@.len() == s.len(),
            offset_of(s@, target) == b,
            i <= target,
            acc == offset_of(s@, i as int),
        decreases b - acc,
    {
        proof {
            if i as int == target {
                assert(false);
            }
            lemma_offset_step(s@, i as int);
            if i + 1 < target {
                lemma_offset_strict(s@, i as int + 1, target);
            }
        }
        acc = acc + char_width(s[i]);
        i = i + 1;
    }
    proof {
        if (i as int) < target {
            lemma_offset_strict(s@, i as int, target);
        }
    }
    i
}

/// The characters of `s`, in order.
pub fn chars_of(s: &str) -> (v: Vec<char>)
    ensures
        v@ == s@,
{
    let mut v: Vec<char> = Vec::new();
    for c in it: s.chars()
        invariant
            it.seq() == s@,
            v@ == it.seq().take(it.index()),
    {
        v.push(c);
    }
    v
}

/// A `String` holding exactly the characters of `chars`.
///
/// Calls `<String as FromIterator<&char>>::from_iter`, which std documents as
/// pushing each character in turn; the contract claims the result's
/// characters are `chars`, in order.
#[verifier::external_body]
pub(crate) fn string_from_chars(chars: &[char]) -> (s: String)
    ensures
        s@ == chars@,
{
    chars.iter().collect()
}

/// The lines joined with a line break between each two.
pub open spec fn join_lines(lines: Seq<Seq<char>>) -> Seq<char>
    decreases lines.len(),
{
    if lines.len() == 0 {
        Seq::empty()
    } else if lines.len() == 1 {
        lines[0]
    } else {
        join_lines(lines.drop_last()) + seq!['\n'] + lines.last()
    }
}

// ── Trimming ────────────────────────────────────────────────────────────

/// Whether `c` has the Unicode `White_Space` property: U+0009 to U+000D, U+0020,
/// U+0085, U+00A0, U+1680, U+2000 to U+200A, U+2028, U+2029, U+202F, U+205F
/// and U+3000.
pub open spec fn white_space(c: char) -> bool {
    let v = c as u32;
    ||| 0x09 <= v <= 0x0D
    ||| v == 0x20
    ||| v == 0x85
    ||| v == 0xA0
    ||| v == 0x1680
    ||| 0x2000 <= v <= 0x200A
    ||| v == 0x2028
    ||| v == 0x2029
    ||| v == 0x202F
    ||| v == 0x205F
    ||| v == 0x3000
}

/// Whether `c` is white space (what `char::is_whitespace` tests).
pub fn is_whitespace(c: char) -> (b: bool)
    ensures
        b == white_space(c),
{
    let v = c as u32;
    (0x09 <= v && v <= 0x0D) || v == 0x20 || v == 0x85 || v == 0xA0 || v == 0x1680 || (0x2000
        <= v && v <= 0x200A) || v == 0x2028 || v == 0x2029 || v == 0x202F || v == 0x205F || v
        == 0x3000
}

/// `s[i..j]` is what remains of `s` once leading and trailing white space is cut.
pub open spec fn trim_bounds(s: Seq<char>, i: int, j: int) -> bool {
    &&& 0 <= i <= j <= s.len()
    &&& forall|k: int| 0 <= k < i ==> white_space(#[trigger] s[k])
    &&& forall|k: int| j <= k < s.len() ==> white_space(#[trigger] s[k])
    &&& i < j ==> !white_space(s[i]) && !white_space(s[j - 1])
}

/// `s` without leading and trailing white space (what `str::trim` gives).
pub open spec fn trimmed(s: Seq<char>) -> Seq<char> {
    let (i, j) = choose|i: int, j: int| trim_bounds(s, i, j);
    s.subrange(i, j)
}

/// Any bounds that cut the white space off give the same text.
pub proof fn lemma_trim_unique(s: Seq<char>, i: int, j: int)
    requires
        trim_bounds(s, i, j),
    ensures
        trimmed(s) == s.subrange(i, j),
{
    let (i2, j2) = choose|i2: int, j2: int| trim_bounds(s, i2, j2);
    if i < j && i2 < j2 {
        if i2 < i {
            assert(white_space(s[i2]));
        }
        if i < i2 {
            assert(white_space(s[i]));
        }
        if j2 < j {
            assert(white_space(s[j - 1]));
        }
        if j < j2 {
            assert(white_space(s[j2 - 1]));
        }
    } else if i < j {
        assert(white_space(s[i])) by {
            if i < i2 {
            } else {
                assert(j2 <= i2);
            }
        }
    } else if i2 < j2 {
        assert(white_space(s[i2])) by {
            if i2 < i {
            } else {
                assert(j <= i);
            }
        }
    }
    assert(s.subrange(i, j) =~= s.subrange(i2, j2));
}

/// `s` without leading and trailing white space.
pub fn trim_chars(s: &Vec<char>) -> (t: Vec<char>)
    ensures
        t@ == trimmed(s@),
{
    let n = s.len();
    let mut i: usize = 0;
    while i < n && is_whitespace(s[i])
        invariant
            n == s@.len(),
            i <= n,
            forall|k: int| 0 <= k < i ==> white_space(#[trigger] s@[k]),
        decreases n - i,
    {
        i = i + 1;
    }
    let mut j: usize = n;
    while j > i && is_whitespace(s[j - 1])
        invariant
            n == s@.len(),
            i <= j <= n,
            forall|k: int| j <= k < n ==> white_space(#[trigger] s@[k]),
        decreases j - i,
    {
        j = j - 1;
    }
    let mut t: Vec<char> = Vec::new();
    let mut k: usize = i;
    while k < j
        invariant
            n == s@.len(),
            i <= k <= j <= n,
            t@ == s@.subrange(i as int, k as int),
        decreases j - k,
    {
        t.push(s[k]);
        k = k + 1;
        proof {
            assert(t@ =~= s@.subrange(i as int, k as int));
        }
    }
    proof {
        if i < j {
            assert(!white_space(s@[i as int]));
            assert(!white_space(s@[j - 1]));
        }
        assert(trim_bounds(s@, i as int, j as int));
        lemma_trim_unique(s@, i as int, j as int);
    }
    t
}

/// Whether the byte offset `b` falls between two characters of `s` (or at an end).
pub fn boundary_at(s: &Vec<char>, b: usize) -> (r: bool)
    requires
        byte_len(s@) <= usize::MAX,
    ensures
        r == is_boundary(s@, b as int),
{
    let mut acc: usize = 0;
    let mut i: usize = 0;
    proof {
        lemma_offset_ends(s@);
    }
    while i < s.len() && acc < b
        invariant
            i <= s@.len(),
            acc == offset_of(s@, i as int),
            byte_len(s@) <= usize::MAX,
            forall|j: int| 0 <= j < i ==> offset_of(s@, j) < b,
        decreases s@.len() - i,
    {
        proof {
            lemma_offset_step(s@, i as int);
            lemma_offset_bounded(s@, i as int + 1);
        }
        acc = acc + char_width(s[i]);
        i = i + 1;
    }
    if acc == b {
        proof {
            assert(0 <= i <= s@.len() && offset_of(s@, i as int) == b);
        }
        true
    } else {
        proof {
            if is_boundary(s@, b as int) {
                let k = char_index(s@, b as int);
                if k < i {
                } else if k > i {
                    lemma_offset_strict(s@, i as int, k);
                    if (i as int) < s@.len() {
                    } else {
                        assert(false);
                    }
                }
            }
        }
        false
    }
}

} // verus!
